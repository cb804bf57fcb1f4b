use tyrnak_engine::component::{AttackTarget, ComponentStore};
use tyrnak_engine::entity::EntityId;
use tyrnak_engine::inspector::{
    color_for_target, lane_spans, lane_threads, shown_events, shown_hotspots, shown_samples,
    span_matches, stack_spans, str_contains, thread_matches, EventSnapshot, HotspotSnapshot,
    InspectorFilters, SpanSnapshot, StackSampleSnapshot, ThreadSnapshot,
};
use tyrnak_engine::names::{compare_names, NameOrder};
use tyrnak_engine::targeting::{attack_pairs, attackers_of, clear_attackers_of, first_attacker_of};

fn span(thread_id: &str, thread_name: Option<&str>, target: &str, name: &str, ended: Option<u64>) -> SpanSnapshot {
    SpanSnapshot {
        thread_id: thread_id.to_string(),
        thread_name: thread_name.map(|s| s.to_string()),
        target: target.to_string(),
        name: name.to_string(),
        ended_at_micros: ended,
    }
}

#[test]
fn substring_search() {
    assert!(str_contains("service-sim", "sim"));
    assert!(str_contains("service-sim", ""));
    assert!(str_contains("", ""));
    assert!(!str_contains("sim", "service"));
    assert!(!str_contains("abcabd", "abd") == false);
    assert!(!str_contains("abcab", "abd"));
}

#[test]
fn thread_filter_matching() {
    let mut filters = InspectorFilters::default();
    assert!(thread_matches("anything", &filters));
    filters.thread_filter = "sim".to_string();
    assert!(thread_matches("service-sim", &filters));
    assert!(!thread_matches("service-net", &filters));
}

#[test]
fn span_filter_matching() {
    let mut filters = InspectorFilters::default();
    let s = span("7", Some("service-sim"), "game_core::tick", "tick", None);
    assert!(span_matches(&s, &filters));
    filters.thread_filter = "sim".to_string();
    assert!(span_matches(&s, &filters));
    filters.module_filter = "tick".to_string();
    filters.function_filter = "ti".to_string();
    assert!(span_matches(&s, &filters));
    filters.selected_thread = Some("8".to_string());
    assert!(!span_matches(&s, &filters));
    filters.selected_thread = Some("7".to_string());
    assert!(span_matches(&s, &filters));
    filters.active_only = true;
    assert!(span_matches(&s, &filters));
    let ended = span("7", Some("service-sim"), "game_core::tick", "tick", Some(5));
    assert!(!span_matches(&ended, &filters));
    // Without a thread name the id is the label.
    let unnamed = span("service-sim-3", None, "game_core::tick", "tick", None);
    filters.selected_thread = None;
    assert!(span_matches(&unnamed, &filters));
    filters.module_filter = "net".to_string();
    assert!(!span_matches(&unnamed, &filters));
}

#[test]
fn target_colors() {
    // Empty target: hash 0.
    assert_eq!(color_for_target(""), (60, 70, 80));
    // "a" hashes to 97.
    assert_eq!(color_for_target("a"), (60 + 97, 70, 80));
    // "ab": 97 * 31 + 98 = 3105 = 24 * 128 + 33.
    assert_eq!(color_for_target("ab"), (60 + 33, 70 + 24, 80));
    assert_eq!(color_for_target("game_core::tick"), color_for_target("game_core::tick"));
}

#[test]
fn name_ordering() {
    assert_eq!(compare_names("audio", "net"), NameOrder::Less);
    assert_eq!(compare_names("net", "net"), NameOrder::Equal);
    assert_eq!(compare_names("sim2", "sim"), NameOrder::Greater);
    assert_eq!(compare_names("", "a"), NameOrder::Less);
}

#[test]
fn killer_and_attacker_bookkeeping() {
    let mut targets = ComponentStore::new();
    targets.insert(EntityId::new(0, 0), AttackTarget(None));
    targets.insert(EntityId::new(2, 0), AttackTarget(Some(EntityId::new(5, 0))));
    targets.insert(EntityId::new(3, 0), AttackTarget(Some(EntityId::new(1, 0))));
    targets.insert(EntityId::new(4, 0), AttackTarget(Some(EntityId::new(5, 2))));
    assert_eq!(
        attack_pairs(&targets),
        vec![(2, EntityId::new(5, 0)), (3, EntityId::new(1, 0)), (4, EntityId::new(5, 2))]
    );
    assert_eq!(first_attacker_of(&targets, 5), Some(2));
    assert_eq!(first_attacker_of(&targets, 1), Some(3));
    assert_eq!(first_attacker_of(&targets, 0), None);
    assert_eq!(attackers_of(&targets, 5), vec![2, 4]);
    clear_attackers_of(&mut targets, 5);
    assert_eq!(targets.get(EntityId::new(2, 0)).copied(), Some(AttackTarget(None)));
    assert_eq!(targets.get(EntityId::new(4, 0)).copied(), Some(AttackTarget(None)));
    assert_eq!(
        targets.get(EntityId::new(3, 0)).copied(),
        Some(AttackTarget(Some(EntityId::new(1, 0))))
    );
    assert!(!targets.has(EntityId::new(1, 0)));
}

fn thread(id: &str, name: Option<&str>) -> ThreadSnapshot {
    ThreadSnapshot { id: id.to_string(), name: name.map(|s| s.to_string()) }
}

#[test]
fn lane_and_stack_selection() {
    let threads = vec![thread("t1", Some("sim")), thread("t2", Some("render")), thread("t3", None)];
    let mut filters = InspectorFilters::default();
    assert_eq!(lane_threads(&threads, &filters), vec![0, 1, 2]);
    filters.thread_filter = "r".to_string();
    assert_eq!(lane_threads(&threads, &filters), vec![1]);
    filters.thread_filter = "t".to_string();
    assert_eq!(lane_threads(&threads, &filters), vec![2]);
    filters.thread_filter.clear();
    filters.selected_thread = Some("t1".to_string());
    assert_eq!(lane_threads(&threads, &filters), vec![0]);

    let spans = vec![
        span("t1", Some("sim"), "game::tick", "run", None),
        span("t2", Some("render"), "gfx", "draw", Some(5)),
        span("t1", Some("sim"), "game::ai", "think", Some(9)),
    ];
    let mut filters = InspectorFilters::default();
    let t1 = "t1".to_string();
    assert_eq!(lane_spans(&spans, &t1, &filters), vec![0, 2]);
    filters.module_filter = "game".to_string();
    filters.active_only = true;
    assert_eq!(lane_spans(&spans, &t1, &filters), vec![0]);
    assert_eq!(stack_spans(&spans, &filters), vec![0]);
    filters.active_only = false;
    filters.module_filter.clear();
    filters.function_filter = "r".to_string();
    assert_eq!(stack_spans(&spans, &filters), vec![0, 1]);
}

#[test]
fn hotspots_samples_and_events_lists() {
    let hotspots: Vec<HotspotSnapshot> = (0..60)
        .map(|i| HotspotSnapshot {
            target: if i % 2 == 0 { "game".to_string() } else { "net".to_string() },
            function: format!("f{i}"),
        })
        .collect();
    let mut filters = InspectorFilters::default();
    let all = shown_hotspots(&hotspots, &filters);
    assert_eq!(all, (0..50).collect::<Vec<usize>>());
    filters.module_filter = "game".to_string();
    let even = shown_hotspots(&hotspots, &filters);
    assert_eq!(even, (0..30).map(|i| 2 * i).collect::<Vec<usize>>());

    let samples: Vec<StackSampleSnapshot> = (0..30)
        .map(|i| StackSampleSnapshot {
            thread_id: format!("t{}", i % 3),
            thread_name: None,
            label: format!("s{i}"),
        })
        .collect();
    let filters = InspectorFilters::default();
    assert_eq!(shown_samples(&samples, &filters), (10..30).rev().collect::<Vec<usize>>());
    let mut filters = InspectorFilters::default();
    filters.thread_filter = "t0".to_string();
    assert_eq!(shown_samples(&samples, &filters), (0..10).map(|i| 27 - 3 * i).collect::<Vec<usize>>());

    let events = vec![
        EventSnapshot {
            thread_id: "t1".to_string(),
            thread_name: Some("sim".to_string()),
            target: "game".to_string(),
            name: "spawn".to_string(),
        },
        EventSnapshot {
            thread_id: "t2".to_string(),
            thread_name: None,
            target: "net".to_string(),
            name: "send".to_string(),
        },
        EventSnapshot {
            thread_id: "t1".to_string(),
            thread_name: Some("sim".to_string()),
            target: "game".to_string(),
            name: "despawn".to_string(),
        },
    ];
    let mut filters = InspectorFilters::default();
    assert_eq!(shown_events(&events, &filters), vec![2, 1, 0]);
    filters.thread_filter = "sim".to_string();
    filters.function_filter = "spawn".to_string();
    assert_eq!(shown_events(&events, &filters), vec![2, 0]);
}

#[test]
fn service_focus_selects_thread_and_label() {
    let mut filters = InspectorFilters::default();
    filters.module_filter = "game".to_string();
    let id = "t7".to_string();
    filters.focus_service(&id, &Some("sim".to_string()));
    assert_eq!(filters.selected_thread.as_deref(), Some("t7"));
    assert_eq!(filters.thread_filter, "sim");
    assert_eq!(filters.module_filter, "game");
    assert!(filters.is_focused(&id));
    assert!(!filters.is_focused(&"t8".to_string()));
    filters.focus_service(&"t8".to_string(), &None);
    assert_eq!(filters.thread_filter, "t8");
    filters.clear_service_focus();
    assert_eq!(filters.selected_thread, None);
    assert_eq!(filters.thread_filter, "t8");
    assert!(!filters.is_focused(&id));
}
