use tyrnak_engine::control::{join_outcome, ControlMsg, FaultSeverity, RuntimeError, ServiceExit, ServiceFault};
use tyrnak_engine::schedule::{tick_schedule, TickStep};
use tyrnak_engine::health::{ServiceHealth, ServiceState};
use tyrnak_engine::latest::{LatestInner, LatestValue};
use tyrnak_engine::policy::{ChannelStats, DeliverySemantics, OverflowPolicy, QueuePolicy};
use tyrnak_engine::status_book::RuntimeStatusBook;

#[test]
fn latest_value_overwrites_old_value() {
    let latest = LatestValue::new();
    latest.writer.write(1);
    latest.writer.write(2);
    assert_eq!(latest.reader.take(), Some(2));
    let stats = latest.reader.stats();
    assert_eq!(stats.sent, 2);
    assert_eq!(stats.overwritten, 1);
    assert_eq!(stats.received, 1);
}

#[test]
fn latest_value_read_keeps_value_and_counts() {
    let latest = LatestValue::new();
    assert_eq!(latest.reader.read(), None);
    latest.writer.write(String::from("a"));
    let second_reader = latest.reader.clone();
    assert_eq!(latest.reader.read(), Some(String::from("a")));
    assert_eq!(second_reader.read(), Some(String::from("a")));
    assert_eq!(second_reader.take(), Some(String::from("a")));
    assert_eq!(latest.reader.take(), None);
    let stats = latest.writer.clone().stats();
    assert_eq!(stats, ChannelStats { sent: 1, received: 3, overwritten: 0, rejected: 0 });
}

#[test]
fn latest_inner_transitions_are_exact() {
    let mut slot = LatestInner::new();
    slot.record_write(5u8);
    slot.record_write(6u8);
    assert_eq!(slot.record_read(), Some(6));
    assert_eq!(slot.record_take(), Some(6));
    assert_eq!(slot.record_take(), None);
    assert_eq!(slot.stats, ChannelStats { sent: 2, received: 2, overwritten: 1, rejected: 0 });
}

#[test]
fn queue_policy_bounded_defaults() {
    let policy = QueuePolicy::bounded(8);
    assert_eq!(policy.capacity, 8);
    assert_eq!(policy.overflow, OverflowPolicy::Block);
    assert_eq!(policy.semantics, DeliverySemantics::ReliableQueue);
    assert_eq!(ChannelStats::default(), ChannelStats { sent: 0, received: 0, overwritten: 0, rejected: 0 });
}

#[test]
fn service_fault_constructors_and_text() {
    let f = ServiceFault::fatal("faulting", "simulated failure");
    assert_eq!(f.severity, FaultSeverity::Fatal);
    assert_eq!(f.describe(), "faulting fault (Fatal): simulated failure");
    let r = ServiceFault::recoverable("net", "retrying");
    assert_eq!(r.severity, FaultSeverity::Recoverable);
    assert_eq!(r.message, "retrying");
    assert_eq!(r.describe(), "net fault (Recoverable): retrying");
}

#[test]
fn runtime_error_text() {
    let e = RuntimeError::ThreadSpawn { service: "sim", message: String::from("no threads") };
    assert_eq!(e.describe(), "failed to spawn service 'sim': no threads");
    let e = RuntimeError::ControlSend { service: "sim", message: String::from("closed") };
    assert_eq!(e.describe(), "failed to send control message to 'sim': closed");
    let e = RuntimeError::ThreadPanic { service: "sim" };
    assert_eq!(e.describe(), "service thread 'sim' panicked");
    let e = RuntimeError::ServiceFault(ServiceFault::recoverable("x", "y"));
    assert_eq!(e.describe(), "x fault (Recoverable): y");
    assert_ne!(ControlMsg::Stop, ControlMsg::Shutdown);
}

#[test]
fn status_book_ingest_keeps_names_sorted_and_unique() {
    let mut book = RuntimeStatusBook::new();
    book.ingest(ServiceHealth::new("sim", ServiceState::Starting, Some("service-sim")), 10);
    book.ingest(ServiceHealth::new("audio", ServiceState::Running, None), 11);
    book.ingest(ServiceHealth::new("net", ServiceState::Running, None), 12);
    book.ingest(ServiceHealth::new("sim", ServiceState::Running, None), 13);
    let snap = book.snapshot(20);
    assert_eq!(snap.captured_at, 20);
    let names: Vec<&str> = snap.services.iter().map(|s| s.name).collect();
    assert_eq!(names, vec!["audio", "net", "sim"]);
    let sim = snap.services[2];
    assert_eq!(sim.state, ServiceState::Running);
    assert_eq!(sim.thread_name, Some("service-sim"));
    assert_eq!(sim.last_changed_at, 13);
}

#[test]
fn status_book_same_state_keeps_change_time() {
    let mut book = RuntimeStatusBook::new();
    book.ingest(ServiceHealth::new("sim", ServiceState::Running, None), 5);
    book.ingest(ServiceHealth::new("sim", ServiceState::Running, Some("t")), 9);
    let snap = book.snapshot(10);
    assert_eq!(snap.services.len(), 1);
    assert_eq!(snap.services[0].last_changed_at, 5);
    assert_eq!(snap.services[0].thread_name, Some("t"));
    assert!(book.changed_since(5).is_empty());
    assert_eq!(book.changed_since(4).len(), 1);
}

#[test]
fn status_book_summary_counts_states() {
    let mut book = RuntimeStatusBook::new();
    book.ingest(ServiceHealth::new("a", ServiceState::Running, None), 1);
    book.ingest(ServiceHealth::new("b", ServiceState::Paused, None), 2);
    book.ingest(ServiceHealth::new("c", ServiceState::Faulted, None), 3);
    book.ingest(ServiceHealth::new("d", ServiceState::Starting, None), 4);
    book.ingest(ServiceHealth::new("e", ServiceState::Running, None), 5);
    let s = book.summary(7);
    assert_eq!(s.captured_at, 7);
    assert_eq!(s.total_services, 5);
    assert_eq!(s.running, 2);
    assert_eq!(s.paused, 1);
    assert_eq!(s.faulted, 1);
    assert_eq!(s.stopping, 0);
    assert_eq!(s.stopped, 0);
    let changed: Vec<&str> = book.changed_since(2).iter().map(|s| s.name).collect();
    assert_eq!(changed, vec!["c", "d", "e"]);
}

#[test]
fn latest_counters_stay_consistent() {
    let latest = LatestValue::new();
    for i in 0..5 {
        latest.writer.write(i);
    }
    assert_eq!(latest.reader.read(), Some(4));
    assert_eq!(latest.reader.take(), Some(4));
    assert_eq!(latest.reader.take(), None);
    let stats = latest.writer.stats();
    assert_eq!(stats.sent, 5);
    assert_eq!(stats.overwritten, 4);
    assert_eq!(stats.received, 2);
    assert_eq!(stats.rejected, 0);
    assert!(stats.overwritten <= stats.sent);
}

#[test]
fn latest_counters_stop_at_their_limit() {
    let mut slot = LatestInner::new();
    slot.stats.sent = u64::MAX;
    slot.record_write(1u8);
    slot.record_write(2u8);
    assert_eq!(slot.stats.sent, u64::MAX);
    assert_eq!(slot.stats.overwritten, 1);
    assert!(slot.stats.overwritten <= slot.stats.sent);
}

#[test]
fn join_outcome_reports_first_error() {
    assert!(join_outcome(vec![ServiceExit::Finished, ServiceExit::Finished]).is_ok());
    assert!(join_outcome(Vec::new()).is_ok());
    let r = join_outcome(vec![
        ServiceExit::Finished,
        ServiceExit::Panicked { service: "net" },
        ServiceExit::Faulted(ServiceFault::fatal("sim", "boom")),
    ]);
    assert!(matches!(r, Err(RuntimeError::ThreadPanic { service: "net" })));
    let r = join_outcome(vec![
        ServiceExit::Faulted(ServiceFault::recoverable("sim", "retry")),
        ServiceExit::Panicked { service: "net" },
    ]);
    match r {
        Err(RuntimeError::ServiceFault(f)) => assert_eq!(f.service, "sim"),
        _ => panic!("expected the first fault"),
    }
}

#[test]
fn tick_schedule_order() {
    assert_eq!(
        tick_schedule(),
        vec![
            TickStep::ClearEvents,
            TickStep::Commands,
            TickStep::Abilities,
            TickStep::Items,
            TickStep::Movement,
            TickStep::Combat,
            TickStep::Damage,
            TickStep::Effects,
            TickStep::Deaths,
            TickStep::AdvanceCount,
        ]
    );
}
