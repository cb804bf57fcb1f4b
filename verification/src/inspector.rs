//! Trace-inspector filtering and colouring: which spans and threads a filter
//! selection shows, and the stable colour given to each trace target.
use vstd::prelude::*;
use vstd::string::StrSliceExecFns;
use vstd::string::StringSliceAdditionalSpecFns;

verus! {

/// `needle` occurs in `hay` starting at position `i`.
pub open spec fn occurs_at(hay: Seq<char>, needle: Seq<char>, i: int) -> bool {
    0 <= i && i + needle.len() <= hay.len() && hay.subrange(i, i + needle.len()) == needle
}

/// `needle` occurs in `hay` as a contiguous run of characters.
pub open spec fn occurs_in(hay: Seq<char>, needle: Seq<char>) -> bool {
    exists|i: int| #[trigger] occurs_at(hay, needle, i)
}

/// The characters of a string slice, in order.
fn chars_of(s: &str) -> (v: Vec<char>)
    ensures
        v@ == s@,
{
    let n = s.unicode_len();
    let mut v: Vec<char> = Vec::new();
    let mut i: usize = 0;
    while i < n
        invariant
            n == s@.len(),
            i <= n,
            v@ == s@.subrange(0, i as int),
        decreases n - i,
    {
        v.push(s.get_char(i));
        i = i + 1;
        assert(v@ =~= s@.subrange(0, i as int));
    }
    assert(v@ =~= s@);
    v
}

/// Whether `needle` occurs in `hay` (substring search, as `str::contains`).
pub fn str_contains(hay: &str, needle: &str) -> (b: bool)
    ensures
        b == occurs_in(hay@, needle@),
{
    let h = chars_of(hay);
    let n = chars_of(needle);
    if n.len() == 0 {
        assert(hay@.subrange(0, 0) =~= needle@);
        assert(occurs_at(hay@, needle@, 0));
        return true;
    }
    if n.len() > h.len() {
        proof {
            assert forall|k: int| !#[trigger] occurs_at(hay@, needle@, k) by {}
        }
        return false;
    }
    let last = h.len() - n.len();
    let mut i: usize = 0;
    while i <= last
        invariant
            h@ == hay@,
            n@ == needle@,
            n@.len() >= 1,
            h@.len() <= usize::MAX,
            last == h@.len() - n@.len(),
            i <= last + 1,
            forall|k: int| 0 <= k < i ==> !#[trigger] occurs_at(hay@, needle@, k),
        decreases last + 1 - i,
    {
        let mut j: usize = 0;
        let mut same = true;
        while j < n.len()
            invariant
                h@ == hay@,
                n@ == needle@,
                h@.len() <= usize::MAX,
                i <= last,
                last == h@.len() - n@.len(),
                j <= n@.len(),
                same == (forall|m: int| 0 <= m < j ==> h@[i + m] == n@[m]),
            decreases n@.len() - j,
        {
            if h[i + j] != n[j] {
                same = false;
            }
            j = j + 1;
        }
        if same {
            assert(hay@.subrange(i as int, i + needle@.len()) =~= needle@);
            assert(occurs_at(hay@, needle@, i as int));
            return true;
        }
        proof {
            let m = choose|m: int| 0 <= m < n@.len() && h@[i + m] != n@[m];
            assert(hay@.subrange(i as int, i + needle@.len())[m] != needle@[m]);
        }
        i = i + 1;
    }
    proof {
        assert forall|k: int| !#[trigger] occurs_at(hay@, needle@, k) by {
            if 0 <= k && k + needle@.len() <= hay@.len() {
                assert(k < i);
            }
        }
    }
    false
}

/// The user's filter selection in the inspector.
#[derive(Debug, Clone, Default)]
pub struct InspectorFilters {
    pub thread_filter: String,
    pub module_filter: String,
    pub function_filter: String,
    pub selected_thread: Option<String>,
    pub active_only: bool,
}

impl InspectorFilters {
    /// Focus on one service's thread (a click in the services panel): select the
    /// thread and filter threads by its label, its name or else its id.
    pub fn focus_service(&mut self, thread_id: &String, thread_name: &Option<String>)
        ensures
            final(self).selected_thread matches Some(sel) && sel@ == thread_id@,
            final(self).thread_filter@ == (match thread_name {
                Some(n) => n@,
                None => thread_id@,
            }),
            final(self).module_filter == old(self).module_filter,
            final(self).function_filter == old(self).function_filter,
            final(self).active_only == old(self).active_only,
    {
        self.selected_thread = Some(thread_id.clone());
        self.thread_filter = match thread_name {
            Some(n) => n.clone(),
            None => thread_id.clone(),
        };
    }

    /// Drop the service focus; the text filters stay.
    pub fn clear_service_focus(&mut self)
        ensures
            final(self).selected_thread is None,
            final(self).thread_filter == old(self).thread_filter,
            final(self).module_filter == old(self).module_filter,
            final(self).function_filter == old(self).function_filter,
            final(self).active_only == old(self).active_only,
    {
        self.selected_thread = None;
    }

    /// Whether the service running on `thread_id` is the focused one.
    pub fn is_focused(&self, thread_id: &String) -> (b: bool)
        ensures
            b == (self.selected_thread matches Some(sel) && sel@ == thread_id@),
    {
        match &self.selected_thread {
            Some(sel) => *sel == *thread_id,
            None => false,
        }
    }
}

/// What the span filter reads of a recorded span.
#[derive(Debug, Clone)]
pub struct SpanSnapshot {
    pub thread_id: String,
    pub thread_name: Option<String>,
    pub target: String,
    pub name: String,
    pub ended_at_micros: Option<u64>,
}

/// A thread label passes the thread filter: the filter is empty or occurs in it.
pub open spec fn thread_passes(label: Seq<char>, filters: InspectorFilters) -> bool {
    filters.thread_filter@.len() == 0 || occurs_in(label, filters.thread_filter@)
}

/// The label a span is shown under: its thread's name, else its thread's id.
pub open spec fn span_label(span: SpanSnapshot) -> Seq<char> {
    match span.thread_name {
        Some(n) => n@,
        None => span.thread_id@,
    }
}

/// A span passes every active filter.
pub open spec fn span_passes(span: SpanSnapshot, filters: InspectorFilters) -> bool {
    &&& thread_passes(span_label(span), filters)
    &&& (filters.selected_thread matches Some(sel) ==> span.thread_id@ == sel@)
    &&& (filters.module_filter@.len() == 0 || occurs_in(span.target@, filters.module_filter@))
    &&& (filters.function_filter@.len() == 0 || occurs_in(span.name@, filters.function_filter@))
    &&& (filters.active_only ==> span.ended_at_micros is None)
}

/// Whether a thread with this label is shown under the current filters.
pub fn thread_matches(thread_label: &str, filters: &InspectorFilters) -> (b: bool)
    ensures
        b == thread_passes(thread_label@, *filters),
{
    filters.thread_filter.as_str().is_empty() || str_contains(thread_label, filters.thread_filter.as_str())
}

/// Whether a span is shown under the current filters.
pub fn span_matches(span: &SpanSnapshot, filters: &InspectorFilters) -> (b: bool)
    ensures
        b == span_passes(*span, *filters),
{
    let thread_label: &str = match &span.thread_name {
        Some(n) => n.as_str(),
        None => span.thread_id.as_str(),
    };
    if !filters.thread_filter.as_str().is_empty() && !str_contains(
        thread_label,
        filters.thread_filter.as_str(),
    ) {
        return false;
    }
    match &filters.selected_thread {
        Some(selected) => {
            if span.thread_id != *selected {
                return false;
            }
        },
        None => {},
    }
    if !filters.module_filter.as_str().is_empty() && !str_contains(
        span.target.as_str(),
        filters.module_filter.as_str(),
    ) {
        return false;
    }
    if !filters.function_filter.as_str().is_empty() && !str_contains(
        span.name.as_str(),
        filters.function_filter.as_str(),
    ) {
        return false;
    }
    if filters.active_only && span.ended_at_micros.is_some() {
        return false;
    }
    true
}

/// The target hash: `h = h * 31 + byte`, modulo 2^32, over the target's UTF-8 bytes.
pub open spec fn target_hash(bytes: Seq<u8>) -> u32
    decreases bytes.len(),
{
    if bytes.len() == 0 {
        0
    } else {
        ((target_hash(bytes.drop_last()) * 31 + bytes.last()) % 0x1_0000_0000) as u32
    }
}

/// The colour channels derived from a hash: three 7-bit fields over fixed bases.
pub open spec fn hash_color(hash: u32) -> (u8, u8, u8) {
    (
        (60 + hash % 128) as u8,
        (70 + (hash / 128) % 128) as u8,
        (80 + (hash / 16384) % 128) as u8,
    )
}

/// The stable RGB colour shown for a trace target.
pub fn color_for_target(target: &str) -> (rgb: (u8, u8, u8))
    ensures
        rgb == hash_color(target_hash(target.spec_bytes())),
{
    let bytes = target.as_bytes();
    let mut hash: u32 = 0;
    let mut i: usize = 0;
    while i < bytes.len()
        invariant
            bytes@ == target.spec_bytes(),
            i <= bytes@.len(),
            hash == target_hash(bytes@.subrange(0, i as int)),
        decreases bytes@.len() - i,
    {
        let b = bytes[i];
        proof {
            let pre = bytes@.subrange(0, i as int);
            let post = bytes@.subrange(0, i as int + 1);
            assert(post.drop_last() =~= pre);
            assert(post.last() == b);
            vstd::arithmetic::div_mod::lemma_add_mod_noop(hash * 31, b as int, 0x1_0000_0000);
            vstd::arithmetic::div_mod::lemma_mod_twice(hash * 31, 0x1_0000_0000);
            assert((b as int) % 0x1_0000_0000 == b as int);
        }
        hash = hash.wrapping_mul(31).wrapping_add(b as u32);
        i = i + 1;
    }
    assert(bytes@.subrange(0, bytes@.len() as int) =~= bytes@);
    assert(hash & 0x7f <= 127) by (bit_vector);
    assert((hash >> 7) & 0x7f <= 127) by (bit_vector);
    assert((hash >> 14) & 0x7f <= 127) by (bit_vector);
    let r = 60 + (hash & 0x7f) as u8;
    let g = 70 + ((hash >> 7) & 0x7f) as u8;
    let b = 80 + ((hash >> 14) & 0x7f) as u8;
    proof {
        assert(hash & 0x7f == hash % 128) by (bit_vector);
        assert((hash >> 7) & 0x7f == (hash / 128) % 128) by (bit_vector);
        assert((hash >> 14) & 0x7f == (hash / 16384) % 128) by (bit_vector);
    }
    (r, g, b)
}

/// The indices `i < n` with `keep(i)`, in increasing order.
pub open spec fn passing_indices(n: nat, keep: spec_fn(int) -> bool) -> Seq<usize>
    decreases n,
{
    if n == 0 {
        Seq::empty()
    } else {
        let prev = passing_indices((n - 1) as nat, keep);
        if keep(n - 1) {
            prev.push((n - 1) as usize)
        } else {
            prev
        }
    }
}

/// The first `n` entries of `s` (all of them when there are fewer).
pub open spec fn first_n<A>(s: Seq<A>, n: nat) -> Seq<A> {
    if s.len() <= n {
        s
    } else {
        s.take(n as int)
    }
}

/// The last `n` entries of `s` (all of them when there are fewer), newest first.
pub open spec fn newest_n<A>(s: Seq<A>, n: nat) -> Seq<A> {
    let m = if s.len() <= n {
        s.len()
    } else {
        n
    };
    Seq::new(m, |k: int| s[s.len() - 1 - k])
}

/// The indices of `passing_indices(n, keep)` are below `n`, satisfy `keep`, rise
/// strictly, and include every `j < n` that satisfies `keep`.
proof fn lemma_passing_indices(n: nat, keep: spec_fn(int) -> bool)
    requires
        n <= usize::MAX + 1,
    ensures
        passing_indices(n, keep).len() <= n,
        forall|k: int|
            0 <= k < passing_indices(n, keep).len() ==> #[trigger] passing_indices(n, keep)[k] < n,
        forall|k: int|
            0 <= k < passing_indices(n, keep).len() ==> keep(
                #[trigger] passing_indices(n, keep)[k] as int,
            ),
        forall|k: int, l: int|
            0 <= k < l < passing_indices(n, keep).len() ==> #[trigger] passing_indices(n, keep)[k]
                < #[trigger] passing_indices(n, keep)[l],
        forall|j: int|
            0 <= j < n && #[trigger] keep(j) ==> exists|k: int|
                0 <= k < passing_indices(n, keep).len() && passing_indices(n, keep)[k] == j,
    decreases n,
{
    if n > 0 {
        let m = (n - 1) as nat;
        lemma_passing_indices(m, keep);
        let prev = passing_indices(m, keep);
        let cur = passing_indices(n, keep);
        if keep(m as int) {
            assert(cur == prev.push(m as usize));
            assert(cur[prev.len() as int] == m);
            assert forall|k: int| 0 <= k < cur.len() implies #[trigger] cur[k] < n && keep(
                cur[k] as int,
            ) by {
                if k < prev.len() {
                    assert(cur[k] == prev[k]);
                }
            }
            assert forall|k: int, l: int| 0 <= k < l < cur.len() implies #[trigger] cur[k]
                < #[trigger] cur[l] by {
                assert(cur[k] == prev[k]);
                if l < prev.len() {
                    assert(cur[l] == prev[l]);
                }
            }
            assert forall|j: int| 0 <= j < n && #[trigger] keep(j) implies exists|k: int|
                0 <= k < cur.len() && cur[k] == j by {
                if j < m {
                    let k = choose|k: int| 0 <= k < prev.len() && prev[k] == j;
                    assert(cur[k] == prev[k]);
                } else {
                    assert(cur[prev.len() as int] == j);
                }
            }
        } else {
            assert(cur == prev);
            assert forall|j: int| 0 <= j < n && #[trigger] keep(j) implies exists|k: int|
                0 <= k < cur.len() && cur[k] == j by {
                assert(j != m);
            }
        }
    }
}

/// A recorded thread, as the lane and stack panels read it.
#[derive(Debug, Clone)]
pub struct ThreadSnapshot {
    pub id: String,
    pub name: Option<String>,
}

/// The label a thread is shown under: its name, else its id.
pub open spec fn thread_label(thread: ThreadSnapshot) -> Seq<char> {
    match thread.name {
        Some(n) => n@,
        None => thread.id@,
    }
}

/// A thread gets a lane (and a stack card): its label passes the thread filter and,
/// when a thread is selected, it is that thread.
pub open spec fn lane_passes(thread: ThreadSnapshot, filters: InspectorFilters) -> bool {
    &&& thread_passes(thread_label(thread), filters)
    &&& (filters.selected_thread matches Some(sel) ==> thread.id@ == sel@)
}

/// The threads that get a lane, by position, in recorded order.
pub fn lane_threads(threads: &Vec<ThreadSnapshot>, filters: &InspectorFilters) -> (out: Vec<usize>)
    ensures
        out@ == passing_indices(threads@.len(), |i: int| lane_passes(threads@[i], *filters)),
{
    let ghost keep = |i: int| lane_passes(threads@[i], *filters);
    let mut out: Vec<usize> = Vec::new();
    let mut i: usize = 0;
    while i < threads.len()
        invariant
            i <= threads@.len(),
            keep == (|i: int| lane_passes(threads@[i], *filters)),
            out@ == passing_indices(i as nat, keep),
        decreases threads@.len() - i,
    {
        let thread = &threads[i];
        let label: &str = match &thread.name {
            Some(n) => n.as_str(),
            None => thread.id.as_str(),
        };
        let mut shown = thread_matches(label, filters);
        match &filters.selected_thread {
            Some(selected) => {
                if thread.id != *selected {
                    shown = false;
                }
            },
            None => {},
        }
        if shown {
            out.push(i);
        }
        i = i + 1;
    }
    out
}

/// A span is drawn in the lane of thread `thread_id`: it passes the span filters
/// and ran on that thread.
pub open spec fn lane_span_passes(span: SpanSnapshot, thread_id: Seq<char>, filters: InspectorFilters) -> bool {
    span_passes(span, filters) && span.thread_id@ == thread_id
}

/// The spans drawn in the lane of thread `thread_id`, by position, in recorded order.
pub fn lane_spans(spans: &Vec<SpanSnapshot>, thread_id: &String, filters: &InspectorFilters) -> (out:
    Vec<usize>)
    ensures
        out@ == passing_indices(
            spans@.len(),
            |i: int| lane_span_passes(spans@[i], thread_id@, *filters),
        ),
{
    let ghost keep = |i: int| lane_span_passes(spans@[i], thread_id@, *filters);
    let mut out: Vec<usize> = Vec::new();
    let mut i: usize = 0;
    while i < spans.len()
        invariant
            i <= spans@.len(),
            keep == (|i: int| lane_span_passes(spans@[i], thread_id@, *filters)),
            out@ == passing_indices(i as nat, keep),
        decreases spans@.len() - i,
    {
        if span_matches(&spans[i], filters) && spans[i].thread_id == *thread_id {
            out.push(i);
        }
        i = i + 1;
    }
    out
}

/// The spans of one thread's active stack that are listed, by position, in stack order.
pub fn stack_spans(stack: &Vec<SpanSnapshot>, filters: &InspectorFilters) -> (out: Vec<usize>)
    ensures
        out@ == passing_indices(stack@.len(), |i: int| span_passes(stack@[i], *filters)),
{
    let ghost keep = |i: int| span_passes(stack@[i], *filters);
    let mut out: Vec<usize> = Vec::new();
    let mut i: usize = 0;
    while i < stack.len()
        invariant
            i <= stack@.len(),
            keep == (|i: int| span_passes(stack@[i], *filters)),
            out@ == passing_indices(i as nat, keep),
        decreases stack@.len() - i,
    {
        if span_matches(&stack[i], filters) {
            out.push(i);
        }
        i = i + 1;
    }
    out
}

/// Keep the first `n` entries of `all`.
fn take_first(all: Vec<usize>, n: usize) -> (out: Vec<usize>)
    ensures
        out@ == first_n(all@, n as nat),
{
    let mut out: Vec<usize> = Vec::new();
    let mut k: usize = 0;
    while k < all.len() && k < n
        invariant
            k <= all@.len(),
            k <= n,
            out@ == all@.take(k as int),
        decreases all@.len() - k,
    {
        out.push(all[k]);
        k = k + 1;
        assert(out@ =~= all@.take(k as int));
    }
    assert(out@ =~= first_n(all@, n as nat));
    out
}

/// The last `n` entries of `all`, newest first.
fn take_newest(all: Vec<usize>, n: usize) -> (out: Vec<usize>)
    ensures
        out@ == newest_n(all@, n as nat),
{
    let m: usize = if all.len() <= n {
        all.len()
    } else {
        n
    };
    let mut out: Vec<usize> = Vec::new();
    let mut k: usize = 0;
    while k < m
        invariant
            m <= all@.len(),
            m == (if all@.len() <= n { all@.len() } else { n as nat }),
            k <= m,
            out@.len() == k,
            forall|j: int| 0 <= j < k ==> out@[j] == all@[all@.len() - 1 - j],
        decreases m - k,
    {
        out.push(all[all.len() - 1 - k]);
        k = k + 1;
    }
    assert(out@ =~= newest_n(all@, n as nat));
    out
}

/// A hotspot (per-function timing aggregate), as the hotspot panel reads it.
#[derive(Debug, Clone)]
pub struct HotspotSnapshot {
    pub target: String,
    pub function: String,
}

/// A hotspot is listed: it passes the module filter on its target and the
/// function filter on its function.
pub open spec fn hotspot_passes(h: HotspotSnapshot, filters: InspectorFilters) -> bool {
    &&& (filters.module_filter@.len() == 0 || occurs_in(h.target@, filters.module_filter@))
    &&& (filters.function_filter@.len() == 0 || occurs_in(h.function@, filters.function_filter@))
}

/// The hotspots listed, by position: the first 50 that pass the filters.
pub fn shown_hotspots(hotspots: &Vec<HotspotSnapshot>, filters: &InspectorFilters) -> (out: Vec<usize>)
    ensures
        out@ == first_n(
            passing_indices(hotspots@.len(), |i: int| hotspot_passes(hotspots@[i], *filters)),
            50,
        ),
{
    let ghost keep = |i: int| hotspot_passes(hotspots@[i], *filters);
    let mut all: Vec<usize> = Vec::new();
    let mut i: usize = 0;
    while i < hotspots.len()
        invariant
            i <= hotspots@.len(),
            keep == (|i: int| hotspot_passes(hotspots@[i], *filters)),
            all@ == passing_indices(i as nat, keep),
        decreases hotspots@.len() - i,
    {
        let h = &hotspots[i];
        let module_ok = filters.module_filter.as_str().is_empty() || str_contains(
            h.target.as_str(),
            filters.module_filter.as_str(),
        );
        let function_ok = filters.function_filter.as_str().is_empty() || str_contains(
            h.function.as_str(),
            filters.function_filter.as_str(),
        );
        if module_ok && function_ok {
            all.push(i);
        }
        i = i + 1;
    }
    take_first(all, 50)
}

/// A stack sample, as the sample panel reads it.
#[derive(Debug, Clone)]
pub struct StackSampleSnapshot {
    pub thread_id: String,
    pub thread_name: Option<String>,
    pub label: String,
}

/// A sample is listed: its thread label passes the thread filter and its label the
/// function filter.
pub open spec fn sample_passes(s: StackSampleSnapshot, filters: InspectorFilters) -> bool {
    &&& thread_passes(
        match s.thread_name {
            Some(n) => n@,
            None => s.thread_id@,
        },
        filters,
    )
    &&& (filters.function_filter@.len() == 0 || occurs_in(s.label@, filters.function_filter@))
}

/// The samples listed, by position: the newest 20 that pass the filters, newest first.
pub fn shown_samples(samples: &Vec<StackSampleSnapshot>, filters: &InspectorFilters) -> (out: Vec<
    usize,
>)
    ensures
        out@ == newest_n(
            passing_indices(samples@.len(), |i: int| sample_passes(samples@[i], *filters)),
            20,
        ),
{
    let ghost keep = |i: int| sample_passes(samples@[i], *filters);
    let mut all: Vec<usize> = Vec::new();
    let mut i: usize = 0;
    while i < samples.len()
        invariant
            i <= samples@.len(),
            keep == (|i: int| sample_passes(samples@[i], *filters)),
            all@ == passing_indices(i as nat, keep),
        decreases samples@.len() - i,
    {
        let s = &samples[i];
        let label: &str = match &s.thread_name {
            Some(n) => n.as_str(),
            None => s.thread_id.as_str(),
        };
        let function_ok = filters.function_filter.as_str().is_empty() || str_contains(
            s.label.as_str(),
            filters.function_filter.as_str(),
        );
        if thread_matches(label, filters) && function_ok {
            all.push(i);
        }
        i = i + 1;
    }
    take_newest(all, 20)
}

/// A recorded trace event, as the event list reads it.
#[derive(Debug, Clone)]
pub struct EventSnapshot {
    pub thread_id: String,
    pub thread_name: Option<String>,
    pub target: String,
    pub name: String,
}

/// An event is listed: it passes the thread filter on its thread label, the module
/// filter on its target and the function filter on its name.
pub open spec fn event_passes(e: EventSnapshot, filters: InspectorFilters) -> bool {
    &&& thread_passes(
        match e.thread_name {
            Some(n) => n@,
            None => e.thread_id@,
        },
        filters,
    )
    &&& (filters.module_filter@.len() == 0 || occurs_in(e.target@, filters.module_filter@))
    &&& (filters.function_filter@.len() == 0 || occurs_in(e.name@, filters.function_filter@))
}

/// The events listed, by position: the newest 500 that pass the filters, newest first.
pub fn shown_events(events: &Vec<EventSnapshot>, filters: &InspectorFilters) -> (out: Vec<usize>)
    ensures
        out@ == newest_n(
            passing_indices(events@.len(), |i: int| event_passes(events@[i], *filters)),
            500,
        ),
{
    let ghost keep = |i: int| event_passes(events@[i], *filters);
    let mut all: Vec<usize> = Vec::new();
    let mut i: usize = 0;
    while i < events.len()
        invariant
            i <= events@.len(),
            keep == (|i: int| event_passes(events@[i], *filters)),
            all@ == passing_indices(i as nat, keep),
        decreases events@.len() - i,
    {
        let e = &events[i];
        let label: &str = match &e.thread_name {
            Some(n) => n.as_str(),
            None => e.thread_id.as_str(),
        };
        let module_ok = filters.module_filter.as_str().is_empty() || str_contains(
            e.target.as_str(),
            filters.module_filter.as_str(),
        );
        let function_ok = filters.function_filter.as_str().is_empty() || str_contains(
            e.name.as_str(),
            filters.function_filter.as_str(),
        );
        if thread_matches(label, filters) && module_ok && function_ok {
            all.push(i);
        }
        i = i + 1;
    }
    take_newest(all, 500)
}


/// Which spans the span filter shows: a span is hidden when the thread filter is set
/// and does not occur in its thread label (its thread's name, else its thread's id),
/// when another thread is selected, when the module filter is set and does not occur
/// in its target, when the function filter is set and does not occur in its name, or
/// when only active spans are wanted and it has ended. Every other span is shown.
pub proof fn span_filter_law(span: SpanSnapshot, filters: InspectorFilters, shown: bool)
    requires
        shown == span_passes(span, filters),
    ensures
        filters.thread_filter@.len() > 0 && !occurs_in(
            (match span.thread_name {
                Some(n) => n@,
                None => span.thread_id@,
            }),
            filters.thread_filter@,
        ) ==> !shown,
        (filters.selected_thread matches Some(sel) && sel@ != span.thread_id@) ==> !shown,
        filters.module_filter@.len() > 0 && !occurs_in(span.target@, filters.module_filter@)
            ==> !shown,
        filters.function_filter@.len() > 0 && !occurs_in(span.name@, filters.function_filter@)
            ==> !shown,
        filters.active_only && span.ended_at_micros is Some ==> !shown,
        (filters.thread_filter@.len() == 0 || occurs_in(
            (match span.thread_name {
                Some(n) => n@,
                None => span.thread_id@,
            }),
            filters.thread_filter@,
        )) && (filters.selected_thread matches Some(sel) ==> sel@ == span.thread_id@) && (
        filters.module_filter@.len() == 0 || occurs_in(span.target@, filters.module_filter@)) && (
        filters.function_filter@.len() == 0 || occurs_in(span.name@, filters.function_filter@)) && (
        filters.active_only ==> span.ended_at_micros is None) ==> shown,
{
}

/// The thread lanes are exactly the threads whose label (name, else id) holds the
/// thread filter (when one is set) and that are the selected thread (when one is
/// selected), in recorded order.
pub proof fn lane_threads_law(threads: Seq<ThreadSnapshot>, filters: InspectorFilters, out: Seq<usize>)
    requires
        threads.len() <= usize::MAX,
        out == passing_indices(threads.len(), |i: int| lane_passes(threads[i], filters)),
    ensures
        forall|k: int| 0 <= k < out.len() ==> #[trigger] out[k] < threads.len(),
        forall|k: int|
            0 <= k < out.len() && filters.thread_filter@.len() > 0 ==> occurs_in(
                (match threads[#[trigger] out[k] as int].name {
                    Some(n) => n@,
                    None => threads[out[k] as int].id@,
                }),
                filters.thread_filter@,
            ),
        forall|k: int|
            0 <= k < out.len() ==> (filters.selected_thread matches Some(sel) ==> threads[
                #[trigger] out[k] as int
            ].id@ == sel@),
        forall|k: int, l: int| 0 <= k < l < out.len() ==> out[k] < out[l],
        forall|j: int|
            0 <= j < threads.len() && (filters.thread_filter@.len() == 0 || occurs_in(
                (match #[trigger] threads[j].name {
                    Some(n) => n@,
                    None => threads[j].id@,
                }),
                filters.thread_filter@,
            )) && (filters.selected_thread matches Some(sel) ==> threads[j].id@ == sel@)
                ==> exists|k: int| 0 <= k < out.len() && out[k] == j,
{
    let keep = |i: int| lane_passes(threads[i], filters);
    lemma_passing_indices(threads.len(), keep);
    assert forall|k: int| 0 <= k < out.len() implies keep(#[trigger] out[k] as int) by {}
    assert forall|j: int|
        0 <= j < threads.len() && (filters.thread_filter@.len() == 0 || occurs_in(
            (match #[trigger] threads[j].name {
                Some(n) => n@,
                None => threads[j].id@,
            }),
            filters.thread_filter@,
        )) && (filters.selected_thread matches Some(sel) ==> threads[j].id@ == sel@) implies exists|
        k: int,
    | 0 <= k < out.len() && out[k] == j by {
        assert(keep(j));
    }
}

/// The spans drawn in a thread's lane are exactly the spans that pass the span
/// filter and ran on that thread, in recorded order.
pub proof fn lane_spans_law(
    spans: Seq<SpanSnapshot>,
    thread_id: Seq<char>,
    filters: InspectorFilters,
    out: Seq<usize>,
)
    requires
        spans.len() <= usize::MAX,
        out == passing_indices(spans.len(), |i: int| lane_span_passes(spans[i], thread_id, filters)),
    ensures
        forall|k: int| 0 <= k < out.len() ==> #[trigger] out[k] < spans.len(),
        forall|k: int|
            0 <= k < out.len() ==> spans[#[trigger] out[k] as int].thread_id@ == thread_id
                && span_passes(spans[out[k] as int], filters),
        forall|k: int, l: int| 0 <= k < l < out.len() ==> out[k] < out[l],
        forall|j: int|
            0 <= j < spans.len() && #[trigger] spans[j].thread_id@ == thread_id && span_passes(
                spans[j],
                filters,
            ) ==> exists|k: int| 0 <= k < out.len() && out[k] == j,
{
    let keep = |i: int| lane_span_passes(spans[i], thread_id, filters);
    lemma_passing_indices(spans.len(), keep);
    assert forall|k: int| 0 <= k < out.len() implies keep(#[trigger] out[k] as int) by {}
    assert forall|j: int|
        0 <= j < spans.len() && #[trigger] spans[j].thread_id@ == thread_id && span_passes(
            spans[j],
            filters,
        ) implies exists|k: int| 0 <= k < out.len() && out[k] == j by {
        assert(keep(j));
    }
}

/// The spans listed for an active stack are exactly the stack's spans that pass the
/// span filter, in stack order.
pub proof fn stack_spans_law(stack: Seq<SpanSnapshot>, filters: InspectorFilters, out: Seq<usize>)
    requires
        stack.len() <= usize::MAX,
        out == passing_indices(stack.len(), |i: int| span_passes(stack[i], filters)),
    ensures
        forall|k: int| 0 <= k < out.len() ==> #[trigger] out[k] < stack.len(),
        forall|k: int| 0 <= k < out.len() ==> span_passes(stack[#[trigger] out[k] as int], filters),
        forall|k: int, l: int| 0 <= k < l < out.len() ==> out[k] < out[l],
        forall|j: int|
            0 <= j < stack.len() && span_passes(#[trigger] stack[j], filters) ==> exists|k: int|
                0 <= k < out.len() && out[k] == j,
{
    let keep = |i: int| span_passes(stack[i], filters);
    lemma_passing_indices(stack.len(), keep);
    assert forall|k: int| 0 <= k < out.len() implies keep(#[trigger] out[k] as int) by {}
    assert forall|j: int| 0 <= j < stack.len() && span_passes(#[trigger] stack[j], filters) implies exists|
        k: int,
    | 0 <= k < out.len() && out[k] == j by {
        assert(keep(j));
    }
}

/// The hotspot list: every listed hotspot passes the module filter on its target
/// and the function filter on its function (each when set); at most 50 are listed,
/// in recorded order; and a passing hotspot is left out only when the list is full
/// and every listed hotspot comes before it.
pub proof fn shown_hotspots_law(
    hotspots: Seq<HotspotSnapshot>,
    filters: InspectorFilters,
    out: Seq<usize>,
)
    requires
        hotspots.len() <= usize::MAX,
        out == first_n(
            passing_indices(hotspots.len(), |i: int| hotspot_passes(hotspots[i], filters)),
            50,
        ),
    ensures
        out.len() <= 50,
        forall|k: int| 0 <= k < out.len() ==> #[trigger] out[k] < hotspots.len(),
        forall|k: int|
            0 <= k < out.len() ==> (filters.module_filter@.len() == 0 || occurs_in(
                hotspots[#[trigger] out[k] as int].target@,
                filters.module_filter@,
            )) && (filters.function_filter@.len() == 0 || occurs_in(
                hotspots[out[k] as int].function@,
                filters.function_filter@,
            )),
        forall|k: int, l: int| 0 <= k < l < out.len() ==> out[k] < out[l],
        forall|h: HotspotSnapshot|
            (filters.module_filter@.len() == 0 || occurs_in(h.target@, filters.module_filter@)) && (
            filters.function_filter@.len() == 0 || occurs_in(h.function@, filters.function_filter@))
                ==> #[trigger] hotspot_passes(h, filters),
        forall|j: int|
            0 <= j < hotspots.len() && hotspot_passes(#[trigger] hotspots[j], filters) ==> (
            out.contains(j as usize) || (out.len() == 50 && forall|k: int|
                0 <= k < out.len() ==> out[k] < j)),
{
    let keep = |i: int| hotspot_passes(hotspots[i], filters);
    let p = passing_indices(hotspots.len(), keep);
    lemma_passing_indices(hotspots.len(), keep);
    assert forall|k: int| 0 <= k < out.len() implies out[k] == p[k] && keep(
        #[trigger] out[k] as int,
    ) by {}
    assert forall|j: int|
        0 <= j < hotspots.len() && hotspot_passes(#[trigger] hotspots[j], filters) implies (
        out.contains(j as usize) || (out.len() == 50 && forall|k: int|
            0 <= k < out.len() ==> out[k] < j)) by {
        assert(keep(j));
        let w = choose|w: int| 0 <= w < p.len() && p[w] == j;
        lemma_first_n(p, 50, w);
        if w < out.len() {
            assert(out[w] == j);
        }
    }
}

/// The first `n` entries of an ascending index list: an entry is left out only when
/// `n` earlier entries fill the list.
proof fn lemma_first_n(p: Seq<usize>, n: nat, m: int)
    requires
        forall|k: int, l: int| 0 <= k < l < p.len() ==> #[trigger] p[k] < #[trigger] p[l],
        0 <= m < p.len(),
    ensures
        first_n(p, n).len() <= n,
        (exists|k: int| 0 <= k < first_n(p, n).len() && first_n(p, n)[k] == p[m]) || (
        first_n(p, n).len() == n && forall|k: int|
            0 <= k < first_n(p, n).len() ==> #[trigger] first_n(p, n)[k] < p[m]),
{
    let out = first_n(p, n);
    if m < out.len() {
        assert(out[m] == p[m]);
    } else {
        assert(out.len() == n);
        assert forall|k: int| 0 <= k < out.len() implies #[trigger] out[k] < p[m] by {
            assert(out[k] == p[k]);
        }
    }
}

/// The newest `n` entries of an ascending index list: listed newest first, and an
/// entry is left out only when `n` newer entries fill the list.
proof fn lemma_newest_n(p: Seq<usize>, n: nat, m: int)
    requires
        forall|k: int, l: int| 0 <= k < l < p.len() ==> #[trigger] p[k] < #[trigger] p[l],
        0 <= m < p.len(),
    ensures
        newest_n(p, n).len() <= n,
        (exists|k: int| 0 <= k < newest_n(p, n).len() && newest_n(p, n)[k] == p[m]) || (
        newest_n(p, n).len() == n && forall|k: int|
            0 <= k < newest_n(p, n).len() ==> p[m] < #[trigger] newest_n(p, n)[k]),
{
    let out = newest_n(p, n);
    if m >= p.len() - out.len() {
        let k = p.len() - 1 - m;
        assert(out[k] == p[m]);
    } else {
        assert forall|k: int| 0 <= k < out.len() implies p[m] < #[trigger] out[k] by {
            assert(out[k] == p[p.len() - 1 - k]);
        }
    }
}

/// The stack-sample list: every listed sample passes the thread filter on its
/// thread label (name, else id) and the function filter on its label (each when
/// set); at most 20 are listed, newest first; and a passing sample is left out
/// only when 20 newer passing samples fill the list.
pub proof fn shown_samples_law(
    samples: Seq<StackSampleSnapshot>,
    filters: InspectorFilters,
    out: Seq<usize>,
)
    requires
        samples.len() <= usize::MAX,
        out == newest_n(
            passing_indices(samples.len(), |i: int| sample_passes(samples[i], filters)),
            20,
        ),
    ensures
        out.len() <= 20,
        forall|k: int| 0 <= k < out.len() ==> #[trigger] out[k] < samples.len(),
        forall|k: int|
            0 <= k < out.len() ==> (filters.thread_filter@.len() == 0 || occurs_in(
                (match samples[#[trigger] out[k] as int].thread_name {
                    Some(n) => n@,
                    None => samples[out[k] as int].thread_id@,
                }),
                filters.thread_filter@,
            )) && (filters.function_filter@.len() == 0 || occurs_in(
                samples[out[k] as int].label@,
                filters.function_filter@,
            )),
        forall|k: int, l: int| 0 <= k < l < out.len() ==> out[k] > out[l],
        forall|j: int|
            0 <= j < samples.len() && (filters.thread_filter@.len() == 0 || occurs_in(
                (match #[trigger] samples[j].thread_name {
                    Some(n) => n@,
                    None => samples[j].thread_id@,
                }),
                filters.thread_filter@,
            )) && (filters.function_filter@.len() == 0 || occurs_in(
                samples[j].label@,
                filters.function_filter@,
            )) ==> (exists|k: int| 0 <= k < out.len() && out[k] == j) || (out.len() == 20
                && forall|k: int| 0 <= k < out.len() ==> j < out[k]),
{
    let keep = |i: int| sample_passes(samples[i], filters);
    let p = passing_indices(samples.len(), keep);
    lemma_passing_indices(samples.len(), keep);
    assert forall|k: int| 0 <= k < out.len() implies out[k] == p[p.len() - 1 - k] && keep(
        #[trigger] out[k] as int,
    ) by {}
    assert forall|k: int, l: int| 0 <= k < l < out.len() implies out[k] > out[l] by {
        assert(out[k] == p[p.len() - 1 - k]);
        assert(out[l] == p[p.len() - 1 - l]);
    }
    assert forall|j: int|
        0 <= j < samples.len() && (filters.thread_filter@.len() == 0 || occurs_in(
            (match #[trigger] samples[j].thread_name {
                Some(n) => n@,
                None => samples[j].thread_id@,
            }),
            filters.thread_filter@,
        )) && (filters.function_filter@.len() == 0 || occurs_in(
            samples[j].label@,
            filters.function_filter@,
        )) implies (exists|k: int| 0 <= k < out.len() && out[k] == j) || (out.len() == 20
        && forall|k: int| 0 <= k < out.len() ==> j < out[k]) by {
        assert(keep(j));
        let m = choose|m: int| 0 <= m < p.len() && p[m] == j;
        lemma_newest_n(p, 20, m);
    }
}

/// The event list: every listed event passes the thread filter on its thread label
/// (name, else id), the module filter on its target and the function filter on its
/// name (each when set); at most 500 are listed, newest first; and a passing event
/// is left out only when 500 newer passing events fill the list.
pub proof fn shown_events_law(events: Seq<EventSnapshot>, filters: InspectorFilters, out: Seq<usize>)
    requires
        events.len() <= usize::MAX,
        out == newest_n(
            passing_indices(events.len(), |i: int| event_passes(events[i], filters)),
            500,
        ),
    ensures
        out.len() <= 500,
        forall|k: int| 0 <= k < out.len() ==> #[trigger] out[k] < events.len(),
        forall|k: int|
            0 <= k < out.len() ==> (filters.thread_filter@.len() == 0 || occurs_in(
                (match events[#[trigger] out[k] as int].thread_name {
                    Some(n) => n@,
                    None => events[out[k] as int].thread_id@,
                }),
                filters.thread_filter@,
            )) && (filters.module_filter@.len() == 0 || occurs_in(
                events[out[k] as int].target@,
                filters.module_filter@,
            )) && (filters.function_filter@.len() == 0 || occurs_in(
                events[out[k] as int].name@,
                filters.function_filter@,
            )),
        forall|k: int, l: int| 0 <= k < l < out.len() ==> out[k] > out[l],
        forall|j: int|
            0 <= j < events.len() && (filters.thread_filter@.len() == 0 || occurs_in(
                (match #[trigger] events[j].thread_name {
                    Some(n) => n@,
                    None => events[j].thread_id@,
                }),
                filters.thread_filter@,
            )) && (filters.module_filter@.len() == 0 || occurs_in(
                events[j].target@,
                filters.module_filter@,
            )) && (filters.function_filter@.len() == 0 || occurs_in(
                events[j].name@,
                filters.function_filter@,
            )) ==> (exists|k: int| 0 <= k < out.len() && out[k] == j) || (out.len() == 500
                && forall|k: int| 0 <= k < out.len() ==> j < out[k]),
{
    let keep = |i: int| event_passes(events[i], filters);
    let p = passing_indices(events.len(), keep);
    lemma_passing_indices(events.len(), keep);
    assert forall|k: int| 0 <= k < out.len() implies out[k] == p[p.len() - 1 - k] && keep(
        #[trigger] out[k] as int,
    ) by {}
    assert forall|k: int, l: int| 0 <= k < l < out.len() implies out[k] > out[l] by {
        assert(out[k] == p[p.len() - 1 - k]);
        assert(out[l] == p[p.len() - 1 - l]);
    }
    assert forall|j: int|
        0 <= j < events.len() && (filters.thread_filter@.len() == 0 || occurs_in(
            (match #[trigger] events[j].thread_name {
                Some(n) => n@,
                None => events[j].thread_id@,
            }),
            filters.thread_filter@,
        )) && (filters.module_filter@.len() == 0 || occurs_in(
            events[j].target@,
            filters.module_filter@,
        )) && (filters.function_filter@.len() == 0 || occurs_in(
            events[j].name@,
            filters.function_filter@,
        )) implies (exists|k: int| 0 <= k < out.len() && out[k] == j) || (out.len() == 500
        && forall|k: int| 0 <= k < out.len() ==> j < out[k]) by {
        assert(keep(j));
        let m = choose|m: int| 0 <= m < p.len() && p[m] == j;
        lemma_newest_n(p, 500, m);
    }
}

/// The thread filter: with no filter every thread is shown; with one, a thread is
/// shown exactly when the filter occurs in its label.
pub proof fn thread_filter_law(label: Seq<char>, filters: InspectorFilters, shown: bool)
    requires
        shown == thread_passes(label, filters),
    ensures
        filters.thread_filter@.len() == 0 ==> shown,
        filters.thread_filter@.len() > 0 ==> (shown <==> occurs_in(label, filters.thread_filter@)),
{
}

/// The target colour: the hash starts at 0 and folds in each byte as
/// `h * 31 + byte` modulo 2^32; its low three 7-bit fields, over bases 60, 70 and
/// 80, give the red, green and blue channels.
pub proof fn target_color_law(bytes: Seq<u8>, b: u8, h: u32)
    ensures
        target_hash(Seq::<u8>::empty()) == 0,
        target_hash(bytes.push(b)) == (target_hash(bytes) * 31 + b) % 0x1_0000_0000,
        hash_color(h).0 == 60 + h % 128,
        hash_color(h).1 == 70 + (h / 128) % 128,
        hash_color(h).2 == 80 + (h / 16384) % 128,
{
    assert(bytes.push(b).drop_last() =~= bytes);
}

} // verus!
