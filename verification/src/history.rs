//! Pure history aggregation over timestamped check-result state markers.
//!
//! Instants are nanoseconds since the Unix epoch; a `gap` marker starts
//! unknown time that lasts until the next real result.

use vstd::prelude::*;

use crate::store::copy_opt;
use crate::time::{instant_ok, millis_text, parsed_instant, trunc_div, NANOS_PER_DAY, NANOS_PER_HOUR, NANOS_PER_MILLI, NANOS_PER_SEC};

pub use crate::time::{format_timestamp, parse_timestamp};

pub mod laws;

verus! {

#[derive(Debug, Clone, Copy, PartialEq, Eq, Structural)]
pub enum HistoryRange {
    Day,
    Week,
    Month,
}

impl HistoryRange {
    /// Length of the range in nanoseconds.
    pub open spec fn nanos(self) -> int {
        match self {
            HistoryRange::Day => 24 * 3_600_000_000_000int,
            HistoryRange::Week => 7 * 86_400_000_000_000int,
            HistoryRange::Month => 30 * 86_400_000_000_000int,
        }
    }

    /// Length of the range, in nanoseconds.
    pub fn duration(self) -> (r: i128)
        ensures
            r == self.nanos(),
    {
        match self {
            HistoryRange::Day => 24 * 3_600_000_000_000,
            HistoryRange::Week => 7 * 86_400_000_000_000,
            HistoryRange::Month => 30 * 86_400_000_000_000,
        }
    }

    pub open spec fn buckets(self) -> nat {
        match self {
            HistoryRange::Day => 0,
            _ => 500,
        }
    }

    /// Number of chart buckets; zero means one point per segment.
    pub fn bucket_count(self) -> (r: usize)
        ensures
            r == self.buckets(),
    {
        match self {
            HistoryRange::Day => 0,
            HistoryRange::Week | HistoryRange::Month => 500,
        }
    }
}

#[derive(Debug, Clone, Copy, PartialEq, Eq, PartialOrd, Ord, Structural)]
pub enum HistoryStatus {
    Up,
    Down,
    Gap,
}

impl HistoryStatus {
    pub fn from_db(value: &str) -> (r: Option<Self>)
        ensures
            r == (if value@ == "up"@ {
                Some(HistoryStatus::Up)
            } else if value@ == "down"@ {
                Some(HistoryStatus::Down)
            } else if value@ == "gap"@ {
                Some(HistoryStatus::Gap)
            } else {
                None
            }),
    {
        if crate::text::str_eq(value, "up") {
            Some(HistoryStatus::Up)
        } else if crate::text::str_eq(value, "down") {
            Some(HistoryStatus::Down)
        } else if crate::text::str_eq(value, "gap") {
            Some(HistoryStatus::Gap)
        } else {
            None
        }
    }
}

#[derive(Debug, Clone, Copy, PartialEq, Eq, Structural)]
pub enum PointStatus {
    Up,
    Down,
    Gap,
    Mixed,
}

pub open spec fn point_of(value: HistoryStatus) -> PointStatus {
    match value {
        HistoryStatus::Up => PointStatus::Up,
        HistoryStatus::Down => PointStatus::Down,
        HistoryStatus::Gap => PointStatus::Gap,
    }
}

impl From<HistoryStatus> for PointStatus {
    fn from(value: HistoryStatus) -> (r: Self) {
        match value {
            HistoryStatus::Up => PointStatus::Up,
            HistoryStatus::Down => PointStatus::Down,
            HistoryStatus::Gap => PointStatus::Gap,
        }
    }
}

impl vstd::std_specs::convert::FromSpecImpl<HistoryStatus> for PointStatus {
    open spec fn obeys_from_spec() -> bool {
        true
    }

    open spec fn from_spec(v: HistoryStatus) -> PointStatus {
        point_of(v)
    }
}

#[derive(Debug, Clone, Copy, PartialEq, Eq, Structural)]
pub enum MonitorStatus {
    NotYetChecked,
    Up,
    Down,
}

impl MonitorStatus {
    pub fn from_db(value: &str) -> (r: Option<Self>)
        ensures
            r == (if value@ == "not_yet_checked"@ {
                Some(MonitorStatus::NotYetChecked)
            } else if value@ == "up"@ {
                Some(MonitorStatus::Up)
            } else if value@ == "down"@ {
                Some(MonitorStatus::Down)
            } else {
                None
            }),
    {
        if crate::text::str_eq(value, "not_yet_checked") {
            Some(MonitorStatus::NotYetChecked)
        } else if crate::text::str_eq(value, "up") {
            Some(MonitorStatus::Up)
        } else if crate::text::str_eq(value, "down") {
            Some(MonitorStatus::Down)
        } else {
            None
        }
    }
}

/// One stored state marker.
#[derive(Debug, Clone)]
pub struct HistoryEvent {
    pub checked_at: i128,
    pub status: HistoryStatus,
    pub response_time_ms: Option<i64>,
    pub failure_reason: Option<String>,
}

/// A stretch of time spent in one state.
#[derive(Debug, Clone, Copy)]
pub struct Segment {
    pub started_at: i128,
    pub ended_at: i128,
    pub status: HistoryStatus,
    pub response_time_ms: Option<i64>,
}

/// The state in force at `start`: that of the last event (in sequence
/// order) checked at or before `start`, or unknown time when there is none.
pub open spec fn prior_state(events: Seq<HistoryEvent>, start: int) -> (HistoryStatus, Option<i64>)
    decreases events.len(),
{
    if events.len() == 0 {
        (HistoryStatus::Gap, None)
    } else if events.last().checked_at <= start {
        (events.last().status, events.last().response_time_ms)
    } else {
        prior_state(events.drop_last(), start)
    }
}

/// The segment builder's running state: cursor, current status, current
/// response time, and the segments closed so far.
pub type SegState = (i128, HistoryStatus, Option<i64>, Seq<Segment>);

/// Feeding one event to the segment builder: an event strictly inside the
/// window closes the current segment (if it has positive length) and starts
/// the next one at the event's time with the event's state.
pub open spec fn seg_step(acc: SegState, e: HistoryEvent, start: i128, end: i128) -> SegState {
    if start < e.checked_at && e.checked_at < end {
        let segs = if e.checked_at > acc.0 {
            acc.3.push(
                Segment {
                    started_at: acc.0,
                    ended_at: e.checked_at,
                    status: acc.1,
                    response_time_ms: acc.2,
                },
            )
        } else {
            acc.3
        };
        (e.checked_at, e.status, e.response_time_ms, segs)
    } else {
        acc
    }
}

pub open spec fn seg_fold(events: Seq<HistoryEvent>, start: i128, end: i128, init: SegState) -> SegState
    decreases events.len(),
{
    if events.len() == 0 {
        init
    } else {
        seg_step(seg_fold(events.drop_last(), start, end, init), events.last(), start, end)
    }
}

pub open spec fn seg_init(events: Seq<HistoryEvent>, start: i128) -> SegState {
    let p = prior_state(events, start as int);
    (start, p.0, p.1, Seq::empty())
}

/// The segments covering `[start, end)`: the state in force at `start`,
/// then a new segment at each event strictly inside the window.
pub open spec fn segments_spec(events: Seq<HistoryEvent>, start: i128, end: i128) -> Seq<Segment> {
    if start >= end {
        Seq::empty()
    } else {
        let acc = seg_fold(events, start, end, seg_init(events, start));
        if acc.0 < end {
            acc.3.push(
                Segment { started_at: acc.0, ended_at: end, status: acc.1, response_time_ms: acc.2 },
            )
        } else {
            acc.3
        }
    }
}

proof fn lemma_prior_state_take(events: Seq<HistoryEvent>, i: int, start: int)
    requires
        0 <= i < events.len(),
    ensures
        prior_state(events.take(i + 1), start) == (if events[i].checked_at <= start {
            (events[i].status, events[i].response_time_ms)
        } else {
            prior_state(events.take(i), start)
        }),
{
    assert(events.take(i + 1).drop_last() =~= events.take(i));
}

/// Builds the segments covering `[start, end)`.
pub fn build_segments(events: &[HistoryEvent], start: i128, end: i128) -> (r: Vec<Segment>)
    ensures
        r@ == segments_spec(events@, start, end),
{
    if start >= end {
        return Vec::new();
    }
    let n = events.len();
    // The last event at or before the start, searching from the end.
    let mut current_status = HistoryStatus::Gap;
    let mut current_response: Option<i64> = None;
    let mut k: usize = n;
    let mut found = false;
    assert(events@.take(n as int) =~= events@);
    while k > 0 && !found
        invariant
            k <= n,
            n == events@.len(),
            !found ==> current_status == HistoryStatus::Gap && current_response is None,
            prior_state(events@, start as int) == (if found {
                (current_status, current_response)
            } else {
                prior_state(events@.take(k as int), start as int)
            }),
        decreases k + (if found {
            0int
        } else {
            1int
        }),
    {
        proof {
            lemma_prior_state_take(events@, k - 1, start as int);
        }
        if events[k - 1].checked_at <= start {
            current_status = events[k - 1].status;
            current_response = events[k - 1].response_time_ms;
            found = true;
        } else {
            k -= 1;
        }
    }
    proof {
        if !found {
            assert(k == 0);
            assert(events@.take(0) =~= Seq::<HistoryEvent>::empty());
            assert(prior_state(events@.take(0), start as int) == (HistoryStatus::Gap, None::<i64>));
            assert(prior_state(events@, start as int) == (HistoryStatus::Gap, None::<i64>));
            assert(current_status == HistoryStatus::Gap);
        } else {
            assert(prior_state(events@, start as int) == (current_status, current_response));
        }
    }
    assert((current_status, current_response) == prior_state(events@, start as int));
    let ghost init = seg_init(events@, start);
    let mut cursor = start;
    let mut segments: Vec<Segment> = Vec::new();
    let mut i: usize = 0;
    while i < n
        invariant
            i <= n,
            n == events@.len(),
            start < end,
            init == seg_init(events@, start),
            (cursor, current_status, current_response, segments@) == seg_fold(
                events@.take(i as int),
                start,
                end,
                init,
            ),
        decreases n - i,
    {
        proof {
            assert(events@.take(i + 1).drop_last() =~= events@.take(i as int));
        }
        let t = events[i].checked_at;
        if start < t && t < end {
            if t > cursor {
                segments.push(
                    Segment {
                        started_at: cursor,
                        ended_at: t,
                        status: current_status,
                        response_time_ms: current_response,
                    },
                );
            }
            cursor = t;
            current_status = events[i].status;
            current_response = events[i].response_time_ms;
        }
        i += 1;
    }
    assert(events@.take(n as int) =~= events@);
    if cursor < end {
        segments.push(
            Segment {
                started_at: cursor,
                ended_at: end,
                status: current_status,
                response_time_ms: current_response,
            },
        );
    }
    segments
}

/// `segs` tile `[lo, hi)`: consecutive, each of positive length, from `lo`
/// to `hi`.
pub open spec fn tiles(segs: Seq<Segment>, lo: int, hi: int) -> bool {
    &&& forall|i: int| 0 <= i < segs.len() ==> #[trigger] segs[i].started_at < segs[i].ended_at
    &&& forall|i: int| 0 <= i < segs.len() - 1 ==> #[trigger] segs[i].ended_at == segs[i + 1].started_at
    &&& segs.len() == 0 ==> lo == hi
    &&& segs.len() > 0 ==> segs[0].started_at == lo && segs.last().ended_at == hi
}

/// Events are in nondecreasing check-time order.
pub open spec fn sorted_by_time(events: Seq<HistoryEvent>) -> bool {
    forall|i: int, j: int| 0 <= i <= j < events.len() ==> events[i].checked_at <= events[j].checked_at
}

proof fn lemma_seg_fold_tiles(events: Seq<HistoryEvent>, start: i128, end: i128, init: SegState)
    requires
        start < end,
        init.0 == start,
        init.3.len() == 0,
        sorted_by_time(events),
    ensures
        start <= seg_fold(events, start, end, init).0 < end,
        seg_fold(events, start, end, init).0 == start || (events.len() > 0 && seg_fold(
            events,
            start,
            end,
            init,
        ).0 <= events.last().checked_at),
        tiles(
            seg_fold(events, start, end, init).3,
            start as int,
            seg_fold(events, start, end, init).0 as int,
        ),
    decreases events.len(),
{
    if events.len() > 0 {
        let rest = events.drop_last();
        assert(sorted_by_time(rest));
        lemma_seg_fold_tiles(rest, start, end, init);
        let prev = seg_fold(rest, start, end, init);
        let e = events.last();
        if rest.len() > 0 {
            assert(rest.last() == events[events.len() - 2]);
        }
        let next = seg_fold(events, start, end, init);
        if start < e.checked_at && e.checked_at < end && e.checked_at > prev.0 {
            assert(next.3.len() == prev.3.len() + 1);
            assert forall|i: int| 0 <= i < next.3.len() implies #[trigger] next.3[i].started_at
                < next.3[i].ended_at by {
                if i < prev.3.len() {
                    assert(next.3[i] == prev.3[i]);
                }
            }
            assert forall|i: int| 0 <= i < next.3.len() - 1 implies #[trigger] next.3[i].ended_at
                == next.3[i + 1].started_at by {
                assert(next.3[i] == prev.3[i]);
                if i < prev.3.len() - 1 {
                    assert(next.3[i + 1] == prev.3[i + 1]);
                }
            }
        }
    }
}

/// For events in check-time order, the segments tile the window: for
/// `start < end` they are consecutive,
/// each of positive length, and run from `start` to `end`; for an empty
/// window there are none.
pub proof fn law_segments_tile_window(events: Seq<HistoryEvent>, start: i128, end: i128)
    requires
        sorted_by_time(events),
    ensures
        start < end ==> tiles(segments_spec(events, start, end), start as int, end as int),
        start >= end ==> segments_spec(events, start, end).len() == 0,
{
    if start < end {
        let init = seg_init(events, start);
        lemma_seg_fold_tiles(events, start, end, init);
        let acc = seg_fold(events, start, end, init);
        let segs = segments_spec(events, start, end);
        assert forall|i: int| 0 <= i < segs.len() - 1 implies #[trigger] segs[i].ended_at
            == segs[i + 1].started_at by {
            if i < acc.3.len() - 1 {
                assert(segs[i] == acc.3[i]);
                assert(segs[i + 1] == acc.3[i + 1]);
            }
        }
    }
}

/// Whole milliseconds in a segment (`num_milliseconds`, toward zero).
pub open spec fn seg_ms(s: Segment) -> int {
    trunc_div(s.ended_at - s.started_at, NANOS_PER_MILLI as int)
}

/// Milliseconds spent up.
pub open spec fn up_ms(segs: Seq<Segment>) -> int
    decreases segs.len(),
{
    if segs.len() == 0 {
        0
    } else {
        up_ms(segs.drop_last()) + if segs.last().status == HistoryStatus::Up {
            seg_ms(segs.last())
        } else {
            0
        }
    }
}

/// Milliseconds of observed (up or down, not gap) time.
pub open spec fn observed_ms(segs: Seq<Segment>) -> int
    decreases segs.len(),
{
    if segs.len() == 0 {
        0
    } else {
        observed_ms(segs.drop_last()) + if segs.last().status != HistoryStatus::Gap {
            seg_ms(segs.last())
        } else {
            0
        }
    }
}

/// Milliseconds covered by all segments.
pub open spec fn total_ms(segs: Seq<Segment>) -> int
    decreases segs.len(),
{
    if segs.len() == 0 {
        0
    } else {
        total_ms(segs.drop_last()) + seg_ms(segs.last())
    }
}

/// Every segment ends no earlier than it starts and lies within the
/// 2^96-nanosecond bound.
pub open spec fn segments_well_formed(segs: Seq<Segment>) -> bool {
    forall|i: int|
        0 <= i < segs.len() ==> #[trigger] segs[i].started_at <= segs[i].ended_at
            && crate::time::time_bounded(segs[i].started_at as int)
            && crate::time::time_bounded(segs[i].ended_at as int)
}

proof fn lemma_sums_bounded(segs: Seq<Segment>)
    requires
        segments_well_formed(segs),
    ensures
        0 <= up_ms(segs) <= observed_ms(segs) <= total_ms(segs),
    decreases segs.len(),
{
    if segs.len() > 0 {
        let rest = segs.drop_last();
        assert forall|i: int| 0 <= i < rest.len() implies #[trigger] rest[i].started_at
            <= rest[i].ended_at && crate::time::time_bounded(rest[i].started_at as int)
            && crate::time::time_bounded(rest[i].ended_at as int) by {
            assert(rest[i] == segs[i]);
        }
        lemma_sums_bounded(rest);
        assert(segs.last() == segs[segs.len() - 1]);
        assert(seg_ms(segs.last()) >= 0);
    }
}

proof fn lemma_total_prefix(segs: Seq<Segment>, i: int)
    requires
        segments_well_formed(segs),
        0 <= i <= segs.len(),
    ensures
        total_ms(segs.take(i)) <= total_ms(segs),
    decreases segs.len() - i,
{
    if i < segs.len() {
        lemma_total_prefix(segs, i + 1);
        assert(segs.take(i + 1).drop_last() =~= segs.take(i));
        assert(segs.take(i + 1).last() == segs[i]);
        assert(seg_ms(segs[i]) >= 0);
    } else {
        assert(segs.take(i) =~= segs);
    }
}

/// Share of observed time spent up, as two exact millisecond counts.
#[derive(Debug, Clone, Copy, PartialEq, Eq, Structural)]
pub struct UptimeRatio {
    pub up_ms: i64,
    pub observed_ms: i64,
}

impl UptimeRatio {
    /// Uptime in tenths of a percent, rounded half up:
    /// `round(up * 1000 / observed)`.
    pub open spec fn tenths_spec(self) -> int {
        (2000 * self.up_ms + self.observed_ms) / (2 * self.observed_ms)
    }

    /// The percentage rounded to one decimal, in tenths (66.7 % is 667).
    pub fn tenths_of_percent(self) -> (r: i64)
        requires
            0 <= self.up_ms <= self.observed_ms,
            self.observed_ms > 0,
        ensures
            r == self.tenths_spec(),
    {
        let up = self.up_ms as i128;
        let obs = self.observed_ms as i128;
        let num = 2000 * up + obs;
        let den = 2 * obs;
        let q = num / den;
        proof {
            assert(0 <= q <= 1000) by (nonlinear_arith)
                requires
                    0 <= up <= obs,
                    obs > 0,
                    num == 2000 * up + obs,
                    den == 2 * obs,
                    q == num / den,
            ;
        }
        q as i64
    }
}

/// Uptime is duration-weighted over up and down time; gap segments count
/// for neither. `None` when no time was observed.
pub open spec fn uptime_spec(segs: Seq<Segment>) -> Option<UptimeRatio> {
    if observed_ms(segs) > 0 {
        Some(UptimeRatio { up_ms: up_ms(segs) as i64, observed_ms: observed_ms(segs) as i64 })
    } else {
        None
    }
}

pub fn uptime_percent(segments: &[Segment]) -> (r: Option<UptimeRatio>)
    requires
        segments_well_formed(segments@),
        total_ms(segments@) <= i64::MAX,
    ensures
        r == uptime_spec(segments@),
        r matches Some(u) ==> 0 <= u.up_ms <= u.observed_ms && u.observed_ms > 0,
{
    let n = segments.len();
    let mut up: i64 = 0;
    let mut observed: i64 = 0;
    let mut i: usize = 0;
    proof {
        lemma_sums_bounded(segments@);
    }
    while i < n
        invariant
            i <= n,
            n == segments@.len(),
            segments_well_formed(segments@),
            total_ms(segments@) <= i64::MAX,
            up == up_ms(segments@.take(i as int)),
            observed == observed_ms(segments@.take(i as int)),
        decreases n - i,
    {
        let ghost pre = segments@.take(i as int);
        let ghost post = segments@.take(i + 1);
        proof {
            assert(post.drop_last() =~= pre);
            assert(post.last() == segments@[i as int]);
            assert forall|j: int| 0 <= j < post.len() implies #[trigger] post[j].started_at
                <= post[j].ended_at && crate::time::time_bounded(post[j].started_at as int)
                && crate::time::time_bounded(post[j].ended_at as int) by {
                assert(post[j] == segments@[j]);
            }
            lemma_sums_bounded(post);
            lemma_sums_bounded(pre);
            lemma_total_prefix(segments@, i + 1);
            assert(total_ms(post) == total_ms(pre) + seg_ms(post.last()));
            assert(up_ms(post) == up_ms(pre) + if post.last().status == HistoryStatus::Up {
                seg_ms(post.last())
            } else {
                0
            });
            assert(observed_ms(post) == observed_ms(pre) + if post.last().status
                != HistoryStatus::Gap {
                seg_ms(post.last())
            } else {
                0
            });
        }
        let seg = segments[i];
        let duration = (seg.ended_at - seg.started_at) / NANOS_PER_MILLI;
        assert(duration == seg_ms(seg));
        if seg.status == HistoryStatus::Up {
            up = up + duration as i64;
            observed = observed + duration as i64;
        } else if seg.status == HistoryStatus::Down {
            observed = observed + duration as i64;
        }
        i += 1;
    }
    assert(segments@.take(n as int) =~= segments@);
    if observed > 0 {
        Some(UptimeRatio { up_ms: up, observed_ms: observed })
    } else {
        None
    }
}

proof fn lemma_floor_superadditive(a: int, b: int, m: int)
    by (nonlinear_arith)
    requires
        a >= 0,
        b >= 0,
        m > 0,
    ensures
        a / m + b / m <= (a + b) / m,
{
}

/// Segments that tile `[lo, hi)` lie inside it, and together hold no more
/// whole milliseconds than the window does.
pub proof fn lemma_tiles_total(segs: Seq<Segment>, lo: int, hi: int)
    requires
        tiles(segs, lo, hi),
    ensures
        lo <= hi,
        total_ms(segs) <= (hi - lo) / (NANOS_PER_MILLI as int),
        total_ms(segs) >= 0,
        forall|i: int| 0 <= i < segs.len() ==> lo <= #[trigger] segs[i].started_at && segs[i].ended_at <= hi,
    decreases segs.len(),
{
    if segs.len() > 0 {
        let rest = segs.drop_last();
        let m = segs.last().started_at as int;
        assert forall|i: int| 0 <= i < rest.len() implies #[trigger] rest[i].started_at
            < rest[i].ended_at by {
            assert(rest[i] == segs[i]);
        }
        assert forall|i: int| 0 <= i < rest.len() - 1 implies #[trigger] rest[i].ended_at
            == rest[i + 1].started_at by {
            assert(rest[i] == segs[i]);
            assert(rest[i + 1] == segs[i + 1]);
        }
        if rest.len() > 0 {
            assert(rest[0] == segs[0]);
            assert(rest.last() == segs[segs.len() - 2]);
            assert(segs[segs.len() - 2].ended_at == segs[segs.len() - 1].started_at);
        }
        assert(tiles(rest, lo, m));
        lemma_tiles_total(rest, lo, m);
        assert(segs.last() == segs[segs.len() - 1]);
        lemma_floor_superadditive(m - lo, hi - m, NANOS_PER_MILLI as int);
        assert forall|i: int| 0 <= i < segs.len() implies lo <= #[trigger] segs[i].started_at
            && segs[i].ended_at <= hi by {
            if i < rest.len() {
                assert(rest[i] == segs[i]);
            }
        }
    }
}

/// Response-time total and sample count of a stretch of checks; the
/// average is `total_ms / count`.
#[derive(Debug, Clone, Copy, PartialEq, Eq, Structural)]
pub struct ResponseStats {
    pub total_ms: i128,
    pub count: u64,
}

/// One chart point.
#[derive(Debug, Clone)]
pub struct HistoryPoint {
    pub started_at: String,
    pub ended_at: String,
    pub status: PointStatus,
    pub avg_response_time_ms: Option<ResponseStats>,
}

/// A point describes the interval `[lo, hi)` with the given status and
/// response statistics.
pub open spec fn point_is(
    p: HistoryPoint,
    lo: int,
    hi: int,
    status: PointStatus,
    avg: Option<ResponseStats>,
) -> bool {
    p.started_at@ == millis_text(lo) && p.ended_at@ == millis_text(hi) && p.status == status
        && p.avg_response_time_ms == avg
}

/// Every segment boundary is a formattable instant.
pub open spec fn segments_in_range(segs: Seq<Segment>) -> bool {
    forall|i: int|
        0 <= i < segs.len() ==> instant_ok(#[trigger] segs[i].started_at as int) && instant_ok(
            segs[i].ended_at as int,
        )
}

/// One point per segment, carrying the segment's own status and response
/// time (the last check's).
pub fn raw_points(segments: &[Segment]) -> (r: Vec<HistoryPoint>)
    requires
        segments_in_range(segments@),
    ensures
        r@.len() == segments@.len(),
        forall|i: int|
            0 <= i < r@.len() ==> point_is(
                #[trigger] r@[i],
                segments@[i].started_at as int,
                segments@[i].ended_at as int,
                point_of(segments@[i].status),
                match segments@[i].response_time_ms {
                    Some(v) => Some(ResponseStats { total_ms: v as i128, count: 1 }),
                    None => None,
                },
            ),
{
    let n = segments.len();
    let mut points: Vec<HistoryPoint> = Vec::new();
    let mut i: usize = 0;
    while i < n
        invariant
            i <= n,
            n == segments@.len(),
            segments_in_range(segments@),
            points@.len() == i,
            forall|j: int|
                0 <= j < i ==> point_is(
                    #[trigger] points@[j],
                    segments@[j].started_at as int,
                    segments@[j].ended_at as int,
                    point_of(segments@[j].status),
                    match segments@[j].response_time_ms {
                        Some(v) => Some(ResponseStats { total_ms: v as i128, count: 1 }),
                        None => None,
                    },
                ),
        decreases n - i,
    {
        let seg = segments[i];
        let avg = match seg.response_time_ms {
            Some(v) => Some(ResponseStats { total_ms: v as i128, count: 1 }),
            None => None,
        };
        points.push(
            HistoryPoint {
                started_at: format_timestamp(seg.started_at),
                ended_at: format_timestamp(seg.ended_at),
                status: PointStatus::from(seg.status),
                avg_response_time_ms: avg,
            },
        );
        i += 1;
    }
    points
}

/// A segment overlaps the interval `(lo, hi)`.
pub open spec fn overlaps(s: Segment, lo: int, hi: int) -> bool {
    s.started_at < hi && s.ended_at > lo
}

/// Some segment with index in `[a, b)` overlaps `(lo, hi)` with status `st`.
#[verifier::opaque]
pub open spec fn has_status_in(segs: Seq<Segment>, lo: int, hi: int, st: HistoryStatus, a: int, b: int) -> bool {
    exists|i: int| a <= i < b && overlaps(#[trigger] segs[i], lo, hi) && segs[i].status == st
}

/// Some segment overlaps `(lo, hi)` with status `st`.
pub open spec fn has_status(segs: Seq<Segment>, lo: int, hi: int, st: HistoryStatus) -> bool {
    has_status_in(segs, lo, hi, st, 0, segs.len() as int)
}

/// A bucket containing unknown time is a gap; one seeing both up and down
/// time is mixed; otherwise it takes the one status it saw (a gap when it
/// saw none).
pub open spec fn bucket_status(segs: Seq<Segment>, lo: int, hi: int) -> PointStatus {
    if has_status(segs, lo, hi, HistoryStatus::Gap) {
        PointStatus::Gap
    } else if has_status(segs, lo, hi, HistoryStatus::Up) && has_status(
        segs,
        lo,
        hi,
        HistoryStatus::Down,
    ) {
        PointStatus::Mixed
    } else if has_status(segs, lo, hi, HistoryStatus::Up) {
        PointStatus::Up
    } else if has_status(segs, lo, hi, HistoryStatus::Down) {
        PointStatus::Down
    } else {
        PointStatus::Gap
    }
}

/// The response time an event contributes to a window `[lo, hi)`.
pub open spec fn contributes(e: HistoryEvent, lo: int, hi: int) -> bool {
    lo <= e.checked_at < hi && e.response_time_ms is Some
}

/// Sum of the response times of the events checked within `[lo, hi)`.
pub open spec fn window_total(events: Seq<HistoryEvent>, lo: int, hi: int) -> int
    decreases events.len(),
{
    if events.len() == 0 {
        0
    } else {
        window_total(events.drop_last(), lo, hi) + if contributes(events.last(), lo, hi) {
            events.last().response_time_ms.unwrap() as int
        } else {
            0
        }
    }
}

/// Number of events checked within `[lo, hi)` that carry a response time.
pub open spec fn window_count(events: Seq<HistoryEvent>, lo: int, hi: int) -> int
    decreases events.len(),
{
    if events.len() == 0 {
        0
    } else {
        window_count(events.drop_last(), lo, hi) + if contributes(events.last(), lo, hi) {
            1int
        } else {
            0
        }
    }
}

/// The response statistics of the events checked within `[lo, hi)`.
pub open spec fn window_stats(events: Seq<HistoryEvent>, lo: int, hi: int) -> Option<ResponseStats> {
    if window_count(events, lo, hi) > 0 {
        Some(
            ResponseStats {
                total_ms: window_total(events, lo, hi) as i128,
                count: window_count(events, lo, hi) as u64,
            },
        )
    } else {
        None
    }
}

proof fn lemma_window_step(events: Seq<HistoryEvent>, j: int, lo: int, hi: int)
    requires
        0 <= j < events.len(),
    ensures
        window_total(events.take(j + 1), lo, hi) == window_total(events.take(j), lo, hi) + if contributes(
            events[j],
            lo,
            hi,
        ) {
            events[j].response_time_ms.unwrap() as int
        } else {
            0
        },
        window_count(events.take(j + 1), lo, hi) == window_count(events.take(j), lo, hi) + if contributes(
            events[j],
            lo,
            hi,
        ) {
            1int
        } else {
            0
        },
{
    assert(events.take(j + 1).drop_last() =~= events.take(j));
    assert(events.take(j + 1).last() == events[j]);
}

proof fn lemma_window_outside_prefix(events: Seq<HistoryEvent>, j: int, lo: int, hi: int)
    requires
        0 <= j <= events.len(),
        forall|i: int| 0 <= i < j ==> !contributes(#[trigger] events[i], lo, hi),
    ensures
        window_total(events.take(j), lo, hi) == 0,
        window_count(events.take(j), lo, hi) == 0,
    decreases j,
{
    if j > 0 {
        lemma_window_outside_prefix(events, j - 1, lo, hi);
        lemma_window_step(events, j - 1, lo, hi);
    } else {
        assert(events.take(0) =~= Seq::<HistoryEvent>::empty());
    }
}

proof fn lemma_window_outside_suffix(events: Seq<HistoryEvent>, j: int, m: int, lo: int, hi: int)
    requires
        0 <= j <= m <= events.len(),
        forall|i: int| j <= i < m ==> !contributes(#[trigger] events[i], lo, hi),
    ensures
        window_total(events.take(m), lo, hi) == window_total(events.take(j), lo, hi),
        window_count(events.take(m), lo, hi) == window_count(events.take(j), lo, hi),
    decreases m - j,
{
    if m > j {
        lemma_window_outside_suffix(events, j, m - 1, lo, hi);
        lemma_window_step(events, m - 1, lo, hi);
    }
}

/// The first index whose event is checked at or after `t` (events in
/// check-time order), found by binary search.
pub fn first_at_or_after(events: &[HistoryEvent], t: i128) -> (r: usize)
    requires
        sorted_by_time(events@),
    ensures
        r <= events@.len(),
        forall|i: int| 0 <= i < r ==> #[trigger] events@[i].checked_at < t,
        forall|i: int| r <= i < events@.len() ==> #[trigger] events@[i].checked_at >= t,
{
    let mut lo: usize = 0;
    let mut hi: usize = events.len();
    while lo < hi
        invariant
            lo <= hi <= events@.len(),
            sorted_by_time(events@),
            forall|i: int| 0 <= i < lo ==> #[trigger] events@[i].checked_at < t,
            forall|i: int| hi <= i < events@.len() ==> #[trigger] events@[i].checked_at >= t,
        decreases hi - lo,
    {
        let mid = lo + (hi - lo) / 2;
        if events[mid].checked_at < t {
            assert forall|i: int| 0 <= i < mid + 1 implies #[trigger] events@[i].checked_at < t by {
                assert(events@[i].checked_at <= events@[mid as int].checked_at);
            }
            lo = mid + 1;
        } else {
            assert forall|i: int| mid <= i < events@.len() implies #[trigger] events@[i].checked_at
                >= t by {
                assert(events@[mid as int].checked_at <= events@[i].checked_at);
            }
            hi = mid;
        }
    }
    lo
}

proof fn lemma_tiles_ordered(segs: Seq<Segment>, lo: int, hi: int, i: int, j: int)
    requires
        tiles(segs, lo, hi),
        0 <= i < j < segs.len(),
    ensures
        segs[i].ended_at <= segs[j].started_at,
    decreases j - i,
{
    if j > i + 1 {
        lemma_tiles_ordered(segs, lo, hi, i, j - 1);
        assert(segs[j - 1].ended_at == segs[j].started_at);
    } else {
        assert(segs[i].ended_at == segs[i + 1].started_at);
    }
}

/// Length in milliseconds of each bucket: the window split into `target`
/// equal parts, rounded up.
pub open spec fn bucket_ms_spec(start: int, end: int, target: int) -> int {
    (trunc_div(end - start, NANOS_PER_MILLI as int) + target - 1) / target
}

/// Start of bucket `k`.
pub open spec fn bucket_lo(start: int, bm: int, k: int) -> int {
    start + (bm * k) * (NANOS_PER_MILLI as int)
}

/// End of bucket `k`: one bucket later, clipped to the window's end.
pub open spec fn bucket_hi(start: int, end: int, bm: int, k: int) -> int {
    let h = bucket_lo(start, bm, k) + bm * (NANOS_PER_MILLI as int);
    if h < end {
        h
    } else {
        end
    }
}

/// The largest window the chart is drawn over (the 30-day range).
pub open spec fn max_window() -> int {
    30 * NANOS_PER_DAY as int
}

/// Inputs the bucketed chart accepts: a nonempty window of at most thirty
/// days inside chrono's range, a bucket count the arithmetic can carry,
/// segments tiling the window, and events in check-time order.
pub open spec fn bucket_inputs_ok(
    segments: Seq<Segment>,
    events: Seq<HistoryEvent>,
    start: i128,
    end: i128,
    target: usize,
) -> bool {
    &&& 1 <= target <= 1_000_000
    &&& start < end
    &&& end - start <= max_window()
    &&& instant_ok(start as int)
    &&& instant_ok(end + NANOS_PER_DAY)
    &&& tiles(segments, start as int, end as int)
    &&& sorted_by_time(events)
}

proof fn lemma_bucket_geometry(total: int, target: int, bm: int, k: int)
    by (nonlinear_arith)
    requires
        0 <= total <= 2_592_000_000,
        1 <= target <= 1_000_000,
        bm == (total + target - 1) / target,
        0 <= k <= target,
    ensures
        0 <= bm <= 2_592_000_000,
        0 <= bm * k <= total + target,
        bm * target >= total,
        bm * (k + 1) == bm * k + bm,
{
}

/// The chart point for the bucket `[lo, hi)`.
#[verifier::opaque]
pub open spec fn bucket_point(p: HistoryPoint, segs: Seq<Segment>, events: Seq<HistoryEvent>, lo: int, hi: int) -> bool {
    let status = bucket_status(segs, lo, hi);
    point_is(
        p,
        lo,
        hi,
        status,
        if status != PointStatus::Gap {
            window_stats(events, lo, hi)
        } else {
            None
        },
    )
}

proof fn lemma_has_in_extend(segs: Seq<Segment>, lo: int, hi: int, st: HistoryStatus, a: int, k: int)
    requires
        0 <= a <= k < segs.len(),
    ensures
        has_status_in(segs, lo, hi, st, a, k + 1) == (has_status_in(segs, lo, hi, st, a, k) || (
        overlaps(segs[k], lo, hi) && segs[k].status == st)),
{
    reveal(has_status_in);
    if has_status_in(segs, lo, hi, st, a, k + 1) {
        let w = choose|w: int| a <= w < k + 1 && overlaps(#[trigger] segs[w], lo, hi) && segs[w].status == st;
        if w < k {
            assert(has_status_in(segs, lo, hi, st, a, k));
        }
    }
    if has_status_in(segs, lo, hi, st, a, k) {
        let w = choose|w: int| a <= w < k && overlaps(#[trigger] segs[w], lo, hi) && segs[w].status == st;
        assert(has_status_in(segs, lo, hi, st, a, k + 1));
    }
    if overlaps(segs[k], lo, hi) && segs[k].status == st {
        assert(has_status_in(segs, lo, hi, st, a, k + 1));
    }
}

proof fn lemma_has_in_empty(segs: Seq<Segment>, lo: int, hi: int, st: HistoryStatus, a: int)
    ensures
        !has_status_in(segs, lo, hi, st, a, a),
{
    reveal(has_status_in);
}

proof fn lemma_has_restrict(
    segs: Seq<Segment>,
    start: int,
    end: int,
    lo: int,
    hi: int,
    st: HistoryStatus,
    first: int,
    k: int,
)
    requires
        tiles(segs, start, end),
        0 <= first <= k <= segs.len(),
        forall|i: int| 0 <= i < first ==> (#[trigger] segs[i]).ended_at <= lo,
        k < segs.len() ==> segs[k].started_at >= hi,
    ensures
        has_status(segs, lo, hi, st) == has_status_in(segs, lo, hi, st, first, k),
{
    reveal(has_status_in);
    if has_status(segs, lo, hi, st) {
        let w = choose|w: int| 0 <= w < segs.len() && overlaps(#[trigger] segs[w], lo, hi) && segs[w].status == st;
        if w < first {
            assert(segs[w].ended_at <= lo);
        }
        if w >= k {
            if w > k {
                lemma_tiles_ordered(segs, start, end, k, w);
            }
        }
        assert(has_status_in(segs, lo, hi, st, first, k));
    }
    if has_status_in(segs, lo, hi, st, first, k) {
        let w = choose|w: int| first <= w < k && overlaps(#[trigger] segs[w], lo, hi) && segs[w].status == st;
        assert(has_status(segs, lo, hi, st));
    }
}

/// Point `k` of `points` is bucket `k` of the window, which starts before the
/// window's end.
pub open spec fn bucket_ok(
    points: Seq<HistoryPoint>,
    segs: Seq<Segment>,
    events: Seq<HistoryEvent>,
    start: int,
    end: int,
    bm: int,
    k: int,
) -> bool {
    &&& bucket_lo(start, bm, k) < end
    &&& bucket_point(points[k], segs, events, bucket_lo(start, bm, k), bucket_hi(start, end, bm, k))
}

/// Skips the segments that end by `lo` and classifies the bucket
/// `[lo, hi)` from the segments overlapping it.
#[verifier::rlimit(40)]
fn scan_bucket_segments(
    segments: &[Segment],
    start: i128,
    end: i128,
    segment_index: usize,
    lo: i128,
    hi: i128,
) -> (r: (usize, PointStatus))
    requires
        tiles(segments@, start as int, end as int),
        segment_index <= segments@.len(),
        forall|i: int| 0 <= i < segment_index ==> (#[trigger] segments@[i]).ended_at <= lo,
    ensures
        r.0 <= segments@.len(),
        forall|i: int| 0 <= i < r.0 ==> (#[trigger] segments@[i]).ended_at <= lo,
        r.1 == bucket_status(segments@, lo as int, hi as int),
{
    let ghost segs = segments@;
    let n_segs = segments.len();
    let mut first = segment_index;
    while first < n_segs && segments[first].ended_at <= lo
        invariant
            first <= n_segs,
            n_segs == segs.len(),
            segs == segments@,
            forall|i: int| 0 <= i < first ==> (#[trigger] segs[i]).ended_at <= lo,
        decreases n_segs - first,
    {
        first += 1;
    }
    let mut has_up = false;
    let mut has_down = false;
    let mut has_gap = false;
    let mut k = first;
    proof {
        lemma_has_in_empty(segs, lo as int, hi as int, HistoryStatus::Up, first as int);
        lemma_has_in_empty(segs, lo as int, hi as int, HistoryStatus::Down, first as int);
        lemma_has_in_empty(segs, lo as int, hi as int, HistoryStatus::Gap, first as int);
    }
    while k < n_segs && segments[k].started_at < hi
        invariant
            first <= k <= n_segs,
            n_segs == segs.len(),
            segs == segments@,
            has_up == has_status_in(segs, lo as int, hi as int, HistoryStatus::Up, first as int, k as int),
            has_down == has_status_in(segs, lo as int, hi as int, HistoryStatus::Down, first as int, k as int),
            has_gap == has_status_in(segs, lo as int, hi as int, HistoryStatus::Gap, first as int, k as int),
        decreases n_segs - k,
    {
        let seg = segments[k];
        proof {
            lemma_has_in_extend(segs, lo as int, hi as int, HistoryStatus::Up, first as int, k as int);
            lemma_has_in_extend(segs, lo as int, hi as int, HistoryStatus::Down, first as int, k as int);
            lemma_has_in_extend(segs, lo as int, hi as int, HistoryStatus::Gap, first as int, k as int);
        }
        if seg.ended_at > lo {
            match seg.status {
                HistoryStatus::Up => {
                    has_up = true;
                },
                HistoryStatus::Down => {
                    has_down = true;
                },
                HistoryStatus::Gap => {
                    has_gap = true;
                },
            }
        }
        k += 1;
    }
    proof {
        lemma_has_restrict(segs, start as int, end as int, lo as int, hi as int, HistoryStatus::Up, first as int, k as int);
        lemma_has_restrict(segs, start as int, end as int, lo as int, hi as int, HistoryStatus::Down, first as int, k as int);
        lemma_has_restrict(segs, start as int, end as int, lo as int, hi as int, HistoryStatus::Gap, first as int, k as int);
    }
    let status = if has_gap {
        PointStatus::Gap
    } else if has_up && has_down {
        PointStatus::Mixed
    } else if has_up {
        PointStatus::Up
    } else if has_down {
        PointStatus::Down
    } else {
        PointStatus::Gap
    };
    (first, status)
}

/// Skips the events checked before `lo` and totals the response times of
/// those checked within `[lo, hi)`.
fn scan_bucket_events(events: &[HistoryEvent], event_index: usize, lo: i128, hi: i128) -> (r: (
    usize,
    i128,
    u64,
))
    requires
        sorted_by_time(events@),
        event_index <= events@.len(),
        forall|i: int| 0 <= i < event_index ==> (#[trigger] events@[i]).checked_at < lo,
        lo <= hi,
    ensures
        r.0 <= events@.len(),
        forall|i: int| 0 <= i < r.0 ==> (#[trigger] events@[i]).checked_at < hi,
        r.1 == window_total(events@, lo as int, hi as int),
        r.2 == window_count(events@, lo as int, hi as int),
{
    let ghost evs = events@;
    let n_events = events.len();
    let mut index = event_index;
    while index < n_events && events[index].checked_at < lo
        invariant
            index <= n_events,
            n_events == evs.len(),
            evs == events@,
            forall|i: int| 0 <= i < index ==> (#[trigger] evs[i]).checked_at < lo,
        decreases n_events - index,
    {
        index += 1;
    }
    let ghost first = index;
    proof {
        assert forall|i: int| 0 <= i < first implies !contributes(#[trigger] evs[i], lo as int, hi as int) by {}
        lemma_window_outside_prefix(evs, first as int, lo as int, hi as int);
    }
    let mut response_total: i128 = 0;
    let mut response_count: u64 = 0;
    while index < n_events && events[index].checked_at < hi
        invariant
            first <= index <= n_events,
            n_events == evs.len(),
            evs == events@,
            sorted_by_time(evs),
            lo <= hi,
            first == n_events || evs[first as int].checked_at >= lo,
            forall|i: int| 0 <= i < first ==> (#[trigger] evs[i]).checked_at < lo,
            forall|i: int| first <= i < index ==> (#[trigger] evs[i]).checked_at < hi,
            response_total == window_total(evs.take(index as int), lo as int, hi as int),
            response_count == window_count(evs.take(index as int), lo as int, hi as int),
            response_count <= index,
            -9_223_372_036_854_775_808 * response_count <= response_total <= 9_223_372_036_854_775_807
                * response_count,
        decreases n_events - index,
    {
        proof {
            lemma_window_step(evs, index as int, lo as int, hi as int);
            assert(evs[first as int].checked_at <= evs[index as int].checked_at);
        }
        match events[index].response_time_ms {
            Some(v) => {
                response_total = response_total + v as i128;
                response_count = response_count + 1;
            },
            None => {},
        }
        index += 1;
    }
    proof {
        assert forall|i: int| index <= i < n_events implies !contributes(#[trigger] evs[i], lo as int, hi as int) by {
            assert(evs[index as int].checked_at <= evs[i].checked_at);
        }
        lemma_window_outside_suffix(evs, index as int, n_events as int, lo as int, hi as int);
        assert(evs.take(n_events as int) =~= evs);
    }
    (index, response_total, response_count)
}

/// Chart points for a window split into `target` buckets. Each point
/// covers `[lo, hi)` of its bucket, takes its status from the segments
/// overlapping the bucket, and averages the response times checked inside
/// it — except that a gap bucket carries no average.
#[verifier::rlimit(30)]
pub fn bucketed_points(
    segments: &[Segment],
    events: &[HistoryEvent],
    start: i128,
    end: i128,
    target: usize,
) -> (r: Vec<HistoryPoint>)
    requires
        bucket_inputs_ok(segments@, events@, start, end, target),
    ensures
        ({
            let bm = bucket_ms_spec(start as int, end as int, target as int);
            &&& r@.len() <= target
            &&& r@.len() == target || bucket_lo(start as int, bm, r@.len() as int) >= end
            &&& forall|k: int| 0 <= k < r@.len() ==> #[trigger] bucket_ok(r@, segments@, events@, start as int, end as int, bm, k)
        }),
{
    let ghost segs = segments@;
    let ghost evs = events@;
    let total_ms = (end - start) / NANOS_PER_MILLI;
    let t = target as i128;
    let bucket_ms = (total_ms + t - 1) / t;
    let ghost bm = bucket_ms as int;
    assert(bm == bucket_ms_spec(start as int, end as int, target as int));
    let mut points: Vec<HistoryPoint> = Vec::new();
    let mut segment_index: usize = 0;
    let mut event_index = first_at_or_after(events, start);
    let mut index: usize = 0;
    let mut done = false;
    while index < target && !done
        invariant
            bucket_inputs_ok(segs, evs, start, end, target),
            segs == segments@,
            evs == events@,
            bm == bucket_ms_spec(start as int, end as int, target as int),
            bucket_ms == bm,
            total_ms == (end - start) / (NANOS_PER_MILLI as int),
            t == target,
            index <= target,
            points@.len() == index,
            done ==> bucket_lo(start as int, bm, index as int) >= end,
            segment_index <= segs.len(),
            event_index <= evs.len(),
            !done ==> forall|i: int| 0 <= i < segment_index ==> (#[trigger] segs[i]).ended_at <= bucket_lo(start as int, bm, index as int),
            !done ==> forall|i: int| 0 <= i < event_index ==> (#[trigger] evs[i]).checked_at < bucket_lo(start as int, bm, index as int),
            forall|k: int| 0 <= k < index ==> #[trigger] bucket_ok(points@, segs, evs, start as int, end as int, bm, k),
        decreases target - index, if done { 0int } else { 1int },
    {
        proof {
            lemma_bucket_geometry(total_ms as int, target as int, bm, index as int);
        }
        let offset = bucket_ms * (index as i128);
        let bucket_start = start + offset * NANOS_PER_MILLI;
        let ghost lo = bucket_lo(start as int, bm, index as int);
        assert(bucket_start == lo);
        if bucket_start >= end {
            done = true;
        } else {
            let step_end = bucket_start + bucket_ms * NANOS_PER_MILLI;
            let bucket_end = if step_end < end {
                step_end
            } else {
                end
            };
            let ghost hi = bucket_hi(start as int, end as int, bm, index as int);
            assert(bucket_end == hi);
            let (next_segment, status) = scan_bucket_segments(
                segments,
                start,
                end,
                segment_index,
                bucket_start,
                bucket_end,
            );
            segment_index = next_segment;
            let (next_event, response_total, response_count) = scan_bucket_events(
                events,
                event_index,
                bucket_start,
                bucket_end,
            );
            event_index = next_event;
            let ghost old_points = points@;
            let average = if status != PointStatus::Gap && response_count > 0 {
                Some(ResponseStats { total_ms: response_total, count: response_count })
            } else {
                None
            };
            points.push(
                HistoryPoint {
                    started_at: format_timestamp(bucket_start),
                    ended_at: format_timestamp(bucket_end),
                    status,
                    avg_response_time_ms: average,
                },
            );
            proof {
                let next_lo = bucket_lo(start as int, bm, index + 1);
                assert(next_lo == lo + bm * (NANOS_PER_MILLI as int));
                reveal(bucket_point);
                assert(bucket_point(points@[index as int], segs, evs, lo, hi));
                assert forall|k: int| 0 <= k < index + 1 implies #[trigger] bucket_ok(points@, segs, evs, start as int, end as int, bm, k) by {
                    if k < index {
                        assert(bucket_ok(old_points, segs, evs, start as int, end as int, bm, k));
                        assert(points@[k] == old_points[k]);
                    } else {
                        assert(bucket_lo(start as int, bm, k) == bucket_start);
                    }
                }
            }
            index += 1;
        }
    }
    points
}

/// One outage as shown in the incident timeline.
#[derive(Debug, Clone)]
pub struct Incident {
    pub started_at: String,
    pub ended_at: Option<String>,
    pub duration_seconds: i64,
    pub failure_reason: Option<String>,
    pub ongoing: bool,
    pub includes_gap: bool,
}

/// An outage being followed while the events are read. `running_from` is
/// the start of the stretch currently counted as downtime (none while the
/// state is unknown after a gap).
#[derive(Debug, Clone)]
pub struct OpenIncident {
    pub started_at: i128,
    pub running_from: Option<i128>,
    pub last_observed_down_at: i128,
    pub duration_seconds: i64,
    pub failure_reason: Option<String>,
    pub includes_gap: bool,
}

/// A finished (or still ongoing) outage, with instants not yet rendered.
#[derive(Debug, Clone)]
pub struct IncidentSpan {
    pub started_at: i128,
    pub ended_at: Option<i128>,
    pub duration_seconds: i64,
    pub failure_reason: Option<String>,
    pub ongoing: bool,
    pub includes_gap: bool,
}

/// Whole seconds of downtime from `from` to `to`, never negative
/// (`num_seconds().max(0)`).
pub open spec fn run_secs(from: int, to: int) -> int {
    let s = trunc_div(to - from, NANOS_PER_SEC as int);
    if s > 0 {
        s
    } else {
        0
    }
}

/// The outage tracker's state: the open incident and the closed ones.
pub type IncidentState = (Option<OpenIncident>, Seq<IncidentSpan>);

/// Duration of an open incident once its running stretch is closed at `t`.
pub open spec fn closed_duration(inc: OpenIncident, t: int) -> int {
    match inc.running_from {
        Some(rf) => inc.duration_seconds + run_secs(rf as int, t),
        None => inc.duration_seconds as int,
    }
}

/// Feeding one event to the outage tracker. Events checked after `now` are
/// ignored. A down marker opens an incident (or resumes counting one that
/// a gap interrupted); a gap stops the count and marks the incident as
/// including unknown time; an up marker closes it, at the up marker if the
/// downtime was still being counted, otherwise at the last down/gap marker.
pub open spec fn incident_step(st: IncidentState, e: HistoryEvent, now: i128) -> IncidentState {
    if e.checked_at > now {
        st
    } else {
        match e.status {
            HistoryStatus::Down => match st.0 {
                Some(inc) => (
                    Some(
                        OpenIncident {
                            last_observed_down_at: e.checked_at,
                            running_from: if inc.running_from is None {
                                Some(e.checked_at)
                            } else {
                                inc.running_from
                            },
                            ..inc
                        },
                    ),
                    st.1,
                ),
                None => (
                    Some(
                        OpenIncident {
                            started_at: e.checked_at,
                            running_from: Some(e.checked_at),
                            last_observed_down_at: e.checked_at,
                            duration_seconds: 0,
                            failure_reason: e.failure_reason,
                            includes_gap: false,
                        },
                    ),
                    st.1,
                ),
            },
            HistoryStatus::Gap => match st.0 {
                Some(inc) => (
                    Some(
                        OpenIncident {
                            duration_seconds: closed_duration(inc, e.checked_at as int) as i64,
                            running_from: None,
                            last_observed_down_at: e.checked_at,
                            includes_gap: true,
                            ..inc
                        },
                    ),
                    st.1,
                ),
                None => st,
            },
            HistoryStatus::Up => match st.0 {
                Some(inc) => (
                    None,
                    st.1.push(
                        IncidentSpan {
                            started_at: inc.started_at,
                            ended_at: Some(
                                if inc.running_from is Some {
                                    e.checked_at
                                } else {
                                    inc.last_observed_down_at
                                },
                            ),
                            duration_seconds: closed_duration(inc, e.checked_at as int) as i64,
                            failure_reason: inc.failure_reason,
                            ongoing: false,
                            includes_gap: inc.includes_gap,
                        },
                    ),
                ),
                None => st,
            },
        }
    }
}

pub open spec fn incident_fold(events: Seq<HistoryEvent>, now: i128) -> IncidentState
    decreases events.len(),
{
    if events.len() == 0 {
        (None, Seq::empty())
    } else {
        incident_step(incident_fold(events.drop_last(), now), events.last(), now)
    }
}

/// The incidents of a history: those the tracker closed, then the one still
/// open at the end — ongoing (counted up to `now`, without an end) when the
/// monitor is currently down, otherwise ended at its last down/gap marker.
pub open spec fn incidents_spec(events: Seq<HistoryEvent>, current_status: MonitorStatus, now: i128) -> Seq<IncidentSpan> {
    let st = incident_fold(events, now);
    match st.0 {
        None => st.1,
        Some(inc) => {
            let ongoing = current_status == MonitorStatus::Down;
            st.1.push(
                IncidentSpan {
                    started_at: inc.started_at,
                    ended_at: if ongoing {
                        None
                    } else {
                        Some(inc.last_observed_down_at)
                    },
                    duration_seconds: if ongoing {
                        closed_duration(inc, now as int) as i64
                    } else {
                        inc.duration_seconds
                    },
                    failure_reason: inc.failure_reason,
                    ongoing,
                    includes_gap: inc.includes_gap,
                },
            )
        },
    }
}

/// Bookkeeping bounds of an open incident whose last marker is at or
/// before `p`: its instants are ordered and formattable, and the counted
/// seconds fit between its start and the start of the running stretch (or
/// its last marker when none runs).
pub open spec fn open_ok(inc: OpenIncident, p: int, now: int) -> bool {
    &&& instant_ok(inc.started_at as int)
    &&& inc.started_at <= inc.last_observed_down_at <= p <= now
    &&& inc.duration_seconds >= 0
    &&& match inc.running_from {
        Some(rf) => inc.started_at <= rf <= inc.last_observed_down_at && inc.duration_seconds
            * NANOS_PER_SEC <= rf - inc.started_at,
        None => inc.duration_seconds * NANOS_PER_SEC <= inc.last_observed_down_at
            - inc.started_at,
    }
}

/// Events in check-time order whose instants are all formattable.
pub open spec fn events_ok(events: Seq<HistoryEvent>) -> bool {
    &&& sorted_by_time(events)
    &&& forall|i: int| 0 <= i < events.len() ==> instant_ok(#[trigger] events[i].checked_at as int)
}

/// A span's instants are formattable.
pub open spec fn span_ok(s: IncidentSpan) -> bool {
    &&& instant_ok(s.started_at as int)
    &&& s.ended_at matches Some(e) ==> instant_ok(e as int)
}

/// An outage's counted downtime is never negative and never longer than
/// the time from its start to its end (to `now` while ongoing).
pub open spec fn span_bounded(s: IncidentSpan, now: int) -> bool {
    let end = match s.ended_at {
        Some(e) => e as int,
        None => now,
    };
    0 <= s.duration_seconds && s.duration_seconds * NANOS_PER_SEC <= end - s.started_at
}

/// Every span in the list is bounded.
#[verifier::opaque]
pub open spec fn all_bounded(spans: Seq<IncidentSpan>, now: int) -> bool {
    forall|j: int| 0 <= j < spans.len() ==> span_bounded(#[trigger] spans[j], now)
}

proof fn lemma_bounded_push(spans: Seq<IncidentSpan>, x: IncidentSpan, now: int)
    requires
        all_bounded(spans, now),
        span_bounded(x, now),
    ensures
        all_bounded(spans.push(x), now),
{
    reveal(all_bounded);
    assert forall|j: int| 0 <= j < spans.push(x).len() implies span_bounded(#[trigger] spans.push(x)[j], now) by {
        if j < spans.len() {
            assert(spans.push(x)[j] == spans[j]);
        }
    }
}

proof fn lemma_run_secs_bound(dur: int, started: int, rf: int, t: int)
    by (nonlinear_arith)
    requires
        0 <= dur,
        dur * 1_000_000_000 <= rf - started,
        rf <= t,
    ensures
        0 <= dur + run_secs(rf, t),
        (dur + run_secs(rf, t)) * 1_000_000_000 <= t - started,
{
}

/// Seconds between `from` and `to`, never negative.
fn seconds_between(from: i128, to: i128) -> (r: i128)
    requires
        instant_ok(from as int),
        instant_ok(to as int),
    ensures
        r == run_secs(from as int, to as int),
{
    let d = crate::time::div_toward_zero(to - from, NANOS_PER_SEC);
    if d > 0 {
        d
    } else {
        0
    }
}

/// Renders a span's instants.
fn finish_incident(span: IncidentSpan) -> (r: Incident)
    requires
        span_ok(span),
    ensures
        incident_renders(r, span),
{
    Incident {
        started_at: format_timestamp(span.started_at),
        ended_at: match span.ended_at {
            Some(e) => Some(format_timestamp(e)),
            None => None,
        },
        duration_seconds: span.duration_seconds,
        failure_reason: span.failure_reason,
        ongoing: span.ongoing,
        includes_gap: span.includes_gap,
    }
}

/// An incident is the rendering of a span.
pub open spec fn incident_renders(r: Incident, span: IncidentSpan) -> bool {
    &&& r.started_at@ == millis_text(span.started_at as int)
    &&& match (r.ended_at, span.ended_at) {
        (Some(a), Some(b)) => a@ == millis_text(b as int),
        (None, None) => true,
        _ => false,
    }
    &&& r.duration_seconds == span.duration_seconds
    &&& r.failure_reason == span.failure_reason
    &&& r.ongoing == span.ongoing
    &&& r.includes_gap == span.includes_gap
}

/// The outages in a history, oldest first.
pub fn build_incidents(events: &[HistoryEvent], current_status: MonitorStatus, now: i128) -> (r: Vec<Incident>)
    requires
        events_ok(events@),
        instant_ok(now as int),
    ensures
        r@.len() == incidents_spec(events@, current_status, now).len(),
        forall|i: int| 0 <= i < r@.len() ==> incident_renders(#[trigger] r@[i], incidents_spec(events@, current_status, now)[i]),
        forall|i: int|
            0 <= i < r@.len() ==> span_bounded(#[trigger] incidents_spec(events@, current_status, now)[i], now as int),
{
    let ghost evs = events@;
    let n = events.len();
    let mut open: Option<OpenIncident> = None;
    let mut spans: Vec<IncidentSpan> = Vec::new();
    let ghost mut p: int = 0;
    let mut i: usize = 0;
    proof {
        reveal(all_bounded);
    }
    while i < n
        invariant
            i <= n,
            n == evs.len(),
            evs == events@,
            events_ok(evs),
            instant_ok(now as int),
            (open, spans@) == incident_fold(evs.take(i as int), now),
            open matches Some(inc) ==> 0 <= p < i && p < n && open_ok(inc, evs[p].checked_at as int, now as int),
            forall|j: int| 0 <= j < spans@.len() ==> span_ok(#[trigger] spans@[j]),
            all_bounded(spans@, now as int),
        decreases n - i,
    {
        proof {
            assert(evs.take(i + 1).drop_last() =~= evs.take(i as int));
            assert(evs.take(i + 1).last() == evs[i as int]);
            if open is Some {
                assert(evs[p].checked_at <= evs[i as int].checked_at);
            }
        }
        let ghost old_spans = spans@;
        let t = events[i].checked_at;
        if t <= now {
            match events[i].status {
                HistoryStatus::Down => {
                    let current = open;
                    open = match current {
                        Some(inc) => Some(
                            OpenIncident {
                                started_at: inc.started_at,
                                running_from: match inc.running_from {
                                    None => Some(t),
                                    Some(rf) => Some(rf),
                                },
                                last_observed_down_at: t,
                                duration_seconds: inc.duration_seconds,
                                failure_reason: inc.failure_reason,
                                includes_gap: inc.includes_gap,
                            },
                        ),
                        None => Some(
                            OpenIncident {
                                started_at: t,
                                running_from: Some(t),
                                last_observed_down_at: t,
                                duration_seconds: 0,
                                failure_reason: copy_opt(&events[i].failure_reason),
                                includes_gap: false,
                            },
                        ),
                    };
                    proof {
                        p = i as int;
                    }
                },
                HistoryStatus::Gap => {
                    let current = open;
                    open = match current {
                        Some(inc) => {
                            let duration = match inc.running_from {
                                Some(rf) => {
                                    proof {
                                        lemma_run_secs_bound(inc.duration_seconds as int, inc.started_at as int, rf as int, t as int);
                                    }
                                    inc.duration_seconds + seconds_between(rf, t) as i64
                                },
                                None => inc.duration_seconds,
                            };
                            Some(
                                OpenIncident {
                                    started_at: inc.started_at,
                                    running_from: None,
                                    last_observed_down_at: t,
                                    duration_seconds: duration,
                                    failure_reason: inc.failure_reason,
                                    includes_gap: true,
                                },
                            )
                        },
                        None => None,
                    };
                    proof {
                        p = i as int;
                    }
                },
                HistoryStatus::Up => {
                    let current = open;
                    match current {
                        Some(inc) => {
                            let (ended_at, duration) = match inc.running_from {
                                Some(rf) => {
                                    proof {
                                        lemma_run_secs_bound(inc.duration_seconds as int, inc.started_at as int, rf as int, t as int);
                                    }
                                    (t, inc.duration_seconds + seconds_between(rf, t) as i64)
                                },
                                None => (inc.last_observed_down_at, inc.duration_seconds),
                            };
                            let span = IncidentSpan {
                                started_at: inc.started_at,
                                ended_at: Some(ended_at),
                                duration_seconds: duration,
                                failure_reason: inc.failure_reason,
                                ongoing: false,
                                includes_gap: inc.includes_gap,
                            };
                            proof {
                                lemma_bounded_push(spans@, span, now as int);
                            }
                            spans.push(span);
                        },
                        None => {},
                    }
                    open = None;
                },
            }
        }
        proof {
            assert forall|j: int| 0 <= j < spans@.len() implies span_ok(#[trigger] spans@[j]) by {
                if j < old_spans.len() {
                    assert(spans@[j] == old_spans[j]);
                }
            }
        }
        i += 1;
    }
    proof {
        assert(evs.take(n as int) =~= evs);
    }
    let ghost closed = spans@;
    match open {
        Some(inc) => {
            let ongoing = current_status == MonitorStatus::Down;
            let (ended_at, duration) = if ongoing {
                match inc.running_from {
                    Some(rf) => {
                        proof {
                            lemma_run_secs_bound(inc.duration_seconds as int, inc.started_at as int, rf as int, now as int);
                        }
                        (None, inc.duration_seconds + seconds_between(rf, now) as i64)
                    },
                    None => (None, inc.duration_seconds),
                }
            } else {
                (Some(inc.last_observed_down_at), inc.duration_seconds)
            };
            let span = IncidentSpan {
                started_at: inc.started_at,
                ended_at,
                duration_seconds: duration,
                failure_reason: inc.failure_reason,
                ongoing,
                includes_gap: inc.includes_gap,
            };
            proof {
                lemma_bounded_push(spans@, span, now as int);
            }
            spans.push(span);
            proof {
                assert forall|j: int| 0 <= j < spans@.len() implies span_ok(#[trigger] spans@[j]) by {
                    if j < closed.len() {
                        assert(spans@[j] == closed[j]);
                    }
                }
            }
        },
        None => {},
    }
    let ghost all = spans@;
    assert(all == incidents_spec(evs, current_status, now));
    assert(forall|j: int| 0 <= j < all.len() ==> span_bounded(#[trigger] all[j], now as int)) by {
        reveal(all_bounded);
    }
    let mut incidents: Vec<Incident> = Vec::new();
    let mut k: usize = 0;
    let m = spans.len();
    while k < m
        invariant
            k <= m,
            m == all.len(),
            forall|j: int| 0 <= j < all.len() ==> span_ok(#[trigger] all[j]),
            incidents@.len() == k,
            forall|j: int| 0 <= j < k ==> incident_renders(#[trigger] incidents@[j], all[j]),
            spans@ == all,
        decreases m - k,
    {
        let span = IncidentSpan {
            started_at: spans[k].started_at,
            ended_at: spans[k].ended_at,
            duration_seconds: spans[k].duration_seconds,
            failure_reason: copy_opt(&spans[k].failure_reason),
            ongoing: spans[k].ongoing,
            includes_gap: spans[k].includes_gap,
        };
        assert(span == all[k as int]);
        incidents.push(finish_incident(span));
        k += 1;
    }
    incidents
}

/// Lexicographic order of texts by character (for UTF-8 text this is the
/// byte order `String`'s `Ord` uses).
pub open spec fn text_lt(a: Seq<char>, b: Seq<char>) -> bool
    decreases a.len(),
{
    if a.len() == 0 {
        b.len() > 0
    } else if b.len() == 0 {
        false
    } else if a[0] != b[0] {
        (a[0] as u32) < (b[0] as u32)
    } else {
        text_lt(a.drop_first(), b.drop_first())
    }
}

/// `a` sorts strictly before `b`.
pub fn str_lt(a: &str, b: &str) -> (r: bool)
    ensures
        r == text_lt(a@, b@),
{
    let na = a.unicode_len();
    let nb = b.unicode_len();
    let mut i: usize = 0;
    assert(a@.skip(0) =~= a@);
    assert(b@.skip(0) =~= b@);
    while i < na && i < nb
        invariant
            i <= na,
            i <= nb,
            na == a@.len(),
            nb == b@.len(),
            text_lt(a@, b@) == text_lt(a@.skip(i as int), b@.skip(i as int)),
        decreases na - i,
    {
        let ca = a.get_char(i);
        let cb = b.get_char(i);
        assert(a@.skip(i as int)[0] == ca);
        assert(b@.skip(i as int)[0] == cb);
        if ca != cb {
            return (ca as u32) < (cb as u32);
        }
        assert(a@.skip(i as int).drop_first() =~= a@.skip(i + 1));
        assert(b@.skip(i as int).drop_first() =~= b@.skip(i + 1));
        i += 1;
    }
    i == na && i < nb
}

/// The incident timeline's order key: the rendered start.
pub open spec fn span_key(s: IncidentSpan) -> Seq<char> {
    millis_text(s.started_at as int)
}

/// Inserts `x` after every element whose key is not below its own — the
/// position a stable descending sort gives it.
pub open spec fn insert_desc(sorted: Seq<IncidentSpan>, x: IncidentSpan) -> Seq<IncidentSpan>
    decreases sorted.len(),
{
    if sorted.len() == 0 {
        seq![x]
    } else if text_lt(span_key(sorted[0]), span_key(x)) {
        seq![x] + sorted
    } else {
        seq![sorted[0]] + insert_desc(sorted.drop_first(), x)
    }
}

/// Stable sort, newest start first (`sort_by(|a, b| b.cmp(a))` on the
/// rendered starts).
pub open spec fn sort_desc(s: Seq<IncidentSpan>) -> Seq<IncidentSpan>
    decreases s.len(),
{
    if s.len() == 0 {
        s
    } else {
        insert_desc(sort_desc(s.drop_last()), s.last())
    }
}

proof fn lemma_insert_desc_at(sorted: Seq<IncidentSpan>, x: IncidentSpan, p: int)
    requires
        0 <= p <= sorted.len(),
        forall|j: int| 0 <= j < p ==> !text_lt(span_key(#[trigger] sorted[j]), span_key(x)),
        p < sorted.len() ==> text_lt(span_key(sorted[p]), span_key(x)),
    ensures
        insert_desc(sorted, x) == sorted.insert(p, x),
    decreases sorted.len(),
{
    if sorted.len() == 0 {
        assert(sorted.insert(p, x) =~= seq![x]);
    } else if text_lt(span_key(sorted[0]), span_key(x)) {
        assert(sorted.insert(p, x) =~= seq![x] + sorted);
    } else {
        let rest = sorted.drop_first();
        assert forall|j: int| 0 <= j < p - 1 implies !text_lt(span_key(#[trigger] rest[j]), span_key(x)) by {
            assert(rest[j] == sorted[j + 1]);
        }
        if p - 1 < rest.len() {
            assert(rest[p - 1] == sorted[p]);
        }
        lemma_insert_desc_at(rest, x, p - 1);
        assert(sorted.insert(p, x) =~= seq![sorted[0]] + rest.insert(p - 1, x));
    }
}

/// Whether the timeline for a window starting at `start` shows a span:
/// ongoing ones always, finished ones when their rendered end reads back
/// as an instant at or after `start`.
pub open spec fn shown_in_window(s: IncidentSpan, start: int) -> bool {
    s.ongoing || (s.ended_at matches Some(e) && parsed_instant(millis_text(e as int)) matches Some(
        x,
    ) && x >= start)
}

pub open spec fn shown_spans(spans: Seq<IncidentSpan>, start: int) -> Seq<IncidentSpan>
    decreases spans.len(),
{
    if spans.len() == 0 {
        spans
    } else {
        let f = shown_spans(spans.drop_last(), start);
        if shown_in_window(spans.last(), start) {
            f.push(spans.last())
        } else {
            f
        }
    }
}

/// Chart points and incident timeline for one range.
#[derive(Debug, Clone)]
pub struct HistoryResponse {
    pub points: Vec<HistoryPoint>,
    pub incidents: Vec<Incident>,
}

/// `now` leaves room for the longest range before it and a day after it
/// inside chrono's range.
pub open spec fn now_ok(now: i128) -> bool {
    instant_ok(now - 30 * NANOS_PER_DAY) && instant_ok(now + NANOS_PER_DAY)
}

proof fn lemma_tiles_in_range(segs: Seq<Segment>, lo: int, hi: int)
    requires
        tiles(segs, lo, hi),
        instant_ok(lo),
        instant_ok(hi),
    ensures
        segments_in_range(segs),
        segments_well_formed(segs),
        total_ms(segs) <= (hi - lo) / (NANOS_PER_MILLI as int),
{
    lemma_tiles_total(segs, lo, hi);
    assert forall|i: int| 0 <= i < segs.len() implies #[trigger] segs[i].started_at <= segs[i].ended_at
        && crate::time::time_bounded(segs[i].started_at as int)
        && crate::time::time_bounded(segs[i].ended_at as int) by {
        assert(lo <= segs[i].started_at < segs[i].ended_at <= hi);
    }
}

/// A copy of an incident.
fn copy_incident(i: &Incident) -> (r: Incident)
    ensures
        r == *i,
{
    Incident {
        started_at: i.started_at.clone(),
        ended_at: copy_opt(&i.ended_at),
        duration_seconds: i.duration_seconds,
        failure_reason: copy_opt(&i.failure_reason),
        ongoing: i.ongoing,
        includes_gap: i.includes_gap,
    }
}

/// The chart points a range shows.
pub open spec fn points_for(
    points: Seq<HistoryPoint>,
    segs: Seq<Segment>,
    events: Seq<HistoryEvent>,
    range: HistoryRange,
    start: int,
    end: int,
) -> bool {
    if range.buckets() == 0 {
        &&& points.len() == segs.len()
        &&& forall|i: int|
            0 <= i < points.len() ==> point_is(
                #[trigger] points[i],
                segs[i].started_at as int,
                segs[i].ended_at as int,
                point_of(segs[i].status),
                match segs[i].response_time_ms {
                    Some(v) => Some(ResponseStats { total_ms: v as i128, count: 1 }),
                    None => None,
                },
            )
    } else {
        let bm = bucket_ms_spec(start, end, range.buckets() as int);
        &&& points.len() <= range.buckets()
        &&& points.len() == range.buckets() || bucket_lo(start, bm, points.len() as int) >= end
        &&& forall|k: int| 0 <= k < points.len() ==> #[trigger] bucket_ok(points, segs, events, start, end, bm, k)
    }
}

/// Chart points and incidents for `range`, ending at `now`: one point per
/// segment for the day range and 500 buckets otherwise; the incidents that
/// are ongoing or ended inside the range, newest first.
pub fn history(events: &[HistoryEvent], current_status: MonitorStatus, range: HistoryRange, now: i128) -> (r: HistoryResponse)
    requires
        events_ok(events@),
        now_ok(now),
    ensures
        ({
            let start = now - range.nanos();
            let segs = segments_spec(events@, start as i128, now);
            let shown = sort_desc(shown_spans(incidents_spec(events@, current_status, now), start));
            &&& points_for(r.points@, segs, events@, range, start, now as int)
            &&& r.incidents@.len() == shown.len()
            &&& forall|i: int| 0 <= i < shown.len() ==> incident_renders(#[trigger] r.incidents@[i], shown[i])
        }),
{
    let start = now - range.duration();
    let segments = build_segments(events, start, now);
    proof {
        law_segments_tile_window(events@, start, now);
        lemma_tiles_in_range(segments@, start as int, now as int);
    }
    let count = range.bucket_count();
    let points = if count == 0 {
        raw_points(segments.as_slice())
    } else {
        bucketed_points(segments.as_slice(), events, start, now, count)
    };
    let built = build_incidents(events, current_status, now);
    let ghost spans = incidents_spec(events@, current_status, now);
    let mut shown: Vec<Incident> = Vec::new();
    let ghost mut shown_sorted: Seq<IncidentSpan> = Seq::empty();
    let n = built.len();
    let mut i: usize = 0;
    while i < n
        invariant
            i <= n,
            n == built@.len(),
            n == spans.len(),
            forall|j: int| 0 <= j < n ==> incident_renders(#[trigger] built@[j], spans[j]),
            shown_sorted == sort_desc(shown_spans(spans.take(i as int), start as int)),
            shown@.len() == shown_sorted.len(),
            forall|j: int| 0 <= j < shown@.len() ==> incident_renders(#[trigger] shown@[j], shown_sorted[j]),
        decreases n - i,
    {
        let ghost sp = spans[i as int];
        proof {
            assert(spans.take(i + 1).drop_last() =~= spans.take(i as int));
            assert(spans.take(i + 1).last() == sp);
            assert(incident_renders(built@[i as int], sp));
        }
        let incident = copy_incident(&built[i]);
        let keep = if incident.ongoing {
            true
        } else {
            match &incident.ended_at {
                Some(ended) => match parse_timestamp(ended.as_str()) {
                    Some(t) => t >= start,
                    None => false,
                },
                None => false,
            }
        };
        assert(keep == shown_in_window(sp, start as int));
        proof {
            let f = shown_spans(spans.take(i as int), start as int);
            if keep {
                assert(shown_spans(spans.take(i + 1), start as int) == f.push(sp));
                assert(f.push(sp).drop_last() =~= f);
                assert(sort_desc(f.push(sp)) == insert_desc(sort_desc(f), sp));
            } else {
                assert(shown_spans(spans.take(i + 1), start as int) == f);
            }
        }
        if keep {
            let m = shown.len();
            let mut p: usize = 0;
            while p < m && !str_lt(shown[p].started_at.as_str(), incident.started_at.as_str())
                invariant
                    p <= m,
                    m == shown@.len(),
                    m == shown_sorted.len(),
                    incident_renders(incident, sp),
                    forall|j: int| 0 <= j < shown@.len() ==> incident_renders(#[trigger] shown@[j], shown_sorted[j]),
                    forall|j: int| 0 <= j < p ==> !text_lt(span_key(#[trigger] shown_sorted[j]), span_key(sp)),
                decreases m - p,
            {
                p += 1;
            }
            proof {
                if p < m {
                    assert(incident_renders(shown@[p as int], shown_sorted[p as int]));
                }
                lemma_insert_desc_at(shown_sorted, sp, p as int);
            }
            let ghost before = shown@;
            shown.insert(p, incident);
            proof {
                let new_sorted = shown_sorted.insert(p as int, sp);
                assert forall|j: int| 0 <= j < shown@.len() implies incident_renders(#[trigger] shown@[j], new_sorted[j]) by {
                    if j < p {
                        assert(shown@[j] == before[j]);
                        assert(new_sorted[j] == shown_sorted[j]);
                    } else if j > p {
                        assert(shown@[j] == before[j - 1]);
                        assert(new_sorted[j] == shown_sorted[j - 1]);
                    }
                }
                shown_sorted = new_sorted;
            }
        }
        i += 1;
    }
    proof {
        assert(spans.take(n as int) =~= spans);
    }
    HistoryResponse { points, incidents: shown }
}

/// Uptime summary of one monitor.
#[derive(Debug, Clone)]
pub struct UptimeStats {
    pub uptime_24h: Option<UptimeRatio>,
    pub uptime_7d: Option<UptimeRatio>,
    pub uptime_30d: Option<UptimeRatio>,
    pub avg_response_time_ms_24h: Option<ResponseStats>,
    pub last_check_at: Option<String>,
    pub current_status: MonitorStatus,
}

/// Duration-weighted uptime over the `length` nanoseconds ending at `now`.
fn uptime_over(events: &[HistoryEvent], now: i128, length: i128) -> (r: Option<UptimeRatio>)
    requires
        events_ok(events@),
        now_ok(now),
        0 < length <= 30 * NANOS_PER_DAY,
    ensures
        r == uptime_spec(segments_spec(events@, (now - length) as i128, now)),
{
    let start = now - length;
    let segments = build_segments(events, start, now);
    proof {
        law_segments_tile_window(events@, start, now);
        lemma_tiles_in_range(segments@, start as int, now as int);
    }
    uptime_percent(segments.as_slice())
}

/// Response-time statistics of the events checked within `[lo, hi)`, in
/// any order.
fn window_responses(events: &[HistoryEvent], lo: i128, hi: i128) -> (r: Option<ResponseStats>)
    ensures
        r == window_stats(events@, lo as int, hi as int),
{
    let ghost evs = events@;
    let n = events.len();
    let mut total: i128 = 0;
    let mut count: u64 = 0;
    let mut i: usize = 0;
    while i < n
        invariant
            i <= n,
            n == evs.len(),
            evs == events@,
            total == window_total(evs.take(i as int), lo as int, hi as int),
            count == window_count(evs.take(i as int), lo as int, hi as int),
            count <= i,
            -9_223_372_036_854_775_808 * count <= total <= 9_223_372_036_854_775_807 * count,
        decreases n - i,
    {
        proof {
            lemma_window_step(evs, i as int, lo as int, hi as int);
        }
        let e = &events[i];
        if lo <= e.checked_at && e.checked_at < hi {
            match e.response_time_ms {
                Some(v) => {
                    total = total + v as i128;
                    count = count + 1;
                },
                None => {},
            }
        }
        i += 1;
    }
    proof {
        assert(evs.take(n as int) =~= evs);
    }
    if count > 0 {
        Some(ResponseStats { total_ms: total, count })
    } else {
        None
    }
}

/// Uptime over the last 24 hours, 7 days and 30 days (duration-weighted,
/// gaps excluded), and the response-time average of the last 24 hours.
pub fn uptime_stats(
    events: &[HistoryEvent],
    current_status: MonitorStatus,
    last_check_at: Option<String>,
    now: i128,
) -> (r: UptimeStats)
    requires
        events_ok(events@),
        now_ok(now),
    ensures
        r.uptime_24h == uptime_spec(segments_spec(events@, (now - NANOS_PER_DAY) as i128, now)),
        r.uptime_7d == uptime_spec(segments_spec(events@, (now - 7 * NANOS_PER_DAY) as i128, now)),
        r.uptime_30d == uptime_spec(segments_spec(events@, (now - 30 * NANOS_PER_DAY) as i128, now)),
        r.avg_response_time_ms_24h == window_stats(events@, now - NANOS_PER_DAY, now as int),
        r.last_check_at == last_check_at,
        r.current_status == current_status,
{
    let day = 24 * NANOS_PER_HOUR;
    UptimeStats {
        uptime_24h: uptime_over(events, now, day),
        uptime_7d: uptime_over(events, now, 7 * NANOS_PER_DAY),
        uptime_30d: uptime_over(events, now, 30 * NANOS_PER_DAY),
        avg_response_time_ms_24h: window_responses(events, now - day, now),
        last_check_at,
        current_status,
    }
}

proof fn lemma_closed_spans_not_ongoing(events: Seq<HistoryEvent>, now: i128)
    ensures
        forall|i: int|
            0 <= i < incident_fold(events, now).1.len() ==> !(#[trigger] incident_fold(events, now).1[i]).ongoing
                && incident_fold(events, now).1[i].ended_at is Some,
    decreases events.len(),
{
    if events.len() > 0 {
        lemma_closed_spans_not_ongoing(events.drop_last(), now);
    }
}

/// Only the newest incident can be ongoing, and only while the monitor is
/// down; an incident has an end exactly when it is not ongoing.
pub proof fn law_only_the_last_incident_is_ongoing(
    events: Seq<HistoryEvent>,
    current_status: MonitorStatus,
    now: i128,
)
    ensures
        forall|i: int|
            0 <= i < incidents_spec(events, current_status, now).len() ==> ((#[trigger] incidents_spec(
                events,
                current_status,
                now,
            )[i]).ongoing ==> i == incidents_spec(events, current_status, now).len() - 1
                && current_status == MonitorStatus::Down),
        forall|i: int|
            0 <= i < incidents_spec(events, current_status, now).len() ==> ((#[trigger] incidents_spec(
                events,
                current_status,
                now,
            )[i]).ended_at is None <==> incidents_spec(events, current_status, now)[i].ongoing),
{
    lemma_closed_spans_not_ongoing(events, now);
}

} // verus!
