//! Structural laws of the history views: the incident timeline, the chart
//! points and the uptime reading.

use vstd::prelude::*;

use crate::history::{
    bucket_hi, bucket_inputs_ok, bucket_lo, bucket_ms_spec, bucket_ok, bucket_point,
    bucket_status, closed_duration, events_ok, incident_fold, incidents_spec, law_segments_tile_window,
    lemma_bucket_geometry, now_ok, point_of, points_for, run_secs, segments_spec, sorted_by_time,
    insert_desc, shown_in_window, shown_spans, sort_desc, span_key, text_lt, prior_state, seg_fold,
    seg_init, seg_step, has_status, has_status_in, seg_ms, up_ms, observed_ms, uptime_spec, window_stats, UptimeRatio,
    UptimeStats,
    tiles, HistoryEvent, HistoryPoint, HistoryRange, HistoryStatus, IncidentSpan, MonitorStatus,
    PointStatus, Segment,
};
use crate::time::{instant_ok, millis_text, trunc_div, NANOS_PER_DAY, NANOS_PER_MILLI};

verus! {

/// Some down event checked at or before `now` was checked at `t`.
pub open spec fn down_checked_at(events: Seq<HistoryEvent>, t: int, now: int) -> bool {
    exists|j: int|
        0 <= j < events.len() && (#[trigger] events[j]).status == HistoryStatus::Down
            && events[j].checked_at == t && t <= now
}

/// The first down event checked at or before `now`, in sequence order.
pub open spec fn first_down(events: Seq<HistoryEvent>, now: i128) -> Option<HistoryEvent>
    decreases events.len(),
{
    if events.len() == 0 {
        None
    } else {
        match first_down(events.drop_last(), now) {
            Some(d) => Some(d),
            None => if events.last().status == HistoryStatus::Down && events.last().checked_at
                <= now {
                Some(events.last())
            } else {
                None
            },
        }
    }
}

proof fn lemma_down_lift(events: Seq<HistoryEvent>, t: int, now: int)
    requires
        events.len() > 0,
        down_checked_at(events.drop_last(), t, now),
    ensures
        down_checked_at(events, t, now),
{
    let rest = events.drop_last();
    let j = choose|j: int|
        0 <= j < rest.len() && (#[trigger] rest[j]).status == HistoryStatus::Down
            && rest[j].checked_at == t && t <= now;
    assert(events[j] == rest[j]);
}

proof fn lemma_first_down_none(events: Seq<HistoryEvent>, now: i128)
    ensures
        first_down(events, now) is None <==> forall|j: int|
            0 <= j < events.len() ==> !((#[trigger] events[j]).status == HistoryStatus::Down
                && events[j].checked_at <= now),
    decreases events.len(),
{
    if events.len() > 0 {
        let rest = events.drop_last();
        lemma_first_down_none(rest, now);
        if first_down(events, now) is None {
            assert forall|j: int| 0 <= j < events.len() implies !((#[trigger] events[j]).status
                == HistoryStatus::Down && events[j].checked_at <= now) by {
                if j < rest.len() {
                    assert(events[j] == rest[j]);
                }
            }
        } else {
            if first_down(rest, now) is Some {
                let j = choose|j: int|
                    0 <= j < rest.len() && ((#[trigger] rest[j]).status == HistoryStatus::Down
                        && rest[j].checked_at <= now);
                assert(events[j] == rest[j]);
            } else {
                assert(events[events.len() - 1] == events.last());
            }
        }
    }
}

/// What the outage tracker keeps true while reading events in check-time
/// order.
pub open spec fn fold_shape(events: Seq<HistoryEvent>, now: i128) -> bool {
    let st = incident_fold(events, now);
    &&& forall|i: int, k: int|
        0 <= i < k < st.1.len() ==> (#[trigger] st.1[i]).started_at <= (#[trigger] st.1[k]).started_at
    &&& forall|i: int|
        0 <= i < st.1.len() ==> down_checked_at(events, (#[trigger] st.1[i]).started_at as int, now as int)
    &&& st.0 matches Some(inc) ==> {
        &&& down_checked_at(events, inc.started_at as int, now as int)
        &&& forall|i: int| 0 <= i < st.1.len() ==> (#[trigger] st.1[i]).started_at <= inc.started_at
        &&& !inc.includes_gap ==> inc.running_from == Some(inc.started_at) && inc.duration_seconds
            == 0
    }
    &&& events.len() > 0 ==> {
        &&& forall|i: int| 0 <= i < st.1.len() ==> (#[trigger] st.1[i]).started_at <= events.last().checked_at
        &&& st.0 matches Some(inc) ==> inc.started_at <= events.last().checked_at
    }
    &&& (st.0 is None && st.1.len() == 0) <==> first_down(events, now) is None
    &&& first_down(events, now) matches Some(d) ==> if st.1.len() > 0 {
        st.1[0].started_at == d.checked_at && st.1[0].failure_reason == d.failure_reason
    } else {
        st.0 matches Some(inc) && inc.started_at == d.checked_at && inc.failure_reason
            == d.failure_reason
    }
}

#[verifier::rlimit(40)]
proof fn lemma_fold_shape(events: Seq<HistoryEvent>, now: i128)
    requires
        sorted_by_time(events),
    ensures
        fold_shape(events, now),
    decreases events.len(),
{
    if events.len() > 0 {
        let rest = events.drop_last();
        assert(sorted_by_time(rest));
        lemma_fold_shape(rest, now);
        let prev = incident_fold(rest, now);
        let st = incident_fold(events, now);
        let e = events.last();
        if rest.len() > 0 {
            assert(rest.last() == events[events.len() - 2]);
            assert(rest.last().checked_at <= e.checked_at);
        }
        assert forall|i: int| 0 <= i < prev.1.len() implies down_checked_at(
            events,
            (#[trigger] prev.1[i]).started_at as int,
            now as int,
        ) by {
            lemma_down_lift(events, prev.1[i].started_at as int, now as int);
        }
        if prev.0 is Some {
            lemma_down_lift(events, prev.0->0.started_at as int, now as int);
        }
        if e.checked_at <= now && e.status == HistoryStatus::Down && prev.0 is None {
            assert(events[events.len() - 1] == e);
            assert(down_checked_at(events, e.checked_at as int, now as int));
        }
        if e.checked_at <= now && e.status == HistoryStatus::Up && prev.0 is Some {
            let inc = prev.0->0;
            assert(st.1 == prev.1.push(st.1.last()));
            assert forall|i: int, k: int|
                0 <= i < k < st.1.len() implies (#[trigger] st.1[i]).started_at
                <= (#[trigger] st.1[k]).started_at by {
                assert(st.1[i] == prev.1[i]);
                if k < prev.1.len() {
                    assert(st.1[k] == prev.1[k]);
                }
            }
            assert forall|i: int| 0 <= i < st.1.len() implies down_checked_at(
                events,
                (#[trigger] st.1[i]).started_at as int,
                now as int,
            ) by {
                if i < prev.1.len() {
                    assert(st.1[i] == prev.1[i]);
                }
            }
            assert forall|i: int| 0 <= i < st.1.len() implies (#[trigger] st.1[i]).started_at
                <= e.checked_at by {
                if i < prev.1.len() {
                    assert(st.1[i] == prev.1[i]);
                }
            }
            if prev.1.len() > 0 {
                assert(st.1[0] == prev.1[0]);
            }
        }
    }
}

/// The incident timeline, for events in check-time order: incidents start
/// in nondecreasing order, each at a down event checked at or before `now`;
/// the timeline is empty exactly when no such down event exists, and
/// otherwise its first incident starts at the first one and carries its
/// failure reason; an ongoing outage that saw no gap counts exactly the
/// whole seconds from its start to `now`.
pub proof fn law_incident_timeline(events: Seq<HistoryEvent>, current_status: MonitorStatus, now: i128)
    requires
        events_ok(events),
        instant_ok(now as int),
    ensures
        ({
            let spans = incidents_spec(events, current_status, now);
            &&& forall|i: int, k: int|
                0 <= i <= k < spans.len() ==> (#[trigger] spans[i]).started_at
                    <= (#[trigger] spans[k]).started_at
            &&& forall|i: int|
                0 <= i < spans.len() ==> down_checked_at(events, (#[trigger] spans[i]).started_at as int, now as int)
            &&& spans.len() == 0 <==> forall|j: int|
                0 <= j < events.len() ==> !((#[trigger] events[j]).status == HistoryStatus::Down
                    && events[j].checked_at <= now)
            &&& first_down(events, now) matches Some(d) ==> spans.len() > 0 && spans[0].started_at
                == d.checked_at && spans[0].failure_reason == d.failure_reason
            &&& forall|i: int|
                0 <= i < spans.len() && (#[trigger] spans[i]).ongoing && !spans[i].includes_gap
                    ==> spans[i].duration_seconds == run_secs(spans[i].started_at as int, now as int)
        }),
{
    lemma_fold_shape(events, now);
    lemma_first_down_none(events, now);
    let st = incident_fold(events, now);
    let spans = incidents_spec(events, current_status, now);
    crate::history::law_only_the_last_incident_is_ongoing(events, current_status, now);
    match st.0 {
        None => {
            crate::history::lemma_closed_spans_not_ongoing(events, now);
        },
        Some(inc) => {
            assert(spans == st.1.push(spans.last()));
            assert forall|i: int, k: int|
                0 <= i <= k < spans.len() implies (#[trigger] spans[i]).started_at
                <= (#[trigger] spans[k]).started_at by {
                if k < st.1.len() {
                    assert(spans[i] == st.1[i]);
                    assert(spans[k] == st.1[k]);
                } else if i < st.1.len() {
                    assert(spans[i] == st.1[i]);
                }
            }
            assert forall|i: int| 0 <= i < spans.len() implies down_checked_at(
                events,
                (#[trigger] spans[i]).started_at as int,
                now as int,
            ) by {
                if i < st.1.len() {
                    assert(spans[i] == st.1[i]);
                }
            }
            if st.1.len() > 0 {
                assert(spans[0] == st.1[0]);
            }
            let j = choose|j: int|
                0 <= j < events.len() && (#[trigger] events[j]).status == HistoryStatus::Down
                    && events[j].checked_at == inc.started_at && inc.started_at <= now;
            assert(instant_ok(events[j].checked_at as int));
            if current_status == MonitorStatus::Down && !inc.includes_gap {
                assert(run_secs(inc.started_at as int, now as int) * 1_000_000_000 <= now
                    - inc.started_at) by (nonlinear_arith)
                    requires
                        run_secs(inc.started_at as int, now as int) >= 0,
                        run_secs(inc.started_at as int, now as int) == crate::time::trunc_div(
                            now - inc.started_at,
                            1_000_000_000,
                        ),
                        now - inc.started_at >= 0,
                ;
                assert(closed_duration(inc, now as int) == run_secs(inc.started_at as int, now as int));
                assert(run_secs(inc.started_at as int, now as int) <= 20_000_000_000_000) by (nonlinear_arith)
                    requires
                        run_secs(inc.started_at as int, now as int) * 1_000_000_000 <= now - inc.started_at,
                        now <= 8_210_266_876_799 * 1_000_000_000int + 999_999_999,
                        inc.started_at >= -8_334_601_315_200 * 1_000_000_000int,
                ;
                assert(spans[spans.len() - 1].duration_seconds == run_secs(inc.started_at as int, now as int));
            }
            assert forall|i: int|
                0 <= i < spans.len() && (#[trigger] spans[i]).ongoing && !spans[i].includes_gap
                    implies spans[i].duration_seconds == run_secs(spans[i].started_at as int, now as int) by {
                assert(i == spans.len() - 1 && current_status == MonitorStatus::Down);
            }
        },
    }
    if first_down(events, now) is Some {
        assert(spans.len() > 0);
    }
}

/// What the bucketed chart produces for a window split into `target`
/// buckets.
pub open spec fn bucket_chart(
    points: Seq<HistoryPoint>,
    segs: Seq<Segment>,
    events: Seq<HistoryEvent>,
    start: int,
    end: int,
    target: int,
) -> bool {
    let bm = bucket_ms_spec(start, end, target);
    &&& points.len() <= target
    &&& points.len() == target || bucket_lo(start, bm, points.len() as int) >= end
    &&& forall|k: int| 0 <= k < points.len() ==> #[trigger] bucket_ok(points, segs, events, start, end, bm, k)
}

proof fn lemma_bucket_point_fields(
    p: HistoryPoint,
    segs: Seq<Segment>,
    events: Seq<HistoryEvent>,
    lo: int,
    hi: int,
)
    requires
        bucket_point(p, segs, events, lo, hi),
    ensures
        p.started_at@ == millis_text(lo),
        p.ended_at@ == millis_text(hi),
        p.status == bucket_status(segs, lo, hi),
        p.status == PointStatus::Gap ==> p.avg_response_time_ms is None,
{
    reveal(bucket_point);
}

proof fn lemma_next_bucket(start: int, bm: int, k: int)
    ensures
        bucket_lo(start, bm, 0) == start,
        bucket_lo(start, bm, k + 1) == bucket_lo(start, bm, k) + bm * 1_000_000,
{
    assert(bm * 0 == 0) by (nonlinear_arith);
    assert(bm * (k + 1) == bm * k + bm) by (nonlinear_arith);
}

proof fn lemma_last_bucket_reaches_end(start: int, end: int, target: int)
    requires
        start < end,
        end - start <= 30 * NANOS_PER_DAY,
        1 <= target <= 1_000_000,
        (end - start) % 1_000_000 == 0,
    ensures
        bucket_lo(start, bucket_ms_spec(start, end, target), target) >= end,
{
    let bm = bucket_ms_spec(start, end, target);
    let total = trunc_div(end - start, NANOS_PER_MILLI as int);
    assert(total == (end - start) / 1_000_000);
    vstd::arithmetic::div_mod::lemma_fundamental_div_mod(end - start, 1_000_000);
    assert(total <= 2_592_000_000) by {
        vstd::arithmetic::div_mod::lemma_div_is_ordered(end - start, 30 * NANOS_PER_DAY as int, 1_000_000);
    }
    lemma_bucket_geometry(total, target, bm, target);
    assert((bm * target) * 1_000_000 >= total * 1_000_000) by (nonlinear_arith)
        requires
            bm * target >= total,
    ;
}

/// The bucketed chart: between one and `target` points; the first starts
/// at the window's start, neighbours share their boundary, and for a window
/// of whole milliseconds the last ends at the window's end; each point's
/// status is that of the segments overlapping it, and a gap point carries
/// no average.
#[verifier::spinoff_prover]
#[verifier::rlimit(80)]
pub proof fn law_bucket_chart(
    points: Seq<HistoryPoint>,
    segs: Seq<Segment>,
    events: Seq<HistoryEvent>,
    start: i128,
    end: i128,
    target: usize,
)
    requires
        bucket_inputs_ok(segs, events, start, end, target),
        bucket_chart(points, segs, events, start as int, end as int, target as int),
    ensures
        1 <= points.len() <= target,
        points[0].started_at@ == millis_text(start as int),
        forall|k: int|
            0 <= k < points.len() - 1 ==> (#[trigger] points[k]).ended_at@ == points[k + 1].started_at@,
        (end - start) % (NANOS_PER_MILLI as int) == 0 ==> points.last().ended_at@ == millis_text(end as int),
        forall|k: int|
            0 <= k < points.len() ==> (#[trigger] points[k]).status == bucket_status(
                segs,
                bucket_lo(start as int, bucket_ms_spec(start as int, end as int, target as int), k),
                bucket_hi(start as int, end as int, bucket_ms_spec(start as int, end as int, target as int), k),
            ),
        forall|k: int|
            0 <= k < points.len() && (#[trigger] points[k]).status == PointStatus::Gap
                ==> points[k].avg_response_time_ms is None,
{
    let bm = bucket_ms_spec(start as int, end as int, target as int);
    lemma_next_bucket(start as int, bm, 0);
    assert(bucket_ok(points, segs, events, start as int, end as int, bm, 0));
    lemma_bucket_point_fields(points[0], segs, events, start as int, bucket_hi(start as int, end as int, bm, 0));
    assert forall|k: int|
        0 <= k < points.len() - 1 implies (#[trigger] points[k]).ended_at@ == points[k + 1].started_at@ by {
        assert(bucket_ok(points, segs, events, start as int, end as int, bm, k));
        assert(bucket_ok(points, segs, events, start as int, end as int, bm, k + 1));
        lemma_next_bucket(start as int, bm, k);
        lemma_bucket_point_fields(
            points[k],
            segs,
            events,
            bucket_lo(start as int, bm, k),
            bucket_hi(start as int, end as int, bm, k),
        );
        lemma_bucket_point_fields(
            points[k + 1],
            segs,
            events,
            bucket_lo(start as int, bm, k + 1),
            bucket_hi(start as int, end as int, bm, k + 1),
        );
    }
    let last = points.len() - 1;
    assert(bucket_ok(points, segs, events, start as int, end as int, bm, last));
    assert(points.last() == points[last]);
    lemma_next_bucket(start as int, bm, last);
    lemma_bucket_point_fields(
        points[last],
        segs,
        events,
        bucket_lo(start as int, bm, last),
        bucket_hi(start as int, end as int, bm, last),
    );
    if (end - start) % (NANOS_PER_MILLI as int) == 0 && points.len() == target {
        lemma_last_bucket_reaches_end(start as int, end as int, target as int);
    }
    assert forall|k: int|
        0 <= k < points.len() implies ((#[trigger] points[k]).status == bucket_status(
            segs,
            bucket_lo(start as int, bm, k),
            bucket_hi(start as int, end as int, bm, k),
        ) && (points[k].status == PointStatus::Gap ==> points[k].avg_response_time_ms is None)) by {
        assert(bucket_ok(points, segs, events, start as int, end as int, bm, k));
        lemma_bucket_point_fields(
            points[k],
            segs,
            events,
            bucket_lo(start as int, bm, k),
            bucket_hi(start as int, end as int, bm, k),
        );
    }
}

/// The chart of a history view, for events in check-time order: at least
/// one point; the first starts at the range's start and the last ends at
/// `now`; neighbours share their boundary; the day range shows one point per
/// segment and never a mixed one; the longer ranges show at most 500
/// buckets, and a gap bucket carries no average.
#[verifier::spinoff_prover]
#[verifier::rlimit(80)]
pub proof fn law_history_points(
    points: Seq<HistoryPoint>,
    events: Seq<HistoryEvent>,
    range: HistoryRange,
    now: i128,
)
    requires
        events_ok(events),
        now_ok(now),
        points_for(
            points,
            segments_spec(events, (now - range.nanos()) as i128, now),
            events,
            range,
            now - range.nanos(),
            now as int,
        ),
    ensures
        points.len() > 0,
        points[0].started_at@ == millis_text(now - range.nanos()),
        points.last().ended_at@ == millis_text(now as int),
        forall|k: int|
            0 <= k < points.len() - 1 ==> (#[trigger] points[k]).ended_at@ == points[k + 1].started_at@,
        range == HistoryRange::Day ==> forall|k: int|
            0 <= k < points.len() ==> (#[trigger] points[k]).status != PointStatus::Mixed,
        range != HistoryRange::Day ==> points.len() <= 500,
        range != HistoryRange::Day ==> forall|k: int|
            0 <= k < points.len() && (#[trigger] points[k]).status == PointStatus::Gap
                ==> points[k].avg_response_time_ms is None,
{
    let start = (now - range.nanos()) as i128;
    let segs = segments_spec(events, start, now);
    law_segments_tile_window(events, start, now);
    assert(tiles(segs, start as int, now as int));
    if range == HistoryRange::Day {
        assert(segs.len() > 0);
        assert(points.last() == points[points.len() - 1]);
        assert(segs.last() == segs[segs.len() - 1]);
        assert forall|k: int|
            0 <= k < points.len() - 1 implies (#[trigger] points[k]).ended_at@ == points[k + 1].started_at@ by {
            assert(segs[k].ended_at == segs[k + 1].started_at);
        }
        assert forall|k: int| 0 <= k < points.len() implies (#[trigger] points[k]).status != PointStatus::Mixed by {
            assert(point_of(segs[k].status) != PointStatus::Mixed);
        }
    } else {
        assert(bucket_inputs_ok(segs, events, start, now, 500usize));
        assert((now - start) % (NANOS_PER_MILLI as int) == 0);
        law_bucket_chart(points, segs, events, start, now, 500usize);
    }
}

proof fn lemma_text_lt_asymmetric(a: Seq<char>, b: Seq<char>)
    ensures
        text_lt(a, b) ==> !text_lt(b, a),
    decreases a.len(),
{
    if a.len() > 0 && b.len() > 0 && a[0] == b[0] {
        lemma_text_lt_asymmetric(a.drop_first(), b.drop_first());
    }
}

/// Rendered starts never increase along the list.
pub open spec fn newest_first(s: Seq<IncidentSpan>) -> bool {
    forall|k: int| 0 <= k < s.len() - 1 ==> !text_lt(span_key(#[trigger] s[k]), span_key(s[k + 1]))
}

proof fn lemma_insert_desc_sorted(sorted: Seq<IncidentSpan>, x: IncidentSpan)
    requires
        newest_first(sorted),
    ensures
        newest_first(insert_desc(sorted, x)),
        insert_desc(sorted, x).len() == sorted.len() + 1,
        insert_desc(sorted, x)[0] == x || (sorted.len() > 0 && insert_desc(sorted, x)[0] == sorted[0]),
    decreases sorted.len(),
{
    let out = insert_desc(sorted, x);
    if sorted.len() == 0 {
    } else if text_lt(span_key(sorted[0]), span_key(x)) {
        lemma_text_lt_asymmetric(span_key(sorted[0]), span_key(x));
        assert forall|k: int| 0 <= k < out.len() - 1 implies !text_lt(span_key(#[trigger] out[k]), span_key(out[k + 1])) by {
            if k > 0 {
                assert(out[k] == sorted[k - 1]);
                assert(out[k + 1] == sorted[k]);
            }
        }
    } else {
        let rest = sorted.drop_first();
        assert forall|k: int| 0 <= k < rest.len() - 1 implies !text_lt(span_key(#[trigger] rest[k]), span_key(rest[k + 1])) by {
            assert(rest[k] == sorted[k + 1]);
            assert(rest[k + 1] == sorted[k + 2]);
        }
        lemma_insert_desc_sorted(rest, x);
        let r = insert_desc(rest, x);
        if rest.len() > 0 {
            assert(rest[0] == sorted[1]);
        }
        assert forall|k: int| 0 <= k < out.len() - 1 implies !text_lt(span_key(#[trigger] out[k]), span_key(out[k + 1])) by {
            assert(out[k + 1] == r[k]);
            if k > 0 {
                assert(out[k] == r[k - 1]);
            }
        }
    }
}

proof fn lemma_insert_desc_position(sorted: Seq<IncidentSpan>, x: IncidentSpan) -> (p: int)
    ensures
        0 <= p <= sorted.len(),
        insert_desc(sorted, x) == sorted.insert(p, x),
    decreases sorted.len(),
{
    if sorted.len() == 0 {
        assert(insert_desc(sorted, x) =~= sorted.insert(0, x));
        0
    } else if text_lt(span_key(sorted[0]), span_key(x)) {
        assert(insert_desc(sorted, x) =~= sorted.insert(0, x));
        0
    } else {
        let rest = sorted.drop_first();
        let q = lemma_insert_desc_position(rest, x);
        assert(insert_desc(sorted, x) =~= sorted.insert(q + 1, x));
        q + 1
    }
}

proof fn lemma_sort_desc(s: Seq<IncidentSpan>)
    ensures
        newest_first(sort_desc(s)),
        sort_desc(s).to_multiset() == s.to_multiset(),
    decreases s.len(),
{
    broadcast use vstd::seq_lib::to_multiset_insert, vstd::seq_lib::to_multiset_build;

    if s.len() > 0 {
        let rest = s.drop_last();
        lemma_sort_desc(rest);
        lemma_insert_desc_sorted(sort_desc(rest), s.last());
        let p = lemma_insert_desc_position(sort_desc(rest), s.last());
        assert(sort_desc(rest).insert(p, s.last()).to_multiset() == sort_desc(rest).to_multiset().insert(s.last()));
        assert(rest.push(s.last()) == s);
        assert(rest.push(s.last()).to_multiset() == rest.to_multiset().insert(s.last()));
    } else {
        assert(sort_desc(s) == s);
    }
}

proof fn lemma_shown_spans(spans: Seq<IncidentSpan>, start: int)
    ensures
        forall|x: IncidentSpan| shown_spans(spans, start).contains(x) <==> (spans.contains(x)
            && shown_in_window(x, start)),
    decreases spans.len(),
{
    if spans.len() > 0 {
        let rest = spans.drop_last();
        lemma_shown_spans(rest, start);
        let f = shown_spans(rest, start);
        assert forall|x: IncidentSpan| shown_spans(spans, start).contains(x) <==> (spans.contains(x)
            && shown_in_window(x, start)) by {
            if spans.contains(x) {
                let j = choose|j: int| 0 <= j < spans.len() && spans[j] == x;
                if j < rest.len() {
                    assert(rest[j] == x);
                    assert(rest.contains(x));
                }
            }
            if rest.contains(x) {
                let j = choose|j: int| 0 <= j < rest.len() && rest[j] == x;
                assert(spans[j] == x);
            }
            if shown_in_window(spans.last(), start) {
                assert(f.push(spans.last())[f.len() as int] == spans.last());
                if f.contains(x) {
                    let j = choose|j: int| 0 <= j < f.len() && f[j] == x;
                    assert(f.push(spans.last())[j] == x);
                }
                if f.push(spans.last()).contains(x) {
                    let j = choose|j: int| 0 <= j < f.len() + 1 && f.push(spans.last())[j] == x;
                    if j < f.len() {
                        assert(f[j] == x);
                    }
                }
            }
            assert(spans[spans.len() - 1] == spans.last());
        }
    }
}

/// The incident timeline a history view shows: exactly the incidents that
/// are ongoing or whose rendered end reads back at or after the range's
/// start (so an incident still open at `now` while the monitor is down is
/// always shown), ordered newest rendered start first.
pub proof fn law_history_incidents(
    events: Seq<HistoryEvent>,
    current_status: MonitorStatus,
    start: int,
    now: i128,
)
    ensures
        ({
            let spans = incidents_spec(events, current_status, now);
            let shown = sort_desc(shown_spans(spans, start));
            &&& newest_first(shown)
            &&& forall|x: IncidentSpan| #[trigger] shown.contains(x) <==> (spans.contains(x)
                && shown_in_window(x, start))
            &&& forall|x: IncidentSpan| spans.contains(x) && x.ongoing ==> #[trigger] shown.contains(x)
        }),
{
    broadcast use vstd::seq_lib::to_multiset_contains;

    let spans = incidents_spec(events, current_status, now);
    let f = shown_spans(spans, start);
    let shown = sort_desc(f);
    lemma_sort_desc(f);
    lemma_shown_spans(spans, start);
    assert forall|x: IncidentSpan| #[trigger] shown.contains(x) <==> f.contains(x) by {
        assert(shown.contains(x) <==> shown.to_multiset().count(x) > 0);
        assert(f.contains(x) <==> f.to_multiset().count(x) > 0);
    }
}

proof fn lemma_prior_state_beyond(events: Seq<HistoryEvent>, m: int, a: int)
    requires
        0 <= m <= events.len(),
        forall|j: int| m <= j < events.len() ==> (#[trigger] events[j]).checked_at > a,
    ensures
        prior_state(events, a) == prior_state(events.take(m), a),
    decreases events.len(),
{
    if events.len() == m {
        assert(events.take(m) =~= events);
    } else {
        let rest = events.drop_last();
        assert(events[events.len() - 1] == events.last());
        assert forall|j: int| m <= j < rest.len() implies (#[trigger] rest[j]).checked_at > a by {
            assert(rest[j] == events[j]);
        }
        lemma_prior_state_beyond(rest, m, a);
        assert(rest.take(m) =~= events.take(m));
    }
}

proof fn lemma_prior_state_stable(events: Seq<HistoryEvent>, a: int, t: int)
    requires
        a <= t,
        forall|j: int| 0 <= j < events.len() ==> !(a < (#[trigger] events[j]).checked_at <= t),
    ensures
        prior_state(events, t) == prior_state(events, a),
    decreases events.len(),
{
    if events.len() > 0 {
        let rest = events.drop_last();
        assert(events[events.len() - 1] == events.last());
        assert forall|j: int| 0 <= j < rest.len() implies !(a < (#[trigger] rest[j]).checked_at <= t) by {
            assert(rest[j] == events[j]);
        }
        lemma_prior_state_stable(rest, a, t);
    }
}

/// A segment shows the state in force at its start, and no event is checked
/// strictly inside it.
pub open spec fn reads_latest(events: Seq<HistoryEvent>, s: Segment) -> bool {
    &&& prior_state(events, s.started_at as int) == (s.status, s.response_time_ms)
    &&& forall|j: int|
        0 <= j < events.len() ==> !(s.started_at < (#[trigger] events[j]).checked_at < s.ended_at)
}

spec fn fold_reading(events: Seq<HistoryEvent>, start: i128, end: i128, n: int) -> bool {
    let acc = seg_fold(events.take(n), start, end, seg_init(events, start));
    &&& forall|i: int| 0 <= i < acc.3.len() ==> reads_latest(events, #[trigger] acc.3[i])
    &&& start <= acc.0 < end
    &&& acc.0 == start ==> (acc.1, acc.2) == prior_state(events, start as int)
    &&& acc.0 > start ==> n > 0 && events[n - 1].checked_at >= acc.0 && (acc.1, acc.2)
        == prior_state(events.take(n), acc.0 as int)
    &&& forall|j: int| 0 <= j < n ==> (#[trigger] events[j]).checked_at <= acc.0 || events[j].checked_at >= end
}

#[verifier::rlimit(60)]
proof fn lemma_fold_reading(events: Seq<HistoryEvent>, start: i128, end: i128, n: int)
    requires
        sorted_by_time(events),
        start < end,
        0 <= n <= events.len(),
    ensures
        fold_reading(events, start, end, n),
    decreases n,
{
    let init = seg_init(events, start);
    if n == 0 {
        assert(events.take(0).len() == 0);
    } else {
        lemma_fold_reading(events, start, end, n - 1);
        let pre = events.take(n - 1);
        let cur = events.take(n);
        assert(cur.drop_last() =~= pre);
        assert(cur.last() == events[n - 1]);
        let prev = seg_fold(pre, start, end, init);
        let acc = seg_fold(cur, start, end, init);
        let e = events[n - 1];
        assert(acc == seg_step(prev, e, start, end));
        if n >= 2 {
            assert(events[n - 2].checked_at <= e.checked_at);
        }
        assert forall|j: int| n - 1 <= j < events.len() implies (#[trigger] events[j]).checked_at
            >= e.checked_at by {
        }
        if start < e.checked_at && e.checked_at < end {
            assert(prior_state(cur, e.checked_at as int) == (e.status, e.response_time_ms));
            if e.checked_at > prev.0 {
                let seg = acc.3.last();
                assert(acc.3 == prev.3.push(seg));
                assert forall|j: int| n - 1 <= j < events.len() implies (#[trigger] events[j]).checked_at
                    > prev.0 by {
                }
                lemma_prior_state_beyond(events, n - 1, prev.0 as int);
                assert forall|j: int|
                    0 <= j < events.len() implies !(seg.started_at < (#[trigger] events[j]).checked_at
                    < seg.ended_at) by {
                    if j < n - 1 {
                        assert(events[j].checked_at <= e.checked_at);
                    }
                }
                assert(reads_latest(events, seg));
                assert forall|i: int| 0 <= i < acc.3.len() implies reads_latest(events, #[trigger] acc.3[i]) by {
                    if i < prev.3.len() {
                        assert(acc.3[i] == prev.3[i]);
                    }
                }
            }
        } else {
            if prev.0 > start {
                assert(e.checked_at >= prev.0);
                assert(e.checked_at >= end);
                assert(prior_state(cur, prev.0 as int) == prior_state(pre, prev.0 as int));
            }
        }
    }
}

/// For events in check-time order, each segment of a window shows, at every
/// instant inside it, the state of the latest event checked at or before
/// that instant (unknown time when there is none); so the uptime of a window
/// is the share of its observed time whose latest event was up.
pub proof fn law_segments_read_latest_event(events: Seq<HistoryEvent>, start: i128, end: i128)
    requires
        sorted_by_time(events),
    ensures
        forall|i: int, t: int|
            0 <= i < segments_spec(events, start, end).len() && (#[trigger] segments_spec(
                events,
                start,
                end,
            )[i]).started_at <= t < segments_spec(events, start, end)[i].ended_at ==> #[trigger] prior_state(events, t)
                == (segments_spec(events, start, end)[i].status, segments_spec(events, start, end)[i].response_time_ms),
{
    let segs = segments_spec(events, start, end);
    if start < end {
        lemma_fold_reading(events, start, end, events.len() as int);
        assert(events.take(events.len() as int) =~= events);
        let acc = seg_fold(events, start, end, seg_init(events, start));
        let last = Segment { started_at: acc.0, ended_at: end, status: acc.1, response_time_ms: acc.2 };
        assert(segs == acc.3.push(last));
        assert(reads_latest(events, last));
        assert forall|i: int, t: int|
            0 <= i < segs.len() && (#[trigger] segs[i]).started_at <= t < segs[i].ended_at implies #[trigger] prior_state(events, t)
                == (segs[i].status, segs[i].response_time_ms) by {
            if i < acc.3.len() {
                assert(segs[i] == acc.3[i]);
            }
            assert(reads_latest(events, segs[i]));
            lemma_prior_state_stable(events, segs[i].started_at as int, t);
        }
    }
}

/// Whole milliseconds of the segments in the given state.
pub open spec fn status_ms(segs: Seq<Segment>, st: HistoryStatus) -> int
    decreases segs.len(),
{
    if segs.len() == 0 {
        0
    } else {
        status_ms(segs.drop_last(), st) + if segs.last().status == st {
            seg_ms(segs.last())
        } else {
            0
        }
    }
}

proof fn lemma_status_ms(segs: Seq<Segment>)
    ensures
        up_ms(segs) == status_ms(segs, HistoryStatus::Up),
        observed_ms(segs) == status_ms(segs, HistoryStatus::Up) + status_ms(segs, HistoryStatus::Down),
    decreases segs.len(),
{
    if segs.len() > 0 {
        lemma_status_ms(segs.drop_last());
    }
}

/// The window `[start, end)` is split into consecutive stretches, and at
/// every instant of a stretch the latest event checked at or before that
/// instant has the stretch's state (unknown time when there is none).
pub open spec fn latest_event_reading(events: Seq<HistoryEvent>, start: i128, end: i128) -> bool {
    let segs = segments_spec(events, start, end);
    &&& tiles(segs, start as int, end as int)
    &&& forall|i: int, t: int|
        0 <= i < segs.len() && (#[trigger] segs[i]).started_at <= t < segs[i].ended_at
            ==> #[trigger] prior_state(events, t).0 == segs[i].status
}

/// Uptime read from the latest event: `U` and `D` are the milliseconds of
/// the window whose latest event is up, resp. down (gap or no event counts
/// as neither); the ratio is `U` over `U + D`, and none when `U + D` is 0.
pub open spec fn uptime_by_latest(events: Seq<HistoryEvent>, start: i128, end: i128) -> Option<UptimeRatio> {
    let segs = segments_spec(events, start, end);
    let u = status_ms(segs, HistoryStatus::Up);
    let d = status_ms(segs, HistoryStatus::Down);
    if u + d > 0 {
        Some(UptimeRatio { up_ms: u as i64, observed_ms: (u + d) as i64 })
    } else {
        None
    }
}

/// A window's uptime is the latest-event reading: for events in check-time
/// order and a nonempty window, the window splits into stretches whose
/// state is that of the latest event at or before each instant, and the
/// uptime is the up share of the time whose latest event is up or down.
pub proof fn law_window_uptime(events: Seq<HistoryEvent>, start: i128, end: i128)
    requires
        sorted_by_time(events),
        start < end,
    ensures
        latest_event_reading(events, start, end),
        uptime_spec(segments_spec(events, start, end)) == uptime_by_latest(events, start, end),
{
    let segs = segments_spec(events, start, end);
    law_segments_tile_window(events, start, end);
    law_segments_read_latest_event(events, start, end);
    lemma_status_ms(segs);
    assert forall|i: int, t: int|
        0 <= i < segs.len() && (#[trigger] segs[i]).started_at <= t < segs[i].ended_at implies #[trigger] prior_state(events, t).0
            == segs[i].status by {
        assert(prior_state(events, t) == (segs[i].status, segs[i].response_time_ms));
    }
}

/// The uptime statistics read the latest event: for events in check-time
/// order, each of the 24-hour, 7-day and 30-day uptimes is the up share of
/// the window's time whose latest event is up or down (none when there is
/// no such time), over a window split into stretches that each carry the
/// latest event's state; the 24-hour average is the total and count of the
/// response times of the events checked in the last 24 hours (none when
/// there are none); the last check time and current status are returned as
/// given.
pub proof fn law_uptime_stats(
    events: Seq<HistoryEvent>,
    current_status: MonitorStatus,
    last_check_at: Option<String>,
    now: i128,
    r: UptimeStats,
)
    requires
        events_ok(events),
        now_ok(now),
        r.uptime_24h == uptime_spec(segments_spec(events, (now - NANOS_PER_DAY) as i128, now)),
        r.uptime_7d == uptime_spec(segments_spec(events, (now - 7 * NANOS_PER_DAY) as i128, now)),
        r.uptime_30d == uptime_spec(segments_spec(events, (now - 30 * NANOS_PER_DAY) as i128, now)),
        r.avg_response_time_ms_24h == window_stats(events, now - NANOS_PER_DAY, now as int),
        r.last_check_at == last_check_at,
        r.current_status == current_status,
    ensures
        latest_event_reading(events, (now - NANOS_PER_DAY) as i128, now),
        latest_event_reading(events, (now - 7 * NANOS_PER_DAY) as i128, now),
        latest_event_reading(events, (now - 30 * NANOS_PER_DAY) as i128, now),
        r.uptime_24h == uptime_by_latest(events, (now - NANOS_PER_DAY) as i128, now),
        r.uptime_7d == uptime_by_latest(events, (now - 7 * NANOS_PER_DAY) as i128, now),
        r.uptime_30d == uptime_by_latest(events, (now - 30 * NANOS_PER_DAY) as i128, now),
        r.avg_response_time_ms_24h == window_stats(events, now - NANOS_PER_DAY, now as int),
        r.last_check_at == last_check_at,
        r.current_status == current_status,
{
    law_window_uptime(events, (now - NANOS_PER_DAY) as i128, now);
    law_window_uptime(events, (now - 7 * NANOS_PER_DAY) as i128, now);
    law_window_uptime(events, (now - 30 * NANOS_PER_DAY) as i128, now);
}

/// Tenths of a percent are the uptime share rounded to the nearest tenth:
/// `r` differs from `1000 * up / observed` by at most one half, so no uptime
/// gives 0 and full uptime gives 1000, and the result never leaves
/// `0..=1000`.
pub proof fn law_tenths_round_the_share(u: UptimeRatio)
    requires
        0 <= u.up_ms <= u.observed_ms,
        u.observed_ms > 0,
    ensures
        2 * (u.tenths_spec() * u.observed_ms - 1000 * u.up_ms) <= u.observed_ms,
        2 * (1000 * u.up_ms - u.tenths_spec() * u.observed_ms) < u.observed_ms,
        0 <= u.tenths_spec() <= 1000,
        u.up_ms == 0 ==> u.tenths_spec() == 0,
        u.up_ms == u.observed_ms ==> u.tenths_spec() == 1000,
{
    let o = u.observed_ms as int;
    let up = u.up_ms as int;
    let q = u.tenths_spec();
    vstd::arithmetic::div_mod::lemma_fundamental_div_mod(2000 * up + o, 2 * o);
    let rem = (2000 * up + o) % (2 * o);
    assert(0 <= rem < 2 * o);
    assert(2000 * up + o == 2 * o * q + rem);
    assert(2 * (q * o - 1000 * up) <= o) by (nonlinear_arith)
        requires
            2000 * up + o == 2 * o * q + rem,
            0 <= rem,
    ;
    assert(2 * (1000 * up - q * o) < o) by (nonlinear_arith)
        requires
            2000 * up + o == 2 * o * q + rem,
            rem < 2 * o,
    ;
    assert(0 <= q <= 1000) by (nonlinear_arith)
        requires
            2 * (q * o - 1000 * up) <= o,
            2 * (1000 * up - q * o) < o,
            0 <= up <= o,
            o > 0,
    ;
    if up == 0 {
        assert(q == 0) by (nonlinear_arith)
            requires
                2 * (q * o - 1000 * up) <= o,
                2 * (1000 * up - q * o) < o,
                up == 0,
                o > 0,
        ;
    }
    if up == o {
        assert(q == 1000) by (nonlinear_arith)
            requires
                2 * (q * o - 1000 * up) <= o,
                2 * (1000 * up - q * o) < o,
                up == o,
                o > 0,
        ;
    }
}

/// Some segment with the given state overlaps the interval `(lo, hi)`.
pub open spec fn state_seen(segs: Seq<Segment>, lo: int, hi: int, st: HistoryStatus) -> bool {
    exists|i: int|
        0 <= i < segs.len() && (#[trigger] segs[i]).started_at < hi && segs[i].ended_at > lo
            && segs[i].status == st
}

/// How a chart bucket is coloured: any unknown (gap) time in it makes it a
/// gap, whatever else it holds; otherwise up and down time together make
/// it mixed, one of them alone gives that state, and a bucket that saw
/// nothing is a gap.
pub proof fn law_bucket_colour(segs: Seq<Segment>, lo: int, hi: int)
    ensures
        state_seen(segs, lo, hi, HistoryStatus::Gap) ==> bucket_status(segs, lo, hi) == PointStatus::Gap,
        !state_seen(segs, lo, hi, HistoryStatus::Gap) && state_seen(segs, lo, hi, HistoryStatus::Up)
            && state_seen(segs, lo, hi, HistoryStatus::Down) ==> bucket_status(segs, lo, hi)
            == PointStatus::Mixed,
        !state_seen(segs, lo, hi, HistoryStatus::Gap) && state_seen(segs, lo, hi, HistoryStatus::Up)
            && !state_seen(segs, lo, hi, HistoryStatus::Down) ==> bucket_status(segs, lo, hi)
            == PointStatus::Up,
        !state_seen(segs, lo, hi, HistoryStatus::Gap) && !state_seen(segs, lo, hi, HistoryStatus::Up)
            && state_seen(segs, lo, hi, HistoryStatus::Down) ==> bucket_status(segs, lo, hi)
            == PointStatus::Down,
        !state_seen(segs, lo, hi, HistoryStatus::Gap) && !state_seen(segs, lo, hi, HistoryStatus::Up)
            && !state_seen(segs, lo, hi, HistoryStatus::Down) ==> bucket_status(segs, lo, hi)
            == PointStatus::Gap,
{
    reveal(has_status_in);
    assert(forall|st: HistoryStatus| has_status(segs, lo, hi, st) == state_seen(segs, lo, hi, st));
}

} // verus!
