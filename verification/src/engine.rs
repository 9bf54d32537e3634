//! Background check scheduling.
//!
//! A tick every 30 seconds collects the monitors that are due and checks
//! them concurrently (at most `MAX_IN_FLIGHT` at once). A monitor is due when
//! uptime checking is enabled and any of these hold:
//!
//! - it is still `not_yet_checked` (including after failures that haven't
//!   crossed the down threshold yet) or has no recorded check time — new
//!   monitors resolve to a visible status quickly,
//! - it is currently `down` — failing monitors are re-checked every tick,
//!   interval ignored, so recovery is detected quickly,
//! - its check interval has elapsed since the last check.
//!
//! After each cycle that touched at least one monitor, a `check-completed`
//! event carries the affected monitor ids to the user interface. The timers,
//! the requests and the database writes run in the application layer; this
//! module decides what they act on.

use vstd::prelude::*;
use vstd::string::*;

use crate::error::AppError;
use crate::store::uptime_status::{lemma_status_texts, DOWN, NOT_YET_CHECKED, UP};
use crate::store::{Monitor, RecordedCertificateCheck, RecordedCheck, HISTORY_RETENTION_DAYS};
use crate::text::str_eq;
use crate::time::{minutes_between, minutes_since, parse_timestamp, parsed_instant, time_bounded, NANOS_PER_DAY};

verus! {

/// Seconds between scheduler ticks.
pub const TICK_INTERVAL_SECS: u64 = 30;
/// Checks running at once, at most.
pub const MAX_IN_FLIGHT: usize = 10;
/// Seconds between history retention runs.
pub const RETENTION_INTERVAL_SECS: u64 = 86_400;
/// Rows deleted per retention batch.
pub const RETENTION_BATCH_SIZE: usize = 5_000;

/// Event name the user interface listens for after each completed cycle.
pub const CHECK_COMPLETED_EVENT: &'static str = "check-completed";

/// The ids of the monitors a cycle touched.
#[derive(Debug, Clone)]
pub struct CheckCompletedPayload {
    pub monitor_ids: Vec<i64>,
}

/// What one scheduler cycle produced.
#[derive(Debug, Clone)]
pub enum SchedulerOutcome {
    Checked(Vec<i64>),
    Complete,
}

/// The uptime due rule (see the module documentation).
pub open spec fn due_spec(m: Monitor, now: int) -> bool {
    &&& m.uptime_check_enabled
    &&& m.uptime_status@ == NOT_YET_CHECKED@ || m.uptime_status@ == DOWN@ || match m.last_check_at {
        None => true,
        Some(last) => match parsed_instant(last@) {
            // An unparseable timestamp never hides a monitor forever.
            None => true,
            Some(t) => minutes_between(now, t) >= m.check_interval_minutes,
        },
    }
}

/// Whether the monitor is due for an uptime check at `now`.
pub fn is_due(monitor: &Monitor, now: i128) -> (r: bool)
    requires
        time_bounded(now as int),
    ensures
        r == due_spec(*monitor, now as int),
{
    if !monitor.uptime_check_enabled {
        return false;
    }
    if str_eq(monitor.uptime_status.as_str(), NOT_YET_CHECKED) || str_eq(
        monitor.uptime_status.as_str(),
        DOWN,
    ) {
        return true;
    }
    match &monitor.last_check_at {
        None => true,
        Some(last) => match parse_timestamp(last.as_str()) {
            None => true,
            Some(t) => minutes_since(now, t) >= monitor.check_interval_minutes as i128,
        },
    }
}

/// The positions, in order, of the monitors that satisfy `pred`.
pub open spec fn positions(ms: Seq<Monitor>, pred: spec_fn(Monitor) -> bool) -> Seq<int>
    decreases ms.len(),
{
    if ms.len() == 0 {
        Seq::empty()
    } else {
        let rest = positions(ms.drop_last(), pred);
        if pred(ms.last()) {
            rest.push(ms.len() - 1)
        } else {
            rest
        }
    }
}

proof fn lemma_positions_step(ms: Seq<Monitor>, pred: spec_fn(Monitor) -> bool, i: int)
    requires
        0 <= i < ms.len(),
    ensures
        positions(ms.take(i + 1), pred) == (if pred(ms[i]) {
            positions(ms.take(i), pred).push(i)
        } else {
            positions(ms.take(i), pred)
        }),
{
    assert(ms.take(i + 1).drop_last() =~= ms.take(i));
    assert(ms.take(i + 1).last() == ms[i]);
}

/// `r` lists exactly the given positions.
pub open spec fn lists(r: Seq<usize>, expected: Seq<int>) -> bool {
    r.len() == expected.len() && forall|k: int| 0 <= k < r.len() ==> r[k] as int == expected[k]
}

/// The positions of the monitors due for an uptime check at `now`, in
/// list order.
pub fn due_for_uptime(monitors: &[Monitor], now: i128) -> (r: Vec<usize>)
    requires
        time_bounded(now as int),
    ensures
        lists(r@, positions(monitors@, |m: Monitor| due_spec(m, now as int))),
{
    let ghost pred = |m: Monitor| due_spec(m, now as int);
    let mut r: Vec<usize> = Vec::new();
    let mut i: usize = 0;
    while i < monitors.len()
        invariant
            i <= monitors.len(),
            time_bounded(now as int),
            pred == (|m: Monitor| due_spec(m, now as int)),
            lists(r@, positions(monitors@.take(i as int), pred)),
        decreases monitors.len() - i,
    {
        proof {
            lemma_positions_step(monitors@, pred, i as int);
        }
        if is_due(&monitors[i], now) {
            r.push(i);
        }
        i = i + 1;
    }
    assert(monitors@.take(monitors.len() as int) =~= monitors@);
    r
}

/// The positions of the monitors whose certificate is due at `now`, in
/// list order.
pub fn due_for_certificate(monitors: &[Monitor], now: i128) -> (r: Vec<usize>)
    requires
        time_bounded(now as int),
    ensures
        lists(r@, positions(monitors@, |m: Monitor| crate::certificate::due_spec(m, now as int))),
{
    let ghost pred = |m: Monitor| crate::certificate::due_spec(m, now as int);
    let mut r: Vec<usize> = Vec::new();
    let mut i: usize = 0;
    while i < monitors.len()
        invariant
            i <= monitors.len(),
            time_bounded(now as int),
            pred == (|m: Monitor| crate::certificate::due_spec(m, now as int)),
            lists(r@, positions(monitors@.take(i as int), pred)),
        decreases monitors.len() - i,
    {
        proof {
            lemma_positions_step(monitors@, pred, i as int);
        }
        if crate::certificate::is_due(&monitors[i], now) {
            r.push(i);
        }
        i = i + 1;
    }
    assert(monitors@.take(monitors.len() as int) =~= monitors@);
    r
}

/// `j` is the position of the first monitor with the given id.
pub open spec fn first_with_id(ms: Seq<Monitor>, id: i64, j: int) -> bool {
    0 <= j < ms.len() && ms[j].id == id && forall|k: int| 0 <= k < j ==> ms[k].id != id
}

/// No monitor has the given id.
pub open spec fn no_such_id(ms: Seq<Monitor>, id: i64) -> bool {
    forall|k: int| 0 <= k < ms.len() ==> ms[k].id != id
}

fn find_id(monitors: &[Monitor], id: i64) -> (r: Option<usize>)
    ensures
        match r {
            Some(j) => first_with_id(monitors@, id, j as int),
            None => no_such_id(monitors@, id),
        },
{
    let mut i: usize = 0;
    while i < monitors.len()
        invariant
            i <= monitors.len(),
            forall|k: int| 0 <= k < i ==> monitors@[k].id != id,
        decreases monitors.len() - i,
    {
        if monitors[i].id == id {
            return Some(i);
        }
        i = i + 1;
    }
    None
}

/// Picks the monitors asked for by id, in the order asked, whatever their
/// schedule says: `NotFound` when any id names no monitor, so an unknown id
/// fails the whole call.
pub fn select_by_ids(monitors: &[Monitor], ids: &[i64]) -> (r: Result<Vec<usize>, AppError>)
    ensures
        match r {
            Ok(found) => found.len() == ids.len() && forall|k: int|
                0 <= k < ids.len() ==> #[trigger] first_with_id(monitors@, ids@[k], found@[k] as int),
            Err(e) => e == AppError::NotFound && exists|k: int|
                0 <= k < ids.len() && #[trigger] no_such_id(monitors@, ids@[k]),
        },
{
    let mut found: Vec<usize> = Vec::new();
    let mut i: usize = 0;
    while i < ids.len()
        invariant
            i <= ids.len(),
            found.len() == i,
            forall|k: int| 0 <= k < i ==> #[trigger] first_with_id(monitors@, ids@[k], found@[k] as int),
        decreases ids.len() - i,
    {
        match find_id(monitors, ids[i]) {
            Some(j) => {
                let ghost before = found@;
                found.push(j);
                assert(forall|k: int| 0 <= k < i ==> found@[k] == before[k]);
            },
            None => {
                assert(no_such_id(monitors@, ids@[i as int]));
                return Err(AppError::NotFound);
            },
        }
        i = i + 1;
    }
    Ok(found)
}

/// The ids of the monitors a batch of uptime checks touched, in order.
pub fn checked_ids(recorded: &[RecordedCheck]) -> (r: Vec<i64>)
    ensures
        r.len() == recorded.len(),
        forall|k: int| 0 <= k < r.len() ==> r@[k] == recorded@[k].after.id,
{
    let mut r: Vec<i64> = Vec::new();
    let mut i: usize = 0;
    while i < recorded.len()
        invariant
            i <= recorded.len(),
            r.len() == i,
            forall|k: int| 0 <= k < i ==> r@[k] == recorded@[k].after.id,
        decreases recorded.len() - i,
    {
        r.push(recorded[i].after.id);
        i = i + 1;
    }
    r
}

/// The ids of the monitors a batch of certificate checks touched, in order.
pub fn certificate_checked_ids(recorded: &[RecordedCertificateCheck]) -> (r: Vec<i64>)
    ensures
        r.len() == recorded.len(),
        forall|k: int| 0 <= k < r.len() ==> r@[k] == recorded@[k].after.id,
{
    let mut r: Vec<i64> = Vec::new();
    let mut i: usize = 0;
    while i < recorded.len()
        invariant
            i <= recorded.len(),
            r.len() == i,
            forall|k: int| 0 <= k < i ==> r@[k] == recorded@[k].after.id,
        decreases recorded.len() - i,
    {
        r.push(recorded[i].after.id);
        i = i + 1;
    }
    r
}

/// The event a finished cycle emits: the touched ids, when there are any.
pub fn completion_payload(outcome: SchedulerOutcome) -> (r: Option<CheckCompletedPayload>)
    ensures
        match outcome {
            SchedulerOutcome::Checked(ids) => if ids.len() > 0 {
                r matches Some(p) && p.monitor_ids@ == ids@
            } else {
                r is None
            },
            SchedulerOutcome::Complete => r is None,
        },
{
    match outcome {
        SchedulerOutcome::Checked(monitor_ids) => if monitor_ids.len() > 0 {
            Some(CheckCompletedPayload { monitor_ids })
        } else {
            None
        },
        SchedulerOutcome::Complete => None,
    }
}

/// History older than this instant is pruned: `HISTORY_RETENTION_DAYS`
/// before `now`.
pub fn retention_cutoff(now: i128) -> (r: i128)
    requires
        time_bounded(now as int),
    ensures
        r == now - HISTORY_RETENTION_DAYS * NANOS_PER_DAY,
{
    now - (HISTORY_RETENTION_DAYS as i128) * NANOS_PER_DAY
}

/// After a retention batch deleted `batch` rows: the running total, and
/// whether another batch follows (a full batch may have left more behind).
pub fn after_prune_batch(deleted: usize, batch: usize) -> (r: (usize, bool))
    requires
        deleted + batch <= usize::MAX,
    ensures
        r.0 == deleted + batch,
        r.1 == (batch >= RETENTION_BATCH_SIZE),
{
    (deleted + batch, batch >= RETENTION_BATCH_SIZE)
}

/// A down monitor is due on every tick, and a monitor whose uptime checking
/// is disabled never is, whatever its history.
pub proof fn law_down_monitors_checked_every_tick(m: Monitor, now: int)
    ensures
        m.uptime_check_enabled && m.uptime_status@ == DOWN@ ==> due_spec(m, now),
        m.uptime_check_enabled && m.uptime_status@ == NOT_YET_CHECKED@ ==> due_spec(m, now),
        m.uptime_check_enabled && m.last_check_at is None ==> due_spec(m, now),
        !m.uptime_check_enabled ==> !due_spec(m, now),
{
}

/// An up monitor is due again once its interval has elapsed, in whole
/// minutes, since the check on record (whose stamp reads back as `checked`).
pub proof fn law_up_monitor_due_after_its_interval(m: Monitor, stamp: String, checked: int, now: int)
    requires
        m.uptime_check_enabled,
        m.uptime_status@ == UP@,
        m.last_check_at == Some(stamp),
        parsed_instant(stamp@) == Some(checked),
    ensures
        due_spec(m, now) <==> minutes_between(now, checked) >= m.check_interval_minutes,
{
    lemma_status_texts();
}

} // verus!
