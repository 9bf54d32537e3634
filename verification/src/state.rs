//! Pure up/down state machine applied after every check.
//!
//! One failure is suspicion, not state: the visible status only flips to
//! `down` at two consecutive failures, and back to `up` on the next success.
//! The returned event tells the alerting layer which transition (if any)
//! fired; deciding whether to notify is its concern, not this module's.

use vstd::prelude::*;
use vstd::string::*;

use crate::checker::CheckOutcome;
use crate::store::uptime_status::{lemma_status_texts, DOWN, NOT_YET_CHECKED, UP};
use crate::store::Monitor;
use crate::text::{opt_text, str_eq};

verus! {

pub const DOWN_THRESHOLD: i64 = 2;

#[derive(Debug, Clone, Copy, PartialEq, Eq, Structural)]
pub enum TransitionEvent {
    WentDown,
    Recovered,
}

/// The monitor-row updates and result row produced by one check.
#[derive(Debug, Clone)]
pub struct StateChange {
    pub uptime_status: &'static str,
    pub consecutive_failures: i64,
    pub uptime_failure_reason: Option<String>,
    /// `Some(now)` when the visible status changed this check.
    pub status_changed_at: Option<String>,
    /// Status recorded on the `check_results` row (`up`/`down`) — the raw
    /// outcome of this check, independent of the visible status.
    pub result_status: &'static str,
    pub event: Option<TransitionEvent>,
}

/// A failure crosses the threshold: the monitor was not down and this
/// failure makes the streak reach `DOWN_THRESHOLD`.
pub open spec fn goes_down(status: Seq<char>, failures: int) -> bool {
    status != DOWN@ && failures + 1 >= DOWN_THRESHOLD
}

/// Visible status after a check.
pub open spec fn status_after(status: Seq<char>, failures: int, success: bool) -> Seq<char> {
    if success {
        UP@
    } else if goes_down(status, failures) || status == DOWN@ {
        DOWN@
    } else if status == UP@ {
        UP@
    } else {
        NOT_YET_CHECKED@
    }
}

/// Consecutive-failure count after a check.
pub open spec fn failures_after(failures: int, success: bool) -> int {
    if success {
        0
    } else {
        failures + 1
    }
}

/// The transition a check fires, if any.
pub open spec fn event_after(status: Seq<char>, failures: int, success: bool) -> Option<
    TransitionEvent,
> {
    if success {
        if status == DOWN@ {
            Some(TransitionEvent::Recovered)
        } else {
            None
        }
    } else if goes_down(status, failures) {
        Some(TransitionEvent::WentDown)
    } else {
        None
    }
}

/// Whether the visible status is stamped as changed by a check.
pub open spec fn stamps_change(status: Seq<char>, failures: int, success: bool) -> bool {
    if success {
        status != UP@
    } else {
        goes_down(status, failures)
    }
}

/// Applies one check outcome to a monitor's uptime state.
pub fn apply(monitor: &Monitor, outcome: &CheckOutcome, now: &str) -> (r: StateChange)
    requires
        !outcome.success ==> monitor.consecutive_failures < i64::MAX,
    ensures
        r.uptime_status@ == status_after(
            monitor.uptime_status@,
            monitor.consecutive_failures as int,
            outcome.success,
        ),
        r.consecutive_failures == failures_after(
            monitor.consecutive_failures as int,
            outcome.success,
        ),
        r.event == event_after(
            monitor.uptime_status@,
            monitor.consecutive_failures as int,
            outcome.success,
        ),
        opt_text(r.status_changed_at) == (if stamps_change(
            monitor.uptime_status@,
            monitor.consecutive_failures as int,
            outcome.success,
        ) {
            Some(now@)
        } else {
            None
        }),
        r.result_status@ == (if outcome.success {
            UP@
        } else {
            DOWN@
        }),
        r.uptime_failure_reason == (if outcome.success {
            None
        } else {
            outcome.failure_reason
        }),
{
    let was_down = str_eq(monitor.uptime_status.as_str(), DOWN);
    let was_up = str_eq(monitor.uptime_status.as_str(), UP);
    if outcome.success {
        StateChange {
            uptime_status: UP,
            consecutive_failures: 0,
            uptime_failure_reason: None,
            status_changed_at: if !was_up {
                Some(String::from_str(now))
            } else {
                None
            },
            result_status: UP,
            event: if was_down {
                Some(TransitionEvent::Recovered)
            } else {
                None
            },
        }
    } else {
        let failures = monitor.consecutive_failures + 1;
        let went_down = !was_down && failures >= DOWN_THRESHOLD;
        StateChange {
            uptime_status: if went_down || was_down {
                DOWN
            } else if was_up {
                // Below the threshold the previous visible status stands.
                UP
            } else {
                NOT_YET_CHECKED
            },
            consecutive_failures: failures,
            uptime_failure_reason: match &outcome.failure_reason {
                Some(reason) => Some(reason.clone()),
                None => None,
            },
            status_changed_at: if went_down {
                Some(String::from_str(now))
            } else {
                None
            },
            result_status: DOWN,
            event: if went_down {
                Some(TransitionEvent::WentDown)
            } else {
                None
            },
        }
    }
}

/// The status is one of the three stored values.
pub open spec fn known_status(status: Seq<char>) -> bool {
    status == UP@ || status == DOWN@ || status == NOT_YET_CHECKED@
}

/// The visible status is `down` exactly when the failure streak has reached
/// the threshold, and this is kept by every check: a monitor never shows
/// `down` on fewer than two consecutive failures, and never stays visibly
/// `up` or unchecked once two have accumulated.
pub proof fn law_down_iff_threshold_reached(status: Seq<char>, failures: int, success: bool)
    requires
        known_status(status),
        failures >= 0,
        (status == DOWN@) == (failures >= DOWN_THRESHOLD),
    ensures
        known_status(status_after(status, failures, success)),
        failures_after(failures, success) >= 0,
        (status_after(status, failures, success) == DOWN@) == (failures_after(failures, success)
            >= DOWN_THRESHOLD),
{
    lemma_status_texts();
}

/// One failure is suspicion, not state: from any monitor that is not down
/// with no failures on record, a single failure leaves the visible status as
/// it was and fires nothing, and a second consecutive failure takes it down
/// and fires `WentDown`.
pub proof fn law_two_consecutive_failures_go_down(status: Seq<char>)
    requires
        status == UP@ || status == NOT_YET_CHECKED@,
    ensures
        status_after(status, 0, false) == status,
        event_after(status, 0, false) is None,
        !stamps_change(status, 0, false),
        status_after(status_after(status, 0, false), 1, false) == DOWN@,
        event_after(status_after(status, 0, false), 1, false) == Some(TransitionEvent::WentDown),
        stamps_change(status_after(status, 0, false), 1, false),
{
    lemma_status_texts();
}

/// A success always makes the monitor visibly up with a clean streak, and
/// fires `Recovered` exactly when it was down.
pub proof fn law_success_recovers(status: Seq<char>, failures: int)
    ensures
        status_after(status, failures, true) == UP@,
        failures_after(failures, true) == 0,
        (event_after(status, failures, true) == Some(TransitionEvent::Recovered)) == (status
            == DOWN@),
        event_after(status, failures, true) != Some(TransitionEvent::WentDown),
{
    lemma_status_texts();
}

/// Failing while down stays down without firing again.
pub proof fn law_down_does_not_refire(failures: int)
    ensures
        status_after(DOWN@, failures, false) == DOWN@,
        event_after(DOWN@, failures, false) is None,
        !stamps_change(DOWN@, failures, false),
{
}

/// Events mark exactly the visible up/down flips, and the change stamp is
/// set exactly when the visible status changes.
pub proof fn law_events_mark_visible_flips(status: Seq<char>, failures: int, success: bool)
    requires
        known_status(status),
    ensures
        (event_after(status, failures, success) == Some(TransitionEvent::WentDown)) == (status
            != DOWN@ && status_after(status, failures, success) == DOWN@),
        (event_after(status, failures, success) == Some(TransitionEvent::Recovered)) == (status
            == DOWN@ && status_after(status, failures, success) == UP@),
        stamps_change(status, failures, success) == (status_after(status, failures, success)
            != status),
{
    lemma_status_texts();
}

} // verus!
