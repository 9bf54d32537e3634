//! Alert decisions.
//!
//! - **Down** fires exactly when the status flips to `down` (two consecutive
//!   failures) and carries the new `down_alert_sent_at` stamp.
//! - **Still down** re-fires while the status stays `down` and 60 minutes
//!   have passed since the last alert.
//! - **Recovered** fires on success only if a down alert actually went out
//!   (`down_alert_sent_at` set); it clears the stamp. A blip that never
//!   crossed the threshold stays silent.
//! - An alert carries the status it was fired for; if the monitor's status
//!   has changed again by dispatch time, the alert is stale and dropped.
//!
//! Delivery (notification, Slack) is performed by the application layer.

use vstd::prelude::*;
use vstd::string::*;

use crate::state::{event_after, goes_down, TransitionEvent};
use crate::store::uptime_status::{DOWN, UP};
use crate::store::{
    copy_opt, CertificateEvent, CertificateStatus, Monitor, RecordedCertificateCheck,
    RecordedCheck,
};
use crate::text::{
    append_decimal, append_signed, decimal, opt_as_str, opt_str_eq, opt_str_text, opt_text, signed_decimal,
    str_eq,
};
use crate::time::{
    format_minute, instant_ok, minute_text, minutes_between, minutes_since, parse_timestamp,
    parsed_instant, readable_instant, rfc3339_text, time_bounded, to_rfc3339,
};

verus! {

pub const REALERT_AFTER_MINUTES: i64 = 60;

#[derive(Debug, Clone)]
pub struct Alert {
    pub monitor_id: i64,
    pub title: String,
    pub body: String,
    /// Status the alert was fired for; dispatch drops it if the monitor has
    /// since moved on.
    pub fired_for_status: &'static str,
    /// Identifies the specific up/down episode, so an old down alert cannot
    /// be delivered during a later down incident.
    pub fired_for_status_changed_at: Option<String>,
    /// New `down_alert_sent_at` value to store when this alert dispatches.
    pub sent_at_update: Option<String>,
}

#[derive(Debug, Clone)]
pub struct CertificateAlert {
    pub monitor_id: i64,
    pub title: String,
    pub body: String,
    pub fired_for_status: CertificateStatus,
    pub fired_for_check_at: String,
    pub expiry_sent_at_update: Option<String>,
}

/// How long something has lasted, for a message.
pub open spec fn duration_phrase(minutes: int) -> Seq<char> {
    if minutes == 0 {
        "less than a minute"@
    } else if minutes <= 59 {
        decimal(minutes as nat) + " min"@
    } else if minutes <= 1439 {
        decimal((minutes / 60) as nat) + "h "@ + decimal((minutes % 60) as nat) + "m"@
    } else {
        decimal((minutes / 1440) as nat) + "d "@ + decimal(((minutes % 1440) / 60) as nat) + "h"@
    }
}

/// The time from an RFC 3339 `start` to `end`, in words; unknown when the
/// start is missing or unreadable, never negative.
pub open spec fn human_duration_text(start: Option<Seq<char>>, end: int) -> Seq<char> {
    match start {
        None => "an unknown time"@,
        Some(s) => match parsed_instant(s) {
            None => "an unknown time"@,
            Some(t) => {
                let m = minutes_between(end, t);
                duration_phrase(
                    if m > 0 {
                        m
                    } else {
                        0
                    },
                )
            },
        },
    }
}

fn duration_words(minutes: u64) -> (r: String)
    ensures
        r@ == duration_phrase(minutes as int),
{
    if minutes == 0 {
        String::from_str("less than a minute")
    } else if minutes <= 59 {
        let mut s = String::new();
        append_decimal(&mut s, minutes);
        s.append(" min");
        s
    } else if minutes <= 1439 {
        let mut s = String::new();
        append_decimal(&mut s, minutes / 60);
        s.append("h ");
        append_decimal(&mut s, minutes % 60);
        s.append("m");
        s
    } else {
        let mut s = String::new();
        append_decimal(&mut s, minutes / 1440);
        s.append("d ");
        append_decimal(&mut s, (minutes % 1440) / 60);
        s.append("h");
        s
    }
}

/// The time from `start` (RFC 3339) to `end`, in words.
pub fn human_duration_between(start: Option<&str>, end: i128) -> (r: String)
    requires
        time_bounded(end as int),
    ensures
        r@ == human_duration_text(opt_str_text(start), end as int),
{
    let parsed = match start {
        Some(s) => parse_timestamp(s),
        None => None,
    };
    match parsed {
        None => String::from_str("an unknown time"),
        Some(t) => {
            let m = minutes_since(end, t);
            let minutes: i128 = if m > 0 {
                m
            } else {
                0
            };
            assert(minutes < 0x1_0000_0000_0000_0000) by {
                if m > 0 {
                    assert(m == (end - t) / 60_000_000_000int);
                    vstd::arithmetic::div_mod::lemma_div_is_ordered(
                        end - t,
                        0x2_0000_0000_0000_0000_0000_0000int,
                        60_000_000_000int,
                    );
                }
            }
            duration_words(minutes as u64)
        },
    }
}

/// The message body of a down alert.
pub open spec fn down_body(m: Monitor) -> Seq<char> {
    m.url@ + " is down: "@ + match m.uptime_failure_reason {
        Some(r) => r@,
        None => "check failed"@,
    }
}

/// The alert, if any, for a just-recorded check made at `now`: a down alert
/// when the monitor went down, a recovery alert when it recovered after a
/// delivered down alert, nothing otherwise.
pub open spec fn after_check_spec(recorded: RecordedCheck, now: int, r: Option<Alert>) -> bool {
    match recorded.event {
        None => r is None,
        Some(TransitionEvent::WentDown) => r matches Some(a) && a.monitor_id == recorded.after.id
            && a.title@ == "Monitor down"@ && a.body@ == down_body(recorded.after)
            && a.fired_for_status@ == DOWN@ && a.fired_for_status_changed_at
            == recorded.after.status_last_change_at && opt_text(a.sent_at_update) == Some(
            rfc3339_text(now),
        ),
        Some(TransitionEvent::Recovered) => if recorded.before.down_alert_sent_at is None {
            r is None
        } else {
            r matches Some(a) && a.monitor_id == recorded.after.id && a.title@
                == "Monitor recovered"@ && a.body@ == recorded.after.url@ + " is back up after "@
                + human_duration_text(opt_text(recorded.before.status_last_change_at), now)
                && a.fired_for_status@ == UP@ && a.fired_for_status_changed_at
                == recorded.after.status_last_change_at && a.sent_at_update is None
        },
    }
}

/// Decide the alert (if any) for a just-recorded check.
pub fn decide_after_check(recorded: &RecordedCheck, now: i128) -> (r: Option<Alert>)
    requires
        instant_ok(now as int),
    ensures
        after_check_spec(*recorded, now as int, r),
        readable_instant(now as int) ==> match r {
            Some(a) => match a.sent_at_update {
                Some(stamp) => parsed_instant(stamp@) == Some(now as int),
                None => true,
            },
            None => true,
        },
{
    match recorded.event {
        None => None,
        Some(TransitionEvent::WentDown) => {
            let mut body = recorded.after.url.clone();
            body.append(" is down: ");
            match &recorded.after.uptime_failure_reason {
                Some(reason) => body.append(reason.as_str()),
                None => body.append("check failed"),
            }
            Some(
                Alert {
                    monitor_id: recorded.after.id,
                    title: String::from_str("Monitor down"),
                    body,
                    fired_for_status: DOWN,
                    fired_for_status_changed_at: copy_opt(&recorded.after.status_last_change_at),
                    sent_at_update: Some(to_rfc3339(now)),
                },
            )
        },
        Some(TransitionEvent::Recovered) => {
            // Silent recovery unless a down alert actually went out.
            if recorded.before.down_alert_sent_at.is_none() {
                return None;
            }
            let downtime = human_duration_between(
                opt_as_str(&recorded.before.status_last_change_at),
                now,
            );
            let mut body = recorded.after.url.clone();
            body.append(" is back up after ");
            body.append(downtime.as_str());
            Some(
                Alert {
                    monitor_id: recorded.after.id,
                    title: String::from_str("Monitor recovered"),
                    body,
                    fired_for_status: UP,
                    fired_for_status_changed_at: copy_opt(&recorded.after.status_last_change_at),
                    sent_at_update: None,
                },
            )
        },
    }
}

/// The phrase for the days left before a certificate expires.
pub open spec fn days_phrase(days: i64) -> Seq<char> {
    if days == 0 {
        "less than a day"@
    } else if days == 1 {
        "1 day"@
    } else {
        signed_decimal(days as int) + " days"@
    }
}

/// The alert, if any, for a recorded certificate check made at `now`.
pub open spec fn after_certificate_spec(
    recorded: RecordedCertificateCheck,
    now: int,
    r: Option<CertificateAlert>,
) -> bool {
    let after = recorded.after;
    match (after.cert_last_check_at, recorded.event) {
        (Some(checked_at), Some(CertificateEvent::BecameInvalid)) => r matches Some(a) && a.monitor_id
            == after.id && a.title@ == "Certificate invalid"@ && a.body@ == after.url@
            + " has an invalid TLS certificate: "@ + match after.cert_failure_reason {
            Some(reason) => reason@,
            None => "verification failed"@,
        } && a.fired_for_status == CertificateStatus::Invalid && a.fired_for_check_at == checked_at
            && a.expiry_sent_at_update is None,
        (Some(checked_at), Some(CertificateEvent::ExpiresSoon { days_remaining })) => r matches Some(
            a,
        ) && a.monitor_id == after.id && a.title@ == "Certificate expires soon"@ && a.body@
            == after.url@ + " TLS certificate expires in "@ + days_phrase(days_remaining)
            && a.fired_for_status == CertificateStatus::Valid && a.fired_for_check_at == checked_at
            && opt_text(a.expiry_sent_at_update) == Some(rfc3339_text(now)),
        _ => r is None,
    }
}

fn days_words(days: i64) -> (r: String)
    ensures
        r@ == days_phrase(days),
{
    if days == 0 {
        String::from_str("less than a day")
    } else if days == 1 {
        String::from_str("1 day")
    } else {
        let mut s = String::new();
        append_signed(&mut s, days);
        s.append(" days");
        s
    }
}

/// Decide the alert (if any) for a just-recorded certificate check.
pub fn decide_after_certificate_check(recorded: &RecordedCertificateCheck, now: i128) -> (r:
    Option<CertificateAlert>)
    requires
        instant_ok(now as int),
    ensures
        after_certificate_spec(*recorded, now as int, r),
        readable_instant(now as int) ==> match r {
            Some(a) => match a.expiry_sent_at_update {
                Some(stamp) => parsed_instant(stamp@) == Some(now as int),
                None => true,
            },
            None => true,
        },
{
    let checked_at = match &recorded.after.cert_last_check_at {
        Some(at) => at.clone(),
        None => {
            return None;
        },
    };
    match recorded.event {
        None => None,
        Some(CertificateEvent::BecameInvalid) => {
            let mut body = recorded.after.url.clone();
            body.append(" has an invalid TLS certificate: ");
            match &recorded.after.cert_failure_reason {
                Some(reason) => body.append(reason.as_str()),
                None => body.append("verification failed"),
            }
            Some(
                CertificateAlert {
                    monitor_id: recorded.after.id,
                    title: String::from_str("Certificate invalid"),
                    body,
                    fired_for_status: CertificateStatus::Invalid,
                    fired_for_check_at: checked_at,
                    expiry_sent_at_update: None,
                },
            )
        },
        Some(CertificateEvent::ExpiresSoon { days_remaining }) => {
            let mut body = recorded.after.url.clone();
            body.append(" TLS certificate expires in ");
            let days = days_words(days_remaining);
            body.append(days.as_str());
            Some(
                CertificateAlert {
                    monitor_id: recorded.after.id,
                    title: String::from_str("Certificate expires soon"),
                    body,
                    fired_for_status: CertificateStatus::Valid,
                    fired_for_check_at: checked_at,
                    expiry_sent_at_update: Some(to_rfc3339(now)),
                },
            )
        },
    }
}

/// A down monitor is due for its hourly re-alert when no down alert is on
/// record (or its stamp is unreadable), or the last one went out at least
/// `REALERT_AFTER_MINUTES` ago.
pub open spec fn still_down_due(m: Monitor, now: int) -> bool {
    &&& m.uptime_status@ == DOWN@
    &&& match m.down_alert_sent_at {
        Some(s) => match parsed_instant(s@) {
            Some(t) => minutes_between(now, t) >= REALERT_AFTER_MINUTES,
            None => true,
        },
        None => true,
    }
}

/// Decide whether a down monitor is due for its hourly re-alert.
pub fn decide_still_down(monitor: &Monitor, now: i128) -> (r: Option<Alert>)
    requires
        instant_ok(now as int),
    ensures
        still_down_due(*monitor, now as int) ==> (r matches Some(a) && a.monitor_id == monitor.id
            && a.title@ == "Monitor still down"@ && a.body@ == monitor.url@
            + " has been down for "@ + human_duration_text(
            opt_text(monitor.status_last_change_at),
            now as int,
        ) && a.fired_for_status@ == DOWN@ && a.fired_for_status_changed_at
            == monitor.status_last_change_at && opt_text(a.sent_at_update) == Some(
            rfc3339_text(now as int),
        )),
        !still_down_due(*monitor, now as int) ==> r is None,
        readable_instant(now as int) ==> match r {
            Some(a) => match a.sent_at_update {
                Some(stamp) => parsed_instant(stamp@) == Some(now as int),
                None => true,
            },
            None => true,
        },
{
    if !str_eq(monitor.uptime_status.as_str(), DOWN) {
        return None;
    }
    if let Some(sent) = &monitor.down_alert_sent_at {
        if let Some(sent_at) = parse_timestamp(sent.as_str()) {
            if minutes_since(now, sent_at) < REALERT_AFTER_MINUTES as i128 {
                return None;
            }
        }
    }
    let downtime = human_duration_between(opt_as_str(&monitor.status_last_change_at), now);
    let mut body = monitor.url.clone();
    body.append(" has been down for ");
    body.append(downtime.as_str());
    Some(
        Alert {
            monitor_id: monitor.id,
            title: String::from_str("Monitor still down"),
            body,
            fired_for_status: DOWN,
            fired_for_status_changed_at: copy_opt(&monitor.status_last_change_at),
            sent_at_update: Some(to_rfc3339(now)),
        },
    )
}

/// An alert is stale when the monitor has left the status it was fired for,
/// or entered a different episode of it.
pub open spec fn stale_spec(alert: Alert, status: Seq<char>, changed_at: Option<Seq<char>>) -> bool {
    status != alert.fired_for_status@ || changed_at != opt_text(alert.fired_for_status_changed_at)
}

/// Stale guard: the alert only goes out if the monitor is still in the
/// status (and the episode) it was fired for.
pub fn is_stale(alert: &Alert, current_status: &str, current_status_changed_at: Option<&str>) -> (r:
    bool)
    ensures
        r == stale_spec(*alert, current_status@, opt_str_text(current_status_changed_at)),
{
    !str_eq(current_status, alert.fired_for_status) || !opt_str_eq(
        current_status_changed_at,
        opt_as_str(&alert.fired_for_status_changed_at),
    )
}

/// A certificate alert is stale when the monitor's certificate status or its
/// latest certificate check differs from the one the alert was fired for.
pub open spec fn certificate_stale_spec(
    alert: CertificateAlert,
    status: CertificateStatus,
    last_check_at: Option<Seq<char>>,
) -> bool {
    status != alert.fired_for_status || last_check_at != Some(alert.fired_for_check_at@)
}

pub fn is_certificate_stale(
    alert: &CertificateAlert,
    current_status: CertificateStatus,
    current_last_check_at: Option<&str>,
) -> (r: bool)
    ensures
        r == certificate_stale_spec(*alert, current_status, opt_str_text(current_last_check_at)),
{
    current_status != alert.fired_for_status || !opt_str_eq(
        current_last_check_at,
        Some(alert.fired_for_check_at.as_str()),
    )
}

impl Alert {
    /// Whether the alert is stale for the monitor as it currently stands.
    pub fn is_stale_for(&self, current: &Monitor) -> (r: bool)
        ensures
            r == stale_spec(*self, current.uptime_status@, opt_text(current.status_last_change_at)),
    {
        is_stale(self, current.uptime_status.as_str(), opt_as_str(&current.status_last_change_at))
    }
}

impl CertificateAlert {
    /// Whether the alert is stale for the monitor as it currently stands.
    pub fn is_stale_for(&self, current: &Monitor) -> (r: bool)
        ensures
            r == certificate_stale_spec(*self, current.cert_status, opt_text(current.cert_last_check_at)),
    {
        is_certificate_stale(self, current.cert_status, opt_as_str(&current.cert_last_check_at))
    }

    /// The Slack message: a warning sign for an expiry warning, a red dot
    /// otherwise, then the body and the time.
    pub fn slack_text(&self, now: i128) -> (r: String)
        requires
            instant_ok(now as int),
        ensures
            r@ == (if self.fired_for_status == CertificateStatus::Valid {
                "⚠️"@
            } else {
                "🔴"@
            }) + " "@ + self.body@ + " ("@ + minute_text(now as int) + ")"@,
    {
        let mut text = if self.fired_for_status == CertificateStatus::Valid {
            String::from_str("⚠️")
        } else {
            String::from_str("🔴")
        };
        text.append(" ");
        text.append(self.body.as_str());
        text.append(" (");
        let stamp = format_minute(now);
        text.append(stamp.as_str());
        text.append(")");
        text
    }
}

/// The Slack message for an uptime alert: a check mark for a recovery, a
/// red dot otherwise, then the body and the time.
pub fn slack_text(alert: &Alert, now: i128) -> (r: String)
    requires
        instant_ok(now as int),
    ensures
        r@ == (if alert.fired_for_status@ == UP@ {
            "✅"@
        } else {
            "🔴"@
        }) + " "@ + alert.body@ + " ("@ + minute_text(now as int) + ")"@,
{
    let mut text = if str_eq(alert.fired_for_status, UP) {
        String::from_str("✅")
    } else {
        String::from_str("🔴")
    };
    text.append(" ");
    text.append(alert.body.as_str());
    text.append(" (");
    let stamp = format_minute(now);
    text.append(stamp.as_str());
    text.append(")");
    text
}

/// Where delivery of one alert stands: trying the native notification,
/// then Slack, then done; and whether the alert's bookkeeping is on record.
#[derive(Debug, Clone, Copy, PartialEq, Eq, Structural)]
pub enum DeliveryPhase {
    Native,
    Slack,
    Done,
}

#[derive(Debug, Clone, Copy, PartialEq, Eq, Structural)]
pub struct Delivery {
    pub phase: DeliveryPhase,
    pub recorded: bool,
}

/// What the delivery asks the application layer to do next.
#[derive(Debug, Clone, Copy, PartialEq, Eq, Structural)]
pub enum DeliveryAction {
    /// Read the monitor and answer whether the alert is still current.
    CheckCurrent,
    /// Show the native notification and answer whether it went out.
    ShowNotification,
    /// Read the Slack webhook and answer whether one is configured.
    ReadWebhook,
    /// Send the alert to Slack and answer whether Slack accepted it.
    SendSlack,
    /// Write the alert's bookkeeping and answer whether it was stored.
    RecordDelivery,
    /// Delivery is over.
    Finish,
}

/// The application layer's answer to the last action.
#[derive(Debug, Clone, Copy, PartialEq, Eq, Structural)]
pub enum DeliveryEvent {
    Begin,
    Current(bool),
    Delivered(bool),
    Recorded(bool),
    Webhook(bool),
}

/// One delivery step. The monitor's status is checked at each channel's
/// boundary and a stale alert skips the channel (and, for Slack, ends the
/// delivery); bookkeeping is written only after a channel accepted the
/// alert, and only until one write went through.
pub open spec fn delivery_step(d: Delivery, ev: DeliveryEvent) -> (Delivery, DeliveryAction) {
    let native = Delivery { phase: DeliveryPhase::Native, ..d };
    let slack = Delivery { phase: DeliveryPhase::Slack, ..d };
    let done = Delivery { phase: DeliveryPhase::Done, ..d };
    match (d.phase, ev) {
        (DeliveryPhase::Native, DeliveryEvent::Begin) => (native, DeliveryAction::CheckCurrent),
        (DeliveryPhase::Native, DeliveryEvent::Current(true)) => (native, DeliveryAction::ShowNotification),
        (DeliveryPhase::Native, DeliveryEvent::Delivered(true)) => if d.recorded {
            (slack, DeliveryAction::ReadWebhook)
        } else {
            (native, DeliveryAction::RecordDelivery)
        },
        (DeliveryPhase::Native, DeliveryEvent::Recorded(ok)) => (
            Delivery { phase: DeliveryPhase::Slack, recorded: d.recorded || ok },
            DeliveryAction::ReadWebhook,
        ),
        (DeliveryPhase::Native, _) => (slack, DeliveryAction::ReadWebhook),
        (DeliveryPhase::Slack, DeliveryEvent::Webhook(true)) => (slack, DeliveryAction::CheckCurrent),
        (DeliveryPhase::Slack, DeliveryEvent::Current(true)) => (slack, DeliveryAction::SendSlack),
        (DeliveryPhase::Slack, DeliveryEvent::Delivered(true)) => if d.recorded {
            (done, DeliveryAction::Finish)
        } else {
            (slack, DeliveryAction::RecordDelivery)
        },
        (DeliveryPhase::Slack, DeliveryEvent::Recorded(ok)) => (
            Delivery { phase: DeliveryPhase::Done, recorded: d.recorded || ok },
            DeliveryAction::Finish,
        ),
        _ => (done, DeliveryAction::Finish),
    }
}

impl Delivery {
    /// A delivery that has not started.
    pub fn start() -> (r: Self)
        ensures
            r.phase == DeliveryPhase::Native,
            !r.recorded,
    {
        Delivery { phase: DeliveryPhase::Native, recorded: false }
    }

    /// Takes one step on the answer to the last action.
    pub fn step(self, ev: DeliveryEvent) -> (r: (Self, DeliveryAction))
        ensures
            r == delivery_step(self, ev),
    {
        let native = Delivery { phase: DeliveryPhase::Native, recorded: self.recorded };
        let slack = Delivery { phase: DeliveryPhase::Slack, recorded: self.recorded };
        let done = Delivery { phase: DeliveryPhase::Done, recorded: self.recorded };
        match (self.phase, ev) {
            (DeliveryPhase::Native, DeliveryEvent::Begin) => (native, DeliveryAction::CheckCurrent),
            (DeliveryPhase::Native, DeliveryEvent::Current(true)) => (
                native,
                DeliveryAction::ShowNotification,
            ),
            (DeliveryPhase::Native, DeliveryEvent::Delivered(true)) => if self.recorded {
                (slack, DeliveryAction::ReadWebhook)
            } else {
                (native, DeliveryAction::RecordDelivery)
            },
            (DeliveryPhase::Native, DeliveryEvent::Recorded(ok)) => (
                Delivery { phase: DeliveryPhase::Slack, recorded: self.recorded || ok },
                DeliveryAction::ReadWebhook,
            ),
            (DeliveryPhase::Native, _) => (slack, DeliveryAction::ReadWebhook),
            (DeliveryPhase::Slack, DeliveryEvent::Webhook(true)) => (
                slack,
                DeliveryAction::CheckCurrent,
            ),
            (DeliveryPhase::Slack, DeliveryEvent::Current(true)) => (slack, DeliveryAction::SendSlack),
            (DeliveryPhase::Slack, DeliveryEvent::Delivered(true)) => if self.recorded {
                (done, DeliveryAction::Finish)
            } else {
                (slack, DeliveryAction::RecordDelivery)
            },
            (DeliveryPhase::Slack, DeliveryEvent::Recorded(ok)) => (
                Delivery { phase: DeliveryPhase::Done, recorded: self.recorded || ok },
                DeliveryAction::Finish,
            ),
            _ => (done, DeliveryAction::Finish),
        }
    }
}

/// Delivery follows the stale guard and the bookkeeping rule: a channel is
/// tried only on the answer that the alert is still current; a stale answer
/// never leads to a channel or a write; bookkeeping is asked for only on the
/// answer that a channel accepted the alert, and never once a write went
/// through; what is recorded stays recorded; a finished delivery stays
/// finished.
pub proof fn law_delivery_guards(d: Delivery, ev: DeliveryEvent)
    ensures
        (delivery_step(d, ev).1 == DeliveryAction::ShowNotification || delivery_step(d, ev).1
            == DeliveryAction::SendSlack) ==> ev == DeliveryEvent::Current(true),
        ev == DeliveryEvent::Current(false) ==> delivery_step(d, ev).1 != DeliveryAction::ShowNotification
            && delivery_step(d, ev).1 != DeliveryAction::SendSlack && delivery_step(d, ev).1
            != DeliveryAction::RecordDelivery,
        delivery_step(d, ev).1 == DeliveryAction::RecordDelivery ==> ev == DeliveryEvent::Delivered(
            true,
        ) && !d.recorded,
        d.recorded ==> delivery_step(d, ev).0.recorded,
        d.phase == DeliveryPhase::Done ==> delivery_step(d, ev) == (d, DeliveryAction::Finish),
        delivery_step(d, ev).1 == DeliveryAction::Finish <==> delivery_step(d, ev).0.phase
            == DeliveryPhase::Done,
{
}

/// Still-down alerts repeat hourly: with a down alert on record whose stamp
/// reads back as `sent` (as every stamp these decisions set does, in the
/// years 0000–9999), the monitor is due for the next one exactly when
/// `REALERT_AFTER_MINUTES` whole minutes have passed since `sent`.
pub proof fn law_still_down_realerts_hourly(m: Monitor, stamp: String, sent: int, now: int)
    requires
        m.uptime_status@ == DOWN@,
        m.down_alert_sent_at == Some(stamp),
        parsed_instant(stamp@) == Some(sent),
    ensures
        still_down_due(m, now) <==> minutes_between(now, sent) >= REALERT_AFTER_MINUTES,
{
}

/// A monitor that is not down never gets a still-down alert, and a down one
/// with no alert on record gets one at once.
pub proof fn law_still_down_only_while_down(m: Monitor, now: int)
    ensures
        m.uptime_status@ != DOWN@ ==> !still_down_due(m, now),
        m.uptime_status@ == DOWN@ && m.down_alert_sent_at is None ==> still_down_due(m, now),
{
}

/// Recoveries are silent unless a down alert went out, and a recorded check
/// without a transition alerts nothing.
pub proof fn law_recovery_alerts_only_after_a_down_alert(
    recorded: RecordedCheck,
    now: int,
    r: Option<Alert>,
)
    requires
        after_check_spec(recorded, now, r),
    ensures
        recorded.event is None ==> r is None,
        recorded.event == Some(TransitionEvent::Recovered) ==> (r is Some <==> recorded.before.down_alert_sent_at is Some),
        recorded.event == Some(TransitionEvent::WentDown) ==> r is Some,
{
}

/// The alerts follow the state machine: a failed check that takes the
/// monitor down always produces a down alert; a failure while already down
/// and a success while not down produce none.
pub proof fn law_down_alert_follows_the_state_machine(
    recorded: RecordedCheck,
    success: bool,
    now: int,
    r: Option<Alert>,
)
    requires
        recorded.event == event_after(
            recorded.before.uptime_status@,
            recorded.before.consecutive_failures as int,
            success,
        ),
        after_check_spec(recorded, now, r),
    ensures
        !success && goes_down(
            recorded.before.uptime_status@,
            recorded.before.consecutive_failures as int,
        ) ==> (r matches Some(a) && a.title@ == "Monitor down"@ && a.fired_for_status@ == DOWN@),
        !success && recorded.before.uptime_status@ == DOWN@ ==> r is None,
        success && recorded.before.uptime_status@ != DOWN@ ==> r is None,
{
}

/// Certificate alerts follow the certificate state machine: a recorded
/// check that finds the certificate invalid after it was not produces an
/// invalid-certificate alert; one that finds it invalid again produces none.
pub proof fn law_certificate_alert_follows_the_state_machine(
    recorded: RecordedCertificateCheck,
    previous: CertificateStatus,
    expires_at: Option<Seq<char>>,
    now: int,
    r: Option<CertificateAlert>,
)
    requires
        recorded.after.cert_last_check_at is Some,
        recorded.event == crate::certificate::event_after(
            previous,
            false,
            expires_at,
            opt_text(recorded.after.cert_expiry_alert_sent_at),
            now,
        ),
        after_certificate_spec(recorded, now, r),
    ensures
        previous != CertificateStatus::Invalid ==> (r matches Some(a) && a.title@
            == "Certificate invalid"@ && a.fired_for_status == CertificateStatus::Invalid),
        previous == CertificateStatus::Invalid ==> r is None,
{
}

proof fn lemma_split(m: int, q: int, r: int, d: int)
    requires
        d > 0,
        m == q * d + r,
        0 <= r < d,
    ensures
        m / d == q,
        m % d == r,
{
    vstd::arithmetic::div_mod::lemma_fundamental_div_mod_converse(m, d, q, r);
}

/// Durations read as people read them: under a minute is "less than a
/// minute"; under an hour, the whole minutes; under a day, the whole hours
/// and the minutes left after them; from a day on, the whole days and the
/// whole hours left after them.
pub proof fn law_duration_phrase(minutes: int, d: int, h: int, m: int)
    requires
        minutes >= 0,
    ensures
        minutes == 0 ==> duration_phrase(minutes) == "less than a minute"@,
        1 <= minutes < 60 ==> duration_phrase(minutes) == decimal(minutes as nat) + " min"@,
        60 <= minutes < 1440 && 0 <= m < 60 && h * 60 + m == minutes ==> duration_phrase(minutes)
            == decimal(h as nat) + "h "@ + decimal(m as nat) + "m"@,
        minutes >= 1440 && 0 <= h < 24 && d * 1440 + h * 60 <= minutes < d * 1440 + h * 60 + 60
            ==> duration_phrase(minutes) == decimal(d as nat) + "d "@ + decimal(h as nat) + "h"@,
{
    if 60 <= minutes < 1440 && 0 <= m < 60 && h * 60 + m == minutes {
        lemma_split(minutes, h, m, 60);
    }
    if minutes >= 1440 && 0 <= h < 24 && d * 1440 + h * 60 <= minutes < d * 1440 + h * 60 + 60 {
        let rest = minutes - d * 1440;
        lemma_split(minutes, d, rest, 1440);
        lemma_split(rest, h, rest - h * 60, 60);
    }
}

/// The recovery and still-down texts measure from the stamp to `end` in
/// whole minutes: when the stamp reads back as `t` and `end - t` lies in
/// `[minutes, minutes + 1)` minutes, the text is the phrase for `minutes`.
pub proof fn law_human_duration_counts_whole_minutes(stamp: Seq<char>, t: int, end: int, minutes: int)
    requires
        parsed_instant(stamp) == Some(t),
        minutes >= 0,
        minutes * 60_000_000_000 <= end - t < (minutes + 1) * 60_000_000_000,
    ensures
        human_duration_text(Some(stamp), end) == duration_phrase(minutes),
{
    lemma_split(end - t, minutes, end - t - minutes * 60_000_000_000, 60_000_000_000);
}

/// The days left before a certificate expires read as people read them:
/// none left is "less than a day", one is "1 day", more is the number and
/// "days".
pub proof fn law_days_phrase(days: i64)
    ensures
        days == 0 ==> days_phrase(days) == "less than a day"@,
        days == 1 ==> days_phrase(days) == "1 day"@,
        days >= 2 ==> days_phrase(days) == decimal(days as nat) + " days"@,
{
}

} // verus!
