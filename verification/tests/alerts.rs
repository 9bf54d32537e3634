use chrono::{DateTime, Utc};
use clockwerk::alerter::{
    decide_after_certificate_check, decide_after_check, decide_still_down,
    human_duration_between, is_certificate_stale, is_stale, slack_text, Alert, Delivery,
    DeliveryAction, DeliveryEvent, DeliveryPhase,
};
use clockwerk::state::TransitionEvent;
use clockwerk::store::{
    CertificateEvent, CertificateStatus, CheckMethod, Monitor, RecordedCertificateCheck,
    RecordedCheck,
};

fn nanos(t: DateTime<Utc>) -> i128 {
    t.timestamp() as i128 * 1_000_000_000 + t.timestamp_subsec_nanos() as i128
}

fn monitor(status: &str) -> Monitor {
    Monitor {
        id: 7,
        url: "https://example.com".into(),
        uptime_check_enabled: true,
        check_interval_minutes: 5,
        check_method: CheckMethod::GET,
        look_for_string: String::new(),
        uptime_status: status.into(),
        uptime_failure_reason: None,
        consecutive_failures: 0,
        status_last_change_at: None,
        last_check_at: None,
        down_alert_sent_at: None,
        cert_check_enabled: false,
        cert_status: CertificateStatus::NotYetChecked,
        cert_expires_at: None,
        cert_issuer: None,
        cert_failure_reason: None,
        cert_last_check_at: None,
        cert_expiry_alert_sent_at: None,
        created_at: String::new(),
        updated_at: String::new(),
        last_response_time_ms: None,
    }
}

fn recorded(before: Monitor, after: Monitor, event: Option<TransitionEvent>) -> RecordedCheck {
    RecordedCheck {
        before,
        after,
        event,
    }
}

#[test]
fn went_down_fires_and_stamps() {
    let mut after = monitor("down");
    after.uptime_failure_reason = Some("HTTP 500".into());
    let alert = decide_after_check(
        &recorded(monitor("up"), after, Some(TransitionEvent::WentDown)),
        nanos(Utc::now()),
    )
    .unwrap();
    assert_eq!(alert.fired_for_status, "down");
    assert!(alert.sent_at_update.is_some());
    assert!(alert.body.contains("HTTP 500"));
}

#[test]
fn no_event_no_alert() {
    assert!(decide_after_check(
        &recorded(monitor("up"), monitor("up"), None),
        nanos(Utc::now())
    )
    .is_none());
}

#[test]
fn recovery_is_silent_without_prior_down_alert() {
    let before = monitor("down");
    let alert = decide_after_check(
        &recorded(before, monitor("up"), Some(TransitionEvent::Recovered)),
        nanos(Utc::now()),
    );
    assert!(alert.is_none());
}

#[test]
fn recovery_fires_and_clears_after_down_alert() {
    let now = Utc::now();
    let mut before = monitor("down");
    before.down_alert_sent_at = Some(now.to_rfc3339());
    before.status_last_change_at = Some((now - chrono::Duration::minutes(90)).to_rfc3339());
    let alert = decide_after_check(
        &recorded(before, monitor("up"), Some(TransitionEvent::Recovered)),
        nanos(now),
    )
    .unwrap();
    assert_eq!(alert.fired_for_status, "up");
    assert!(alert.sent_at_update.is_none());
    assert!(alert.body.contains("1h 30m"), "body: {}", alert.body);
}

#[test]
fn still_down_realerts_only_after_the_window() {
    let now = Utc::now();
    let mut m = monitor("down");
    m.status_last_change_at = Some((now - chrono::Duration::minutes(120)).to_rfc3339());

    m.down_alert_sent_at = Some((now - chrono::Duration::minutes(30)).to_rfc3339());
    assert!(decide_still_down(&m, nanos(now)).is_none());

    m.down_alert_sent_at = Some((now - chrono::Duration::minutes(61)).to_rfc3339());
    let alert = decide_still_down(&m, nanos(now)).unwrap();
    assert!(alert.body.contains("2h 0m"), "body: {}", alert.body);
    assert!(alert.sent_at_update.is_some());
}

#[test]
fn failed_or_missing_down_alert_is_retried() {
    let now = nanos(Utc::now());
    assert!(decide_still_down(&monitor("up"), now).is_none());
    assert!(decide_still_down(&monitor("down"), now).is_some());
}

#[test]
fn stale_guard() {
    let alert = Alert {
        monitor_id: 1,
        title: String::new(),
        body: String::new(),
        fired_for_status: "down",
        fired_for_status_changed_at: Some("episode-1".into()),
        sent_at_update: None,
    };
    assert!(is_stale(&alert, "up", Some("episode-1")));
    assert!(is_stale(&alert, "down", Some("episode-2")));
    assert!(!is_stale(&alert, "down", Some("episode-1")));
}

#[test]
fn slack_text_uses_status_emoji() {
    let now = nanos(Utc::now());
    let down = Alert {
        monitor_id: 1,
        title: String::new(),
        body: "x is down".into(),
        fired_for_status: "down",
        fired_for_status_changed_at: None,
        sent_at_update: None,
    };
    assert!(slack_text(&down, now).starts_with("🔴"));
    let up = Alert {
        fired_for_status: "up",
        ..down
    };
    assert!(slack_text(&up, now).starts_with("✅"));
}

#[test]
fn human_durations() {
    let now = Utc::now();
    let ago = |m: i64| Some((now - chrono::Duration::minutes(m)).to_rfc3339());
    let end = nanos(now);
    assert_eq!(
        human_duration_between(ago(0).as_deref(), end),
        "less than a minute"
    );
    assert_eq!(human_duration_between(ago(5).as_deref(), end), "5 min");
    assert_eq!(human_duration_between(ago(75).as_deref(), end), "1h 15m");
    assert_eq!(human_duration_between(ago(3000).as_deref(), end), "2d 2h");
    assert_eq!(human_duration_between(None, end), "an unknown time");
}

#[test]
fn certificate_alerts_format_and_guard_the_recorded_check() {
    let now = nanos(Utc::now());
    let mut after = monitor("up");
    after.cert_status = CertificateStatus::Invalid;
    after.cert_failure_reason = Some("certificate expired".into());
    after.cert_last_check_at = Some("check-1".into());
    let invalid = decide_after_certificate_check(
        &RecordedCertificateCheck {
            after,
            event: Some(CertificateEvent::BecameInvalid),
        },
        now,
    )
    .unwrap();
    assert!(invalid.body.contains("certificate expired"));
    assert!(!is_certificate_stale(
        &invalid,
        CertificateStatus::Invalid,
        Some("check-1")
    ));
    assert!(is_certificate_stale(
        &invalid,
        CertificateStatus::Valid,
        Some("check-1")
    ));

    let mut expiring_after = monitor("up");
    expiring_after.cert_status = CertificateStatus::Valid;
    expiring_after.cert_last_check_at = Some("check-2".into());
    let expiring = decide_after_certificate_check(
        &RecordedCertificateCheck {
            after: expiring_after,
            event: Some(CertificateEvent::ExpiresSoon { days_remaining: 3 }),
        },
        now,
    )
    .unwrap();
    assert!(expiring.body.contains("3 days"));
    assert!(expiring.expiry_sent_at_update.is_some());
}

#[test]
fn down_alert_text_names_url_and_reason_and_stamps_now() {
    let now = chrono::TimeZone::with_ymd_and_hms(&Utc, 2026, 8, 12, 12, 0, 0).unwrap();
    let mut after = monitor("down");
    after.status_last_change_at = Some("2026-08-12T11:59:00.000Z".into());
    let alert = decide_after_check(
        &recorded(monitor("up"), after, Some(TransitionEvent::WentDown)),
        nanos(now),
    )
    .unwrap();
    assert_eq!(alert.title, "Monitor down");
    assert_eq!(alert.body, "https://example.com is down: check failed");
    assert_eq!(alert.monitor_id, 7);
    assert_eq!(
        alert.fired_for_status_changed_at.as_deref(),
        Some("2026-08-12T11:59:00.000Z")
    );
    assert_eq!(
        alert.sent_at_update.as_deref(),
        Some("2026-08-12T12:00:00+00:00")
    );
}

#[test]
fn still_down_alert_goes_out_when_the_stamp_is_unreadable() {
    let now = Utc::now();
    let mut m = monitor("down");
    m.down_alert_sent_at = Some("yesterday".into());
    let alert = decide_still_down(&m, nanos(now)).unwrap();
    assert_eq!(alert.title, "Monitor still down");
    assert_eq!(alert.body, "https://example.com has been down for an unknown time");
}

#[test]
fn slack_text_appends_the_minute_stamp() {
    let now = chrono::TimeZone::with_ymd_and_hms(&Utc, 2026, 8, 12, 9, 5, 30).unwrap();
    let alert = Alert {
        monitor_id: 1,
        title: String::new(),
        body: "x is down".into(),
        fired_for_status: "down",
        fired_for_status_changed_at: None,
        sent_at_update: None,
    };
    assert_eq!(
        slack_text(&alert, nanos(now)),
        "🔴 x is down (2026-08-12 09:05 UTC)"
    );
}

#[test]
fn certificate_expiry_alert_counts_days() {
    let now = nanos(Utc::now());
    let mut after = monitor("up");
    after.cert_status = CertificateStatus::Valid;
    after.cert_last_check_at = Some("check-3".into());
    for (days, text) in [(0, "less than a day"), (1, "1 day"), (10, "10 days")] {
        let alert = decide_after_certificate_check(
            &RecordedCertificateCheck {
                after: after.clone(),
                event: Some(CertificateEvent::ExpiresSoon {
                    days_remaining: days,
                }),
            },
            now,
        )
        .unwrap();
        assert_eq!(
            alert.body,
            format!("https://example.com TLS certificate expires in {text}")
        );
        assert_eq!(alert.fired_for_check_at, "check-3");
    }
    // Without a recorded check time there is nothing to guard: no alert.
    let mut unchecked = monitor("up");
    unchecked.cert_status = CertificateStatus::Invalid;
    assert!(decide_after_certificate_check(
        &RecordedCertificateCheck {
            after: unchecked,
            event: Some(CertificateEvent::BecameInvalid),
        },
        now,
    )
    .is_none());
}

#[test]
fn delivery_skips_stale_channels_and_records_once() {
    let (d, a) = Delivery::start().step(DeliveryEvent::Begin);
    assert_eq!(a, DeliveryAction::CheckCurrent);
    // Stale at the native boundary: straight to the webhook, nothing shown.
    let (d2, a2) = d.step(DeliveryEvent::Current(false));
    assert_eq!(a2, DeliveryAction::ReadWebhook);
    let (d3, a3) = d2.step(DeliveryEvent::Webhook(true));
    assert_eq!(a3, DeliveryAction::CheckCurrent);
    // Stale again at the Slack boundary: done, nothing sent or recorded.
    let (d4, a4) = d3.step(DeliveryEvent::Current(false));
    assert_eq!(a4, DeliveryAction::Finish);
    assert_eq!(d4.phase, DeliveryPhase::Done);
    assert!(!d4.recorded);

    // Current: shown, recorded, then Slack accepted without a second write.
    let (d, _) = Delivery::start().step(DeliveryEvent::Begin);
    let (d, a) = d.step(DeliveryEvent::Current(true));
    assert_eq!(a, DeliveryAction::ShowNotification);
    let (d, a) = d.step(DeliveryEvent::Delivered(true));
    assert_eq!(a, DeliveryAction::RecordDelivery);
    let (d, a) = d.step(DeliveryEvent::Recorded(true));
    assert_eq!(a, DeliveryAction::ReadWebhook);
    let (d, _) = d.step(DeliveryEvent::Webhook(true));
    let (d, a) = d.step(DeliveryEvent::Current(true));
    assert_eq!(a, DeliveryAction::SendSlack);
    let (d, a) = d.step(DeliveryEvent::Delivered(true));
    assert_eq!(a, DeliveryAction::Finish);
    assert!(d.recorded);

    // A failed notification leaves the write to Slack's acceptance.
    let (d, _) = Delivery::start().step(DeliveryEvent::Begin);
    let (d, _) = d.step(DeliveryEvent::Current(true));
    let (d, a) = d.step(DeliveryEvent::Delivered(false));
    assert_eq!(a, DeliveryAction::ReadWebhook);
    let (d, _) = d.step(DeliveryEvent::Webhook(true));
    let (d, _) = d.step(DeliveryEvent::Current(true));
    let (_, a) = d.step(DeliveryEvent::Delivered(true));
    assert_eq!(a, DeliveryAction::RecordDelivery);
}

#[test]
fn still_down_stamp_rearms_the_alert_after_an_hour() {
    let now = chrono::TimeZone::with_ymd_and_hms(&Utc, 2026, 8, 12, 12, 0, 0).unwrap();
    let mut m = monitor("down");
    let first = decide_still_down(&m, nanos(now)).unwrap();
    m.down_alert_sent_at = first.sent_at_update.clone();
    assert_eq!(
        clockwerk::time::parse_timestamp(m.down_alert_sent_at.as_deref().unwrap()),
        Some(nanos(now))
    );
    let later = now + chrono::Duration::minutes(59);
    assert!(decide_still_down(&m, nanos(later)).is_none());
    let hour = now + chrono::Duration::minutes(60);
    assert!(decide_still_down(&m, nanos(hour)).is_some());
}
