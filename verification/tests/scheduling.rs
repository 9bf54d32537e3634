use chrono::{DateTime, Utc};
use clockwerk::certificate;
use clockwerk::engine::{
    after_prune_batch, checked_ids, completion_payload, due_for_certificate, due_for_uptime,
    is_due, retention_cutoff, select_by_ids, SchedulerOutcome, RETENTION_BATCH_SIZE,
};
use clockwerk::error::AppError;
use clockwerk::store::{CertificateStatus, CheckMethod, Monitor, RecordedCheck};

fn nanos(t: DateTime<Utc>) -> i128 {
    t.timestamp() as i128 * 1_000_000_000 + t.timestamp_subsec_nanos() as i128
}

fn monitor_due_probe(overrides: impl FnOnce(&mut Monitor)) -> Monitor {
    let mut m = Monitor {
        id: 1,
        url: "https://example.com".into(),
        uptime_check_enabled: true,
        check_interval_minutes: 5,
        check_method: CheckMethod::GET,
        look_for_string: String::new(),
        uptime_status: "up".into(),
        uptime_failure_reason: None,
        consecutive_failures: 0,
        status_last_change_at: None,
        last_check_at: None,
        down_alert_sent_at: None,
        cert_check_enabled: false,
        cert_status: CertificateStatus::NotYetChecked,
        cert_expires_at: None,
        cert_issuer: None,
        cert_failure_reason: None,
        cert_last_check_at: None,
        cert_expiry_alert_sent_at: None,
        created_at: String::new(),
        updated_at: String::new(),
        last_response_time_ms: None,
    };
    overrides(&mut m);
    m
}

#[test]
fn due_rules() {
    let now = Utc::now();
    let recent = (now - chrono::Duration::minutes(2)).to_rfc3339();
    let stale = (now - chrono::Duration::minutes(6)).to_rfc3339();
    let now = nanos(now);

    // Disabled: never due.
    assert!(!is_due(
        &monitor_due_probe(|m| m.uptime_check_enabled = false),
        now
    ));
    // Never checked / no timestamp: due.
    assert!(is_due(
        &monitor_due_probe(|m| m.uptime_status = "not_yet_checked".into()),
        now
    ));
    assert!(is_due(&monitor_due_probe(|m| m.last_check_at = None), now));
    // Down: due every tick even if just checked.
    assert!(is_due(
        &monitor_due_probe(|m| {
            m.uptime_status = "down".into();
            m.last_check_at = Some(recent.clone());
        }),
        now
    ));
    // Up + recent: not due. Up + interval elapsed: due.
    assert!(!is_due(
        &monitor_due_probe(|m| m.last_check_at = Some(recent.clone())),
        now
    ));
    assert!(is_due(
        &monitor_due_probe(|m| m.last_check_at = Some(stale.clone())),
        now
    ));
}

#[test]
fn unreadable_last_check_time_never_hides_a_monitor() {
    let now = nanos(Utc::now());
    assert!(is_due(
        &monitor_due_probe(|m| m.last_check_at = Some("garbage".into())),
        now
    ));
}

#[test]
fn interval_counts_whole_minutes() {
    let now = Utc::now();
    let just_under = (now - chrono::Duration::seconds(299)).to_rfc3339();
    let exactly = (now - chrono::Duration::minutes(5)).to_rfc3339();
    let now = nanos(now);
    assert!(!is_due(
        &monitor_due_probe(|m| m.last_check_at = Some(just_under.clone())),
        now
    ));
    assert!(is_due(
        &monitor_due_probe(|m| m.last_check_at = Some(exactly.clone())),
        now
    ));
}

#[test]
fn due_positions_keep_list_order() {
    let now = Utc::now();
    let recent = (now - chrono::Duration::minutes(2)).to_rfc3339();
    let monitors = vec![
        monitor_due_probe(|m| m.last_check_at = Some(recent.clone())),
        monitor_due_probe(|m| m.uptime_status = "down".into()),
        monitor_due_probe(|m| m.uptime_check_enabled = false),
        monitor_due_probe(|m| m.last_check_at = None),
    ];
    assert_eq!(due_for_uptime(&monitors, nanos(now)), vec![1, 3]);

    let certs = vec![
        monitor_due_probe(|m| m.cert_check_enabled = true),
        monitor_due_probe(|m| {
            m.cert_check_enabled = true;
            m.cert_last_check_at = Some(recent.clone());
        }),
        monitor_due_probe(|m| m.cert_check_enabled = false),
    ];
    assert_eq!(due_for_certificate(&certs, nanos(now)), vec![0]);
}

#[test]
fn explicit_selection_fails_whole_on_an_unknown_id() {
    let monitors = vec![
        monitor_due_probe(|m| m.id = 4),
        monitor_due_probe(|m| {
            m.id = 9;
            m.uptime_check_enabled = false;
        }),
    ];
    assert_eq!(select_by_ids(&monitors, &[9, 4]).unwrap(), vec![1, 0]);
    assert!(matches!(
        select_by_ids(&monitors, &[4, 108]),
        Err(AppError::NotFound)
    ));
}

#[test]
fn completion_event_only_when_something_was_checked() {
    let recorded = vec![RecordedCheck {
        before: monitor_due_probe(|m| m.id = 3),
        after: monitor_due_probe(|m| m.id = 3),
        event: None,
    }];
    let ids = checked_ids(&recorded);
    assert_eq!(ids, vec![3]);
    let payload = completion_payload(SchedulerOutcome::Checked(ids)).unwrap();
    assert_eq!(payload.monitor_ids, vec![3]);
    assert!(completion_payload(SchedulerOutcome::Checked(Vec::new())).is_none());
    assert!(completion_payload(SchedulerOutcome::Complete).is_none());
}

#[test]
fn retention_prunes_ninety_days_in_batches() {
    let now = chrono::TimeZone::with_ymd_and_hms(&Utc, 2026, 8, 12, 12, 0, 0).unwrap();
    let cutoff = chrono::TimeZone::with_ymd_and_hms(&Utc, 2026, 5, 14, 12, 0, 0).unwrap();
    assert_eq!(retention_cutoff(nanos(now)), nanos(cutoff));
    assert_eq!(after_prune_batch(0, RETENTION_BATCH_SIZE), (5_000, true));
    assert_eq!(after_prune_batch(5_000, 12), (5_012, false));
}

#[test]
fn daily_due_rules() {
    let now = Utc::now();
    let mut value = monitor_due_probe(|m| m.cert_check_enabled = true);
    assert!(certificate::is_due(&value, nanos(now)));
    value.cert_last_check_at = Some((now - chrono::Duration::hours(23)).to_rfc3339());
    assert!(!certificate::is_due(&value, nanos(now)));
    value.cert_last_check_at = Some((now - chrono::Duration::hours(24)).to_rfc3339());
    assert!(certificate::is_due(&value, nanos(now)));
    value.cert_check_enabled = false;
    assert!(!certificate::is_due(&value, nanos(now)));
}
