use clockwerk::checker::CheckOutcome;
use clockwerk::state::{apply, TransitionEvent};
use clockwerk::store::{CertificateStatus, CheckMethod, Monitor};

fn monitor(status: &str, failures: i64) -> Monitor {
    Monitor {
        id: 1,
        url: "https://example.com".into(),
        uptime_check_enabled: true,
        check_interval_minutes: 5,
        check_method: CheckMethod::GET,
        look_for_string: String::new(),
        uptime_status: status.into(),
        uptime_failure_reason: None,
        consecutive_failures: failures,
        status_last_change_at: None,
        last_check_at: None,
        down_alert_sent_at: None,
        cert_check_enabled: false,
        cert_status: CertificateStatus::NotYetChecked,
        cert_expires_at: None,
        cert_issuer: None,
        cert_failure_reason: None,
        cert_last_check_at: None,
        cert_expiry_alert_sent_at: None,
        created_at: String::new(),
        updated_at: String::new(),
        last_response_time_ms: None,
    }
}

fn success() -> CheckOutcome {
    CheckOutcome {
        success: true,
        http_status: Some(200),
        response_time_ms: 42,
        failure_reason: None,
    }
}

fn failure() -> CheckOutcome {
    CheckOutcome {
        success: false,
        http_status: None,
        response_time_ms: 42,
        failure_reason: Some("timeout".into()),
    }
}

#[test]
fn first_success_flips_to_up_with_status_change() {
    let change = apply(&monitor("not_yet_checked", 0), &success(), "T");
    assert_eq!(change.uptime_status, "up");
    assert_eq!(change.consecutive_failures, 0);
    assert_eq!(change.status_changed_at.as_deref(), Some("T"));
    assert_eq!(change.result_status, "up");
    assert!(change.event.is_none());
}

#[test]
fn success_while_up_changes_nothing_visible() {
    let change = apply(&monitor("up", 0), &success(), "T");
    assert_eq!(change.uptime_status, "up");
    assert!(change.status_changed_at.is_none());
    assert!(change.event.is_none());
}

#[test]
fn success_after_down_recovers() {
    let change = apply(&monitor("down", 5), &success(), "T");
    assert_eq!(change.uptime_status, "up");
    assert_eq!(change.consecutive_failures, 0);
    assert!(change.uptime_failure_reason.is_none());
    assert_eq!(change.status_changed_at.as_deref(), Some("T"));
    assert_eq!(change.event, Some(TransitionEvent::Recovered));
}

#[test]
fn single_failure_is_suspicion_not_state() {
    for status in ["up", "not_yet_checked"] {
        let change = apply(&monitor(status, 0), &failure(), "T");
        assert_eq!(change.uptime_status, status, "from {status}");
        assert_eq!(change.consecutive_failures, 1);
        assert_eq!(change.uptime_failure_reason.as_deref(), Some("timeout"));
        assert!(change.status_changed_at.is_none());
        assert_eq!(change.result_status, "down");
        assert!(change.event.is_none());
    }
}

#[test]
fn second_failure_goes_down_and_fires() {
    for status in ["up", "not_yet_checked"] {
        let change = apply(&monitor(status, 1), &failure(), "T");
        assert_eq!(change.uptime_status, "down", "from {status}");
        assert_eq!(change.consecutive_failures, 2);
        assert_eq!(change.status_changed_at.as_deref(), Some("T"));
        assert_eq!(change.event, Some(TransitionEvent::WentDown));
    }
}

#[test]
fn failure_while_down_stays_down_without_refiring() {
    let change = apply(&monitor("down", 2), &failure(), "T");
    assert_eq!(change.uptime_status, "down");
    assert_eq!(change.consecutive_failures, 3);
    assert!(change.status_changed_at.is_none());
    assert!(change.event.is_none());
}

#[test]
fn two_failures_in_a_row_from_a_fresh_monitor_go_down_once() {
    let first = apply(&monitor("not_yet_checked", 0), &failure(), "T1");
    assert_eq!(first.uptime_status, "not_yet_checked");
    let second = apply(
        &monitor(first.uptime_status, first.consecutive_failures),
        &failure(),
        "T2",
    );
    assert_eq!(second.uptime_status, "down");
    assert_eq!(second.event, Some(TransitionEvent::WentDown));
    let third = apply(
        &monitor(second.uptime_status, second.consecutive_failures),
        &failure(),
        "T3",
    );
    assert_eq!(third.uptime_status, "down");
    assert!(third.event.is_none());
}
