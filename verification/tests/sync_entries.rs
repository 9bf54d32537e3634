use clockwerk::error::AppError;
use clockwerk::store::{CertificateStatus, CheckMethod, Monitor};
use clockwerk::sync::{
    check_sync_file, entry_decode_error, entry_error, merge_entry, not_an_array,
    readable_serde_message, SyncEntry, MAX_SYNC_FILE_BYTES,
};

fn entry(url: &str) -> SyncEntry {
    SyncEntry {
        url: url.into(),
        uptime_check_enabled: None,
        check_interval_minutes: None,
        check_method: None,
        look_for_string: None,
        cert_check_enabled: None,
    }
}

fn existing() -> Monitor {
    Monitor {
        id: 5,
        url: "https://a.test".into(),
        uptime_check_enabled: false,
        check_interval_minutes: 15,
        check_method: CheckMethod::POST,
        look_for_string: "ok".into(),
        uptime_status: "up".into(),
        uptime_failure_reason: None,
        consecutive_failures: 0,
        status_last_change_at: None,
        last_check_at: None,
        down_alert_sent_at: None,
        cert_check_enabled: true,
        cert_status: CertificateStatus::Valid,
        cert_expires_at: None,
        cert_issuer: None,
        cert_failure_reason: None,
        cert_last_check_at: None,
        cert_expiry_alert_sent_at: None,
        created_at: String::new(),
        updated_at: String::new(),
        last_response_time_ms: None,
    }
}

fn message(e: AppError) -> String {
    match e {
        AppError::InvalidInput(m) => m,
        other => panic!("{other:?}"),
    }
}

#[test]
fn absent_keys_keep_current_values() {
    let current = existing();
    let merged = merge_entry(&entry("https://a.test"), Some(&current));
    assert_eq!(merged.url, "https://a.test");
    assert_eq!(merged.check_interval_minutes, 15);
    assert_eq!(merged.check_method, CheckMethod::POST);
    assert_eq!(merged.look_for_string, "ok");
    assert!(!merged.uptime_check_enabled);
    assert_eq!(merged.cert_check_enabled, None);
}

#[test]
fn absent_keys_take_create_defaults_for_a_new_monitor() {
    let merged = merge_entry(&entry("https://new.test"), None);
    assert_eq!(merged.check_interval_minutes, 5);
    assert_eq!(merged.check_method, CheckMethod::GET);
    assert_eq!(merged.look_for_string, "");
    assert!(merged.uptime_check_enabled);
}

#[test]
fn named_keys_win_and_head_clears_an_unnamed_look_for_string() {
    let current = existing();
    let mut e = entry("https://a.test");
    e.check_method = Some(CheckMethod::HEAD);
    let merged = merge_entry(&e, Some(&current));
    assert_eq!(merged.check_method, CheckMethod::HEAD);
    assert_eq!(merged.look_for_string, "");

    e.look_for_string = Some("named".into());
    e.check_interval_minutes = Some(1);
    e.uptime_check_enabled = Some(true);
    e.cert_check_enabled = Some(false);
    let merged = merge_entry(&e, Some(&current));
    assert_eq!(merged.look_for_string, "named");
    assert_eq!(merged.check_interval_minutes, 1);
    assert!(merged.uptime_check_enabled);
    assert_eq!(merged.cert_check_enabled, Some(false));
}

#[test]
fn decoder_messages_lose_their_position() {
    assert_eq!(
        readable_serde_message("unknown field `uptime_status`, expected one of `url` at line 1 column 52"),
        "unknown field `uptime_status`, expected one of `url`"
    );
    assert_eq!(readable_serde_message("missing field `url`"), "missing field `url`");
    assert_eq!(
        message(entry_decode_error(1, "unknown variant `PUT` at line 1 column 40")),
        "entry 2: unknown variant `PUT`"
    );
    assert_eq!(
        message(entry_error(0, "missing field `url`".into())),
        "entry 1: missing field `url`"
    );
    assert_eq!(
        message(not_an_array()),
        "the file must contain a JSON array of monitor objects"
    );
}

#[test]
fn sync_file_must_be_a_small_regular_file() {
    assert!(check_sync_file(true, MAX_SYNC_FILE_BYTES).is_ok());
    assert_eq!(
        message(check_sync_file(true, MAX_SYNC_FILE_BYTES + 1).unwrap_err()),
        "the file is larger than the 1 MB import limit"
    );
    assert_eq!(
        message(check_sync_file(false, 10).unwrap_err()),
        "the selected path is not a file"
    );
}
