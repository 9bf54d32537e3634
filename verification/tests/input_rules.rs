use clockwerk::error::{from_db_failure, AppError, DbFailure};
use clockwerk::secrets::{delete_result, read_result, unavailable, write_result, KeychainFailure};
use clockwerk::slack::{delivery_verdict, validate_webhook_url};
use clockwerk::store::{
    resolve_cert_enabled, settings_from_stored, settings_stored_value, validate, CertificateStatus,
    CheckMethod, MonitorInput, Settings,
};

fn input(url: &str) -> MonitorInput {
    MonitorInput {
        url: url.into(),
        check_interval_minutes: 5,
        check_method: CheckMethod::GET,
        look_for_string: String::new(),
        uptime_check_enabled: true,
        cert_check_enabled: None,
    }
}

#[test]
fn webhook_validation() {
    assert!(validate_webhook_url("https://hooks.slack.com/services/T0/B0/x").is_ok());
    for bad in [
        "http://hooks.slack.com/services/T0/B0/x",
        "https://example.com/services/T0/B0/x",
        "https://hooks.slack.com.evil.example/x",
        "not a url",
    ] {
        assert!(validate_webhook_url(bad).is_err(), "accepted: {bad}");
    }
}

#[test]
fn webhook_errors_say_why() {
    match validate_webhook_url("https://example.com/x") {
        Err(AppError::InvalidUrl(m)) => {
            assert_eq!(m, "webhook must be an https URL on hooks.slack.com")
        }
        other => panic!("{other:?}"),
    }
    match validate_webhook_url("not a url") {
        Err(AppError::InvalidUrl(m)) => assert!(m.starts_with("invalid webhook URL: "), "{m}"),
        other => panic!("{other:?}"),
    }
    assert!(delivery_verdict(200).is_ok());
    match delivery_verdict(404) {
        Err(AppError::Internal(m)) => assert_eq!(m, "slack delivery failed: HTTP 404"),
        other => panic!("{other:?}"),
    }
}

#[test]
fn rejects_bad_scheme() {
    for url in ["ftp://example.com", "file:///etc/passwd", "not a url"] {
        let err = validate(&input(url)).err().unwrap();
        assert!(matches!(err, AppError::InvalidUrl(_)), "url: {url}");
    }
}

#[test]
fn rejects_interval_below_one() {
    let mut i = input("https://example.com");
    i.check_interval_minutes = 0;
    assert!(matches!(
        validate(&i).err().unwrap(),
        AppError::InvalidInput(_)
    ));
}

#[test]
fn rejects_head_with_look_for_string() {
    let mut i = input("https://example.com");
    i.check_method = CheckMethod::HEAD;
    i.look_for_string = "ok".into();
    assert!(matches!(
        validate(&i).err().unwrap(),
        AppError::InvalidInput(_)
    ));
}

#[test]
fn validation_trims_and_names_the_problem() {
    let mut i = input("  https://example.com/health \n");
    i.look_for_string = "  ok ".into();
    let v = validate(&i).ok().unwrap();
    assert_eq!(v.url, "https://example.com/health");
    assert_eq!(v.look_for_string, "ok");
    assert!(v.is_https);
    match validate(&input("ftp://example.com")).err().unwrap() {
        AppError::InvalidUrl(m) => assert_eq!(m, "URL must use http or https (got ftp)"),
        other => panic!("{other:?}"),
    }
    match validate(&input("not a url")).err().unwrap() {
        AppError::InvalidUrl(m) => assert!(m.starts_with("invalid URL: "), "{m}"),
        other => panic!("{other:?}"),
    }
    // A HEAD check with only white space to look for is fine: it trims away.
    let mut head = input("https://example.com");
    head.check_method = CheckMethod::HEAD;
    head.look_for_string = "   ".into();
    assert!(validate(&head).is_ok());
}

#[test]
fn cert_check_defaults_follow_scheme() {
    // https defaults on; explicit off is honored.
    let https = validate(&input("https://a.example")).ok().unwrap();
    assert!(resolve_cert_enabled(&https, true));
    let mut off = input("https://b.example");
    off.cert_check_enabled = Some(false);
    assert!(!resolve_cert_enabled(&validate(&off).ok().unwrap(), true));
    // http forces off even when explicitly requested.
    let mut http = input("http://c.example");
    http.cert_check_enabled = Some(true);
    assert!(!resolve_cert_enabled(&validate(&http).ok().unwrap(), true));
}

#[test]
fn update_without_cert_choice_preserves_stored_toggle() {
    // No explicit choice on update → stored value survives.
    let plain = validate(&input("https://a.example")).ok().unwrap();
    assert!(!resolve_cert_enabled(&plain, false));
    // Explicit choice on update is honored.
    let mut on = input("https://a.example");
    on.cert_check_enabled = Some(true);
    assert!(resolve_cert_enabled(&validate(&on).ok().unwrap(), false));
    // Switching to http forces it off.
    let http = validate(&input("http://a.example")).ok().unwrap();
    assert!(!resolve_cert_enabled(&http, true));
}

#[test]
fn settings_round_trip() {
    assert!(!settings_from_stored(None).autostart_enabled);
    assert!(!Settings::default().autostart_enabled);
    let stored = settings_stored_value(&Settings {
        autostart_enabled: true,
    });
    assert_eq!(stored, "true");
    assert!(settings_from_stored(Some(stored)).autostart_enabled);
    assert!(!settings_from_stored(Some("yes")).autostart_enabled);
}

#[test]
fn stored_names_read_back() {
    for m in [CheckMethod::GET, CheckMethod::HEAD, CheckMethod::POST] {
        assert_eq!(CheckMethod::from_db(m.as_str()), m);
    }
    assert_eq!(CheckMethod::from_db("PUT"), CheckMethod::GET);
    for s in [
        CertificateStatus::NotYetChecked,
        CertificateStatus::Valid,
        CertificateStatus::Invalid,
    ] {
        assert_eq!(CertificateStatus::from_db(s.as_str()), s);
    }
    assert_eq!(
        CertificateStatus::from_db("unknown"),
        CertificateStatus::NotYetChecked
    );
}

#[test]
fn error_codes_and_messages() {
    assert_eq!(AppError::DuplicateUrl.code(), "DuplicateUrl");
    assert_eq!(AppError::NotFound.message(), "monitor not found");
    assert_eq!(AppError::Db("locked".into()).message(), "database error: locked");
    assert_eq!(AppError::InvalidInput("x".into()).code(), "InvalidInput");
    assert!(matches!(
        from_db_failure(DbFailure::UniqueViolation),
        AppError::DuplicateUrl
    ));
    assert!(matches!(from_db_failure(DbFailure::NoRows), AppError::NotFound));
    match from_db_failure(DbFailure::Other("disk I/O error".into())) {
        AppError::Db(m) => assert_eq!(m, "disk I/O error"),
        other => panic!("{other:?}"),
    }
}

#[test]
fn keychain_answers() {
    assert_eq!(
        read_result(Ok("https://hooks.slack.com/x".into())).unwrap(),
        Some("https://hooks.slack.com/x".to_string())
    );
    assert_eq!(read_result(Err(KeychainFailure::NoEntry)).unwrap(), None);
    match read_result(Err(KeychainFailure::Other("locked".into()))) {
        Err(AppError::Internal(m)) => assert_eq!(m, "keychain read failed: locked"),
        other => panic!("{other:?}"),
    }
    assert!(write_result(Ok(())).is_ok());
    match write_result(Err("denied".into())) {
        Err(AppError::Internal(m)) => assert_eq!(m, "keychain write failed: denied"),
        other => panic!("{other:?}"),
    }
    assert!(delete_result(Err(KeychainFailure::NoEntry)).is_ok());
    assert!(delete_result(Err(KeychainFailure::Other("x".into()))).is_err());
    match unavailable("no service") {
        AppError::Internal(m) => assert_eq!(m, "keychain unavailable: no service"),
        other => panic!("{other:?}"),
    }
}

#[test]
fn trimming_removes_exactly_unicode_white_space() {
    for u in 0..=0x10FFFFu32 {
        if let Some(c) = char::from_u32(u) {
            let s = format!("{c}");
            let trimmed = clockwerk::text::trim_string(&s);
            assert_eq!(trimmed.is_empty(), c.is_whitespace(), "U+{u:04X}");
        }
    }
}
