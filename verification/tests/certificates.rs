use chrono::{DateTime, Duration, TimeZone, Utc};
use clockwerk::certificate::{
    apply, certificate_target, leaf_metadata, rejected_outcome, verified_outcome,
    CertificateMetadata, CertificateOutcome,
};
use clockwerk::store::{CertificateEvent, CertificateStatus, CheckMethod, Monitor};

// A self-signed P-256 certificate: issuer "CN=Clockwerk Test CA, O=Clockwerk",
// valid until 2030-01-01T00:00:00Z.
const TEST_CERT_DER_HEX: &str = "\
308201b53082015ba00302010202142c90d9d26315bf177174f7e6d17286b7d3dc1104300a06082a8648ce3d04030230\
30311a301806035504030c11436c6f636b7765726b205465737420434131123010060355040a0c09436c6f636b776572\
6b301e170d3236303130313030303030305a170d3330303130313030303030305a3030311a301806035504030c11436c\
6f636b7765726b205465737420434131123010060355040a0c09436c6f636b7765726b3059301306072a8648ce3d0201\
06082a8648ce3d030107034200040d96a9cd47377e62cd24eda936a728cdb3e82a035985ecb118ee281f8b5e945cf088\
bd46a61ae783a6a1844c669e0f7b3da6dca600cf407b79ca3ddabacf74eba3533051301d0603551d0e041604144eaf1f\
c51a2bdbd8c35dc5aca7079ba647bf66dc301f0603551d230418301680144eaf1fc51a2bdbd8c35dc5aca7079ba647bf\
66dc300f0603551d130101ff040530030101ff300a06082a8648ce3d0403020348003045022033a07d11df494dc61f50\
7df13944bfe30a0ea8fccfa0542121ecdde2d496a66a02210093eda47a980169790d704ebe1c1d47918f1638a396eda5\
1ac978cd56e1722c6f";

fn der() -> Vec<u8> {
    (0..TEST_CERT_DER_HEX.len())
        .step_by(2)
        .map(|i| u8::from_str_radix(&TEST_CERT_DER_HEX[i..i + 2], 16).unwrap())
        .collect()
}

fn nanos(t: DateTime<Utc>) -> i128 {
    t.timestamp() as i128 * 1_000_000_000 + t.timestamp_subsec_nanos() as i128
}

fn monitor(status: CertificateStatus) -> Monitor {
    Monitor {
        id: 2,
        url: "https://example.com".into(),
        uptime_check_enabled: true,
        check_interval_minutes: 5,
        check_method: CheckMethod::GET,
        look_for_string: String::new(),
        uptime_status: "up".into(),
        uptime_failure_reason: None,
        consecutive_failures: 0,
        status_last_change_at: None,
        last_check_at: None,
        down_alert_sent_at: None,
        cert_check_enabled: true,
        cert_status: status,
        cert_expires_at: None,
        cert_issuer: None,
        cert_failure_reason: None,
        cert_last_check_at: None,
        cert_expiry_alert_sent_at: None,
        created_at: String::new(),
        updated_at: String::new(),
        last_response_time_ms: None,
    }
}

fn valid_until(expiry: DateTime<Utc>) -> CertificateOutcome {
    CertificateOutcome {
        valid: true,
        expires_at: Some(expiry.to_rfc3339()),
        issuer: Some("CN=Test".into()),
        failure_reason: None,
    }
}

#[test]
fn targets_only_https_urls_with_a_host() {
    let t = certificate_target("https://example.com/health").unwrap();
    assert_eq!((t.host.as_str(), t.port), ("example.com", 443));
    let t = certificate_target("https://example.com:8443").unwrap();
    assert_eq!(t.port, 8443);
    for bad in ["http://example.com", "not a url", "ftp://example.com"] {
        let outcome = certificate_target(bad).unwrap_err();
        assert!(!outcome.valid);
        assert_eq!(
            outcome.failure_reason.as_deref(),
            Some("certificate checks require an https URL"),
            "{bad}"
        );
    }
}

#[test]
fn reads_expiry_and_issuer_from_the_leaf() {
    let metadata = leaf_metadata(&der()).unwrap();
    assert_eq!(metadata.expires_at, "2030-01-01T00:00:00Z");
    assert_eq!(metadata.issuer, "CN=Clockwerk Test CA, O=Clockwerk");
    let err = leaf_metadata(&[0x30, 0x03, 0x02, 0x01]).unwrap_err();
    assert!(err.starts_with("could not parse peer certificate: "), "{err}");
}

#[test]
fn verification_failure_keeps_recovered_metadata() {
    let recovered = CertificateMetadata {
        expires_at: "2020-01-01T00:00:00Z".into(),
        issuer: "CN=Old".into(),
    };
    let outcome = rejected_outcome("certificate has expired", Ok(recovered));
    assert!(!outcome.valid);
    assert_eq!(
        outcome.failure_reason.as_deref(),
        Some("TLS certificate verification failed: certificate has expired")
    );
    assert_eq!(outcome.expires_at.as_deref(), Some("2020-01-01T00:00:00Z"));
    assert_eq!(outcome.issuer.as_deref(), Some("CN=Old"));

    let bare = rejected_outcome("self signed", Err("connection reset".into()));
    assert!(bare.expires_at.is_none() && bare.issuer.is_none());

    let ok = verified_outcome(leaf_metadata(&der()));
    assert!(ok.valid);
    assert_eq!(ok.issuer.as_deref(), Some("CN=Clockwerk Test CA, O=Clockwerk"));
    let unreadable = verified_outcome(Err("server did not provide a certificate".into()));
    assert!(!unreadable.valid);
    assert_eq!(
        unreadable.failure_reason.as_deref(),
        Some("server did not provide a certificate")
    );
}

#[test]
fn becoming_invalid_fires_once_per_episode() {
    let now = nanos(Utc::now());
    let invalid = CertificateOutcome::invalid("expired".into());
    let change = apply(&monitor(CertificateStatus::Valid), &invalid, now);
    assert_eq!(change.cert_status, CertificateStatus::Invalid);
    assert_eq!(change.event, Some(CertificateEvent::BecameInvalid));
    assert_eq!(change.cert_failure_reason.as_deref(), Some("expired"));
    let first = apply(&monitor(CertificateStatus::NotYetChecked), &invalid, now);
    assert_eq!(first.event, Some(CertificateEvent::BecameInvalid));
    let again = apply(&monitor(CertificateStatus::Invalid), &invalid, now);
    assert_eq!(again.event, None);
}

#[test]
fn expiry_warning_within_ten_days_at_most_daily() {
    let now = Utc.with_ymd_and_hms(2026, 8, 12, 12, 0, 0).unwrap();
    let soon = valid_until(now + Duration::days(3) + Duration::hours(5));
    let change = apply(&monitor(CertificateStatus::Valid), &soon, nanos(now));
    assert_eq!(change.cert_status, CertificateStatus::Valid);
    assert_eq!(
        change.event,
        Some(CertificateEvent::ExpiresSoon { days_remaining: 3 })
    );

    let far = valid_until(now + Duration::days(10) + Duration::hours(1));
    assert_eq!(apply(&monitor(CertificateStatus::Valid), &far, nanos(now)).event, None);
    let edge = valid_until(now + Duration::days(10));
    assert_eq!(
        apply(&monitor(CertificateStatus::Valid), &edge, nanos(now)).event,
        Some(CertificateEvent::ExpiresSoon { days_remaining: 10 })
    );

    let mut warned = monitor(CertificateStatus::Valid);
    warned.cert_expiry_alert_sent_at = Some((now - Duration::hours(5)).to_rfc3339());
    assert_eq!(apply(&warned, &soon, nanos(now)).event, None);
    warned.cert_expiry_alert_sent_at = Some((now - Duration::hours(24)).to_rfc3339());
    assert_eq!(
        apply(&warned, &soon, nanos(now)).event,
        Some(CertificateEvent::ExpiresSoon { days_remaining: 3 })
    );

    let unreadable = CertificateOutcome {
        expires_at: Some("soon".into()),
        ..soon.clone()
    };
    assert_eq!(apply(&monitor(CertificateStatus::Valid), &unreadable, nanos(now)).event, None);
}
