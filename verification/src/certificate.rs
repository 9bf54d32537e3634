//! TLS certificate checks: the daily schedule, the decisions a check makes
//! about the monitor's certificate state, and the reading of the leaf
//! certificate.
//!
//! The handshakes themselves (an authoritative one against the platform trust
//! store and, when that rejects the peer, an inspection-only one that
//! recovers the leaf's metadata) are network I/O and run in the application
//! layer; it hands the results to the functions here.

use vstd::prelude::*;
use vstd::string::*;

use crate::store::{CertificateEvent, CertificateStatus, Monitor};
use crate::text::{opt_as_str, opt_str_text, opt_text};
use crate::time::{
    parse_timestamp, parsed_instant, rfc3339_secs, time_bounded, trunc_div, utc_seconds_text,
    MAX_UTC_SECS, MIN_UTC_SECS, NANOS_PER_DAY, NANOS_PER_HOUR,
};
use crate::weburl::{parse_url, url_parse};

verus! {

/// A certificate is re-checked once this many hours have passed.
pub const CHECK_EVERY_HOURS: i64 = 24;
/// A valid certificate that expires within this many days is warned about.
pub const EXPIRY_WARNING_DAYS: i64 = 10;
/// Budget for one whole certificate check (resolution and both
/// handshakes), in seconds.
pub const CHECK_TIMEOUT_SECS: u64 = 10;
/// Port used when the URL names none.
pub const DEFAULT_HTTPS_PORT: u16 = 443;

/// What one certificate check found.
#[derive(Debug, Clone)]
pub struct CertificateOutcome {
    pub valid: bool,
    pub expires_at: Option<String>,
    pub issuer: Option<String>,
    pub failure_reason: Option<String>,
}

impl CertificateOutcome {
    /// An invalid outcome with nothing recovered.
    pub fn invalid(reason: String) -> (r: Self)
        ensures
            !r.valid,
            r.expires_at is None,
            r.issuer is None,
            r.failure_reason == Some(reason),
    {
        CertificateOutcome { valid: false, expires_at: None, issuer: None, failure_reason: Some(reason) }
    }
}

/// The leaf certificate's expiry (RFC 3339, whole seconds, `Z`) and issuer.
#[derive(Debug, Clone)]
pub struct CertificateMetadata {
    pub expires_at: String,
    pub issuer: String,
}

/// Where the handshake goes: the URL's host and port.
#[derive(Debug, Clone)]
pub struct CertificateTarget {
    pub host: String,
    pub port: u16,
}

/// A daily deadline has passed: no stamp, an unreadable stamp, or at least
/// `CHECK_EVERY_HOURS` since it.
pub open spec fn day_passed(stamp: Option<Seq<char>>, now: int) -> bool {
    match stamp {
        None => true,
        Some(s) => match parsed_instant(s) {
            None => true,
            Some(t) => now - t >= CHECK_EVERY_HOURS * NANOS_PER_HOUR,
        },
    }
}

/// A monitor's certificate is due for a check: checking is enabled and a
/// day has passed since the last one.
pub open spec fn due_spec(m: Monitor, now: int) -> bool {
    m.cert_check_enabled && day_passed(opt_text(m.cert_last_check_at), now)
}

fn day_passed_since(stamp: Option<&str>, now: i128) -> (r: bool)
    requires
        time_bounded(now as int),
    ensures
        r == day_passed(opt_str_text(stamp), now as int),
{
    match stamp {
        None => true,
        Some(s) => match parse_timestamp(s) {
            None => true,
            Some(t) => now - t >= (CHECK_EVERY_HOURS as i128) * NANOS_PER_HOUR,
        },
    }
}

/// Whether the monitor's certificate is due for its daily check at `now`.
pub fn is_due(monitor: &Monitor, now: i128) -> (r: bool)
    requires
        time_bounded(now as int),
    ensures
        r == due_spec(*monitor, now as int),
{
    if !monitor.cert_check_enabled {
        return false;
    }
    day_passed_since(opt_as_str(&monitor.cert_last_check_at), now)
}

/// An invalid outcome with nothing recovered, for the given reason.
pub open spec fn invalid_because(o: CertificateOutcome, reason: Seq<char>) -> bool {
    !o.valid && o.expires_at is None && o.issuer is None && opt_text(o.failure_reason) == Some(reason)
}

/// Where the handshake for `url` goes, or the invalid outcome that ends the
/// check at once: only an https URL with a host is checked, on its explicit
/// port or 443.
pub open spec fn target_spec(url: Seq<char>, r: Result<CertificateTarget, CertificateOutcome>) -> bool {
    match url_parse(url) {
        Ok(parts) if parts.0 == "https"@ => match parts.1 {
            Some(host) => r matches Ok(t) && t.host@ == host && t.port == (match parts.2 {
                Some(p) => p,
                None => DEFAULT_HTTPS_PORT,
            }),
            None => r matches Err(o) && invalid_because(o, "certificate URL has no host"@),
        },
        _ => r matches Err(o) && invalid_because(o, "certificate checks require an https URL"@),
    }
}

/// Reads the handshake target from a monitor URL.
pub fn certificate_target(url: &str) -> (r: Result<CertificateTarget, CertificateOutcome>)
    ensures
        target_spec(url@, r),
{
    let parts = match parse_url(url) {
        Ok(p) => p,
        Err(_) => {
            return Err(
                CertificateOutcome::invalid(String::from_str("certificate checks require an https URL")),
            );
        },
    };
    if !crate::text::str_eq(parts.scheme.as_str(), "https") {
        return Err(
            CertificateOutcome::invalid(String::from_str("certificate checks require an https URL")),
        );
    }
    let host = match parts.host {
        Some(h) => h,
        None => {
            return Err(CertificateOutcome::invalid(String::from_str("certificate URL has no host")));
        },
    };
    let port = match parts.port {
        Some(p) => p,
        None => DEFAULT_HTTPS_PORT,
    };
    Ok(CertificateTarget { host, port })
}

/// What `x509_parser::parse_x509_certificate` makes of DER bytes, read
/// through `validity().not_after.timestamp()` and `issuer().to_string()`;
/// on failure, the error's `Display` text.
pub uninterp spec fn x509_leaf(der: Seq<u8>) -> Result<(i64, Seq<char>), Seq<char>>;

/// Calls `x509_parser::parse_x509_certificate` on the bytes and returns the
/// certificate's not-after time (Unix seconds) and its issuer rendered as
/// text, or the parse error's text. The contract names the result as a
/// function of the bytes.
#[verifier::external_body]
fn read_x509(der: &[u8]) -> (r: Result<(i64, String), String>)
    ensures
        match r {
            Ok((secs, issuer)) => x509_leaf(der@) == Ok::<_, Seq<char>>((secs, issuer@)),
            Err(e) => x509_leaf(der@) == Err::<(i64, Seq<char>), _>(e@),
        },
{
    match x509_parser::parse_x509_certificate(der) {
        Ok((_, parsed)) => Ok((parsed.validity().not_after.timestamp(), parsed.issuer().to_string())),
        Err(e) => Err(e.to_string()),
    }
}

/// The metadata read from a leaf certificate's DER bytes, or why none
/// could be: the bytes do not parse, or the expiry lies outside the range of
/// representable UTC times.
pub open spec fn metadata_spec(der: Seq<u8>, r: Result<CertificateMetadata, String>) -> bool {
    match x509_leaf(der) {
        Err(e) => r matches Err(m) && m@ == "could not parse peer certificate: "@ + e,
        Ok((secs, issuer)) => if MIN_UTC_SECS <= secs <= MAX_UTC_SECS {
            r matches Ok(md) && md.expires_at@ == rfc3339_secs(secs) && md.issuer@ == issuer
        } else {
            r matches Err(m) && m@ == "certificate expiry timestamp is invalid"@
        },
    }
}

/// Reads expiry and issuer from the peer's leaf certificate (DER).
pub fn leaf_metadata(der: &[u8]) -> (r: Result<CertificateMetadata, String>)
    ensures
        metadata_spec(der@, r),
{
    let (secs, issuer) = match read_x509(der) {
        Ok(parsed) => parsed,
        Err(e) => {
            return Err(String::from_str("could not parse peer certificate: ").concat(e.as_str()));
        },
    };
    match utc_seconds_text(secs) {
        Some(expires_at) => Ok(CertificateMetadata { expires_at, issuer }),
        None => Err(String::from_str("certificate expiry timestamp is invalid")),
    }
}

/// The outcome when the authoritative handshake succeeded: valid with the
/// leaf's metadata, or invalid when the leaf could not be read.
pub fn verified_outcome(metadata: Result<CertificateMetadata, String>) -> (r: CertificateOutcome)
    ensures
        match metadata {
            Ok(md) => r.valid && r.expires_at == Some(md.expires_at) && r.issuer == Some(md.issuer)
                && r.failure_reason is None,
            Err(reason) => !r.valid && r.expires_at is None && r.issuer is None
                && r.failure_reason == Some(reason),
        },
{
    match metadata {
        Ok(md) => CertificateOutcome {
            valid: true,
            expires_at: Some(md.expires_at),
            issuer: Some(md.issuer),
            failure_reason: None,
        },
        Err(reason) => CertificateOutcome::invalid(reason),
    }
}

/// The outcome when the authoritative handshake rejected the peer: invalid,
/// whatever the inspection-only handshake recovered, which only fills in the
/// expiry and issuer.
pub fn rejected_outcome(verification_reason: &str, recovered: Result<CertificateMetadata, String>) -> (r:
    CertificateOutcome)
    ensures
        !r.valid,
        r.failure_reason matches Some(m) && m@ == "TLS certificate verification failed: "@
            + verification_reason@,
        match recovered {
            Ok(md) => r.expires_at == Some(md.expires_at) && r.issuer == Some(md.issuer),
            Err(_) => r.expires_at is None && r.issuer is None,
        },
{
    let reason = String::from_str("TLS certificate verification failed: ").concat(
        verification_reason,
    );
    let mut outcome = CertificateOutcome::invalid(reason);
    match recovered {
        Ok(md) => {
            outcome.expires_at = Some(md.expires_at);
            outcome.issuer = Some(md.issuer);
        },
        Err(_) => {},
    }
    outcome
}

/// The certificate columns a recorded check writes, and what it fired.
#[derive(Debug, Clone)]
pub struct CertificateChange {
    pub cert_status: CertificateStatus,
    pub cert_expires_at: Option<String>,
    pub cert_issuer: Option<String>,
    pub cert_failure_reason: Option<String>,
    pub event: Option<CertificateEvent>,
}

/// Certificate status after a check.
pub open spec fn status_after(valid: bool) -> CertificateStatus {
    if valid {
        CertificateStatus::Valid
    } else {
        CertificateStatus::Invalid
    }
}

/// Whole days left in `remaining` nanoseconds; none once it has run out.
pub open spec fn days_left(remaining: int) -> int {
    if remaining > 0 {
        trunc_div(remaining, NANOS_PER_DAY as int)
    } else {
        0
    }
}

/// The expiry warning a valid certificate expiring at `expiry` gets at
/// `now`: one when it expires within `EXPIRY_WARNING_DAYS` and no warning
/// went out in the last day.
pub open spec fn expiry_event(expiry: int, sent_at: Option<Seq<char>>, now: int) -> Option<
    CertificateEvent,
> {
    if expiry - now <= EXPIRY_WARNING_DAYS * NANOS_PER_DAY && day_passed(sent_at, now) {
        Some(CertificateEvent::ExpiresSoon { days_remaining: days_left(expiry - now) as i64 })
    } else {
        None
    }
}

/// What a certificate check fires: `BecameInvalid` on the transition into
/// invalid (once per invalid episode), an expiry warning for a valid
/// certificate with a readable expiry, nothing otherwise.
pub open spec fn event_after(
    previous: CertificateStatus,
    valid: bool,
    expires_at: Option<Seq<char>>,
    expiry_sent_at: Option<Seq<char>>,
    now: int,
) -> Option<CertificateEvent> {
    if !valid {
        if previous != CertificateStatus::Invalid {
            Some(CertificateEvent::BecameInvalid)
        } else {
            None
        }
    } else {
        match expires_at {
            None => None,
            Some(e) => match parsed_instant(e) {
                None => None,
                Some(expiry) => expiry_event(expiry, expiry_sent_at, now),
            },
        }
    }
}

fn copy_text(o: &Option<String>) -> (r: Option<String>)
    ensures
        r == *o,
{
    crate::store::copy_opt(o)
}

/// Applies one certificate check outcome, made at `now`, to a monitor's
/// certificate state.
pub fn apply(monitor: &Monitor, outcome: &CertificateOutcome, now: i128) -> (r: CertificateChange)
    requires
        time_bounded(now as int),
    ensures
        r.cert_status == status_after(outcome.valid),
        r.cert_expires_at == outcome.expires_at,
        r.cert_issuer == outcome.issuer,
        r.cert_failure_reason == outcome.failure_reason,
        r.event == event_after(
            monitor.cert_status,
            outcome.valid,
            opt_text(outcome.expires_at),
            opt_text(monitor.cert_expiry_alert_sent_at),
            now as int,
        ),
{
    let event = if !outcome.valid {
        if monitor.cert_status != CertificateStatus::Invalid {
            Some(CertificateEvent::BecameInvalid)
        } else {
            None
        }
    } else {
        let expiry = match &outcome.expires_at {
            Some(e) => parse_timestamp(e.as_str()),
            None => None,
        };
        match expiry {
            None => None,
            Some(x) => {
                let remaining = x - now;
                if remaining <= (EXPIRY_WARNING_DAYS as i128) * NANOS_PER_DAY && day_passed_since(
                    opt_as_str(&monitor.cert_expiry_alert_sent_at),
                    now,
                ) {
                    let days: i128 = if remaining > 0 {
                        remaining / NANOS_PER_DAY
                    } else {
                        0
                    };
                    assert(0 <= days <= EXPIRY_WARNING_DAYS) by {
                        if remaining > 0 {
                            vstd::arithmetic::div_mod::lemma_div_is_ordered(
                                remaining as int,
                                (EXPIRY_WARNING_DAYS * NANOS_PER_DAY) as int,
                                NANOS_PER_DAY as int,
                            );
                        }
                    }
                    Some(CertificateEvent::ExpiresSoon { days_remaining: days as i64 })
                } else {
                    None
                }
            },
        }
    };
    CertificateChange {
        cert_status: if outcome.valid {
            CertificateStatus::Valid
        } else {
            CertificateStatus::Invalid
        },
        cert_expires_at: copy_text(&outcome.expires_at),
        cert_issuer: copy_text(&outcome.issuer),
        cert_failure_reason: copy_text(&outcome.failure_reason),
        event,
    }
}

/// An invalid certificate alerts once per invalid episode: a check that
/// finds the certificate invalid fires `BecameInvalid` exactly when the
/// previous status was not already invalid, so the next invalid check after
/// it fires nothing.
pub proof fn law_invalid_alerts_once_per_episode(
    previous: CertificateStatus,
    expires_at: Option<Seq<char>>,
    sent_at: Option<Seq<char>>,
    now: int,
)
    ensures
        (event_after(previous, false, expires_at, sent_at, now) == Some(
            CertificateEvent::BecameInvalid,
        )) <==> previous != CertificateStatus::Invalid,
        event_after(previous, false, expires_at, sent_at, now) is None <==> previous
            == CertificateStatus::Invalid,
        event_after(status_after(false), false, expires_at, sent_at, now) is None,
{
}

/// A valid certificate is warned about only when its readable expiry lies
/// within `EXPIRY_WARNING_DAYS` of the check, with the whole days left
/// (between 0 and `EXPIRY_WARNING_DAYS`), and never fires `BecameInvalid`.
pub proof fn law_expiry_warning_window(
    previous: CertificateStatus,
    expires_at: Option<Seq<char>>,
    sent_at: Option<Seq<char>>,
    now: int,
)
    ensures
        event_after(previous, true, expires_at, sent_at, now) != Some(
            CertificateEvent::BecameInvalid,
        ),
        event_after(previous, true, expires_at, sent_at, now) matches Some(
            CertificateEvent::ExpiresSoon { days_remaining },
        ) ==> (expires_at matches Some(e) && parsed_instant(e) matches Some(x) && x - now
            <= EXPIRY_WARNING_DAYS * NANOS_PER_DAY && 0 <= days_remaining <= EXPIRY_WARNING_DAYS
            && days_remaining == days_left(x - now)),
{
    if let Some(e) = expires_at {
        if let Some(x) = parsed_instant(e) {
            if x - now > 0 && x - now <= EXPIRY_WARNING_DAYS * NANOS_PER_DAY {
                vstd::arithmetic::div_mod::lemma_div_is_ordered(
                    x - now,
                    EXPIRY_WARNING_DAYS * NANOS_PER_DAY,
                    NANOS_PER_DAY as int,
                );
            }
        }
    }
}

/// The expiry warning goes out at most once a day: while the last warning's
/// stamp is less than `CHECK_EVERY_HOURS` old, no check fires another.
pub proof fn law_expiry_warning_at_most_daily(
    previous: CertificateStatus,
    valid: bool,
    expires_at: Option<Seq<char>>,
    sent_at: Seq<char>,
    sent: int,
    now: int,
)
    requires
        parsed_instant(sent_at) == Some(sent),
        now - sent < CHECK_EVERY_HOURS * NANOS_PER_HOUR,
    ensures
        !(event_after(previous, valid, expires_at, Some(sent_at), now) matches Some(
            CertificateEvent::ExpiresSoon { .. },
        )),
{
}

/// A monitor with certificate checking enabled and no check on record is due
/// at once, whatever the time; one with checking disabled never is.
pub proof fn law_unchecked_certificate_due_at_once(m: Monitor, now: int)
    ensures
        m.cert_check_enabled && m.cert_last_check_at is None ==> due_spec(m, now),
        !m.cert_check_enabled ==> !due_spec(m, now),
{
}

/// Certificates are checked daily: with a check on record whose stamp reads
/// back as `checked`, an enabled monitor is due again exactly when
/// `CHECK_EVERY_HOURS` have passed since it.
pub proof fn law_certificate_checked_daily(m: Monitor, stamp: String, checked: int, now: int)
    requires
        m.cert_check_enabled,
        m.cert_last_check_at == Some(stamp),
        parsed_instant(stamp@) == Some(checked),
    ensures
        due_spec(m, now) <==> now - checked >= CHECK_EVERY_HOURS * NANOS_PER_HOUR,
{
}

/// A valid certificate whose expiry reads back within `EXPIRY_WARNING_DAYS`
/// of the check is warned about — whatever the previous certificate status,
/// a first check included — unless a warning went out in the last
/// `CHECK_EVERY_HOURS`; the warning counts the whole days left (none once
/// the expiry has passed).
pub proof fn law_expiring_certificate_is_warned(
    previous: CertificateStatus,
    expires_at: Seq<char>,
    expiry: int,
    sent_at: Option<Seq<char>>,
    now: int,
    days: int,
)
    requires
        parsed_instant(expires_at) == Some(expiry),
        expiry - now <= EXPIRY_WARNING_DAYS * NANOS_PER_DAY,
        match sent_at {
            None => true,
            Some(s) => match parsed_instant(s) {
                None => true,
                Some(t) => now - t >= CHECK_EVERY_HOURS * NANOS_PER_HOUR,
            },
        },
        expiry - now > 0 ==> days * NANOS_PER_DAY <= expiry - now < (days + 1) * NANOS_PER_DAY,
        expiry - now <= 0 ==> days == 0,
    ensures
        event_after(previous, true, Some(expires_at), sent_at, now) == Some(
            CertificateEvent::ExpiresSoon { days_remaining: days as i64 },
        ),
{
    if expiry - now > 0 {
        vstd::arithmetic::div_mod::lemma_fundamental_div_mod_converse(
            expiry - now,
            NANOS_PER_DAY as int,
            days,
            expiry - now - days * NANOS_PER_DAY,
        );
    }
}

} // verus!
