//! The monitor data model and the rules the store applies to it: input
//! validation, certificate-check enablement, and the row values that a
//! recorded check writes. The database itself is driven by the application
//! layer, which hands these functions the rows it read and writes back what
//! they return.

use vstd::prelude::*;
use vstd::string::*;

use crate::error::AppError;
use crate::text::{str_eq, trim_spec, trim_string};
use crate::weburl::{parse_url, url_parse};

pub mod uptime_status;

verus! {

/// Interval used when a monitor is created without one.
pub const DEFAULT_CHECK_INTERVAL_MINUTES: i64 = 5;

/// Days of check history kept before retention prunes it.
pub const HISTORY_RETENTION_DAYS: i64 = 90;

#[allow(non_camel_case_types, clippy::upper_case_acronyms)]
#[derive(Debug, Clone, Copy, PartialEq, Eq, Structural)]
pub enum CheckMethod {
    GET,
    HEAD,
    POST,
}

impl CheckMethod {
    /// The method's name as stored in the database.
    pub open spec fn name_text(self) -> Seq<char> {
        match self {
            CheckMethod::GET => "GET"@,
            CheckMethod::HEAD => "HEAD"@,
            CheckMethod::POST => "POST"@,
        }
    }

    pub fn as_str(self) -> (r: &'static str)
        ensures
            r@ == self.name_text(),
    {
        match self {
            CheckMethod::GET => "GET",
            CheckMethod::HEAD => "HEAD",
            CheckMethod::POST => "POST",
        }
    }

    /// Reads a stored method name; anything unrecognised reads as `GET`.
    pub fn from_db(s: &str) -> (r: Self)
        ensures
            r == (if s@ == "HEAD"@ {
                CheckMethod::HEAD
            } else if s@ == "POST"@ {
                CheckMethod::POST
            } else {
                CheckMethod::GET
            }),
    {
        if str_eq(s, "HEAD") {
            CheckMethod::HEAD
        } else if str_eq(s, "POST") {
            CheckMethod::POST
        } else {
            CheckMethod::GET
        }
    }
}

/// Outcome of the latest certificate check.
#[derive(Debug, Clone, Copy, PartialEq, Eq, Structural)]
pub enum CertificateStatus {
    NotYetChecked,
    Valid,
    Invalid,
}

impl CertificateStatus {
    pub open spec fn name_text(self) -> Seq<char> {
        match self {
            CertificateStatus::NotYetChecked => "not_yet_checked"@,
            CertificateStatus::Valid => "valid"@,
            CertificateStatus::Invalid => "invalid"@,
        }
    }

    /// The status as stored in the database.
    pub fn as_str(self) -> (r: &'static str)
        ensures
            r@ == self.name_text(),
    {
        match self {
            CertificateStatus::NotYetChecked => "not_yet_checked",
            CertificateStatus::Valid => "valid",
            CertificateStatus::Invalid => "invalid",
        }
    }

    /// Reads a stored status; anything unrecognised reads as not yet checked.
    pub fn from_db(s: &str) -> (r: Self)
        ensures
            r == (if s@ == "valid"@ {
                CertificateStatus::Valid
            } else if s@ == "invalid"@ {
                CertificateStatus::Invalid
            } else {
                CertificateStatus::NotYetChecked
            }),
    {
        if str_eq(s, "valid") {
            CertificateStatus::Valid
        } else if str_eq(s, "invalid") {
            CertificateStatus::Invalid
        } else {
            CertificateStatus::NotYetChecked
        }
    }
}

/// One monitored URL with its uptime and certificate bookkeeping.
#[derive(Debug, Clone)]
pub struct Monitor {
    pub id: i64,
    pub url: String,
    pub uptime_check_enabled: bool,
    pub check_interval_minutes: i64,
    pub check_method: CheckMethod,
    pub look_for_string: String,
    pub uptime_status: String,
    pub uptime_failure_reason: Option<String>,
    pub consecutive_failures: i64,
    pub status_last_change_at: Option<String>,
    pub last_check_at: Option<String>,
    pub down_alert_sent_at: Option<String>,
    pub cert_check_enabled: bool,
    pub cert_status: CertificateStatus,
    pub cert_expires_at: Option<String>,
    pub cert_issuer: Option<String>,
    pub cert_failure_reason: Option<String>,
    pub cert_last_check_at: Option<String>,
    pub cert_expiry_alert_sent_at: Option<String>,
    pub created_at: String,
    pub updated_at: String,
    /// Latest real check's response time; derived, not a monitors column.
    pub last_response_time_ms: Option<i64>,
}

/// One stored check result.
#[derive(Debug, Clone)]
pub struct CheckResult {
    pub id: i64,
    pub monitor_id: i64,
    pub checked_at: String,
    pub status: String,
    pub http_status_code: Option<i64>,
    pub response_time_ms: Option<i64>,
    pub failure_reason: Option<String>,
}

/// Create/update payload from the user interface. `cert_check_enabled:
/// None` means "use the scheme default" (https → on, http → off); an
/// explicit value is honored for https and forced off for http.
#[derive(Debug, Clone)]
pub struct MonitorInput {
    pub url: String,
    pub check_interval_minutes: i64,
    pub check_method: CheckMethod,
    pub look_for_string: String,
    pub uptime_check_enabled: bool,
    pub cert_check_enabled: Option<bool>,
}

/// Application settings.
#[derive(Debug, Clone, Copy, PartialEq, Eq, Structural)]
pub struct Settings {
    pub autostart_enabled: bool,
}

impl Default for Settings {
    fn default() -> (r: Self)
        ensures
            !r.autostart_enabled,
    {
        Settings { autostart_enabled: false }
    }
}

/// The stored text of the autostart setting.
pub open spec fn autostart_value_text(enabled: bool) -> Seq<char> {
    if enabled {
        "true"@
    } else {
        "false"@
    }
}

/// Settings read back from the stored `autostart_enabled` value (absent
/// when never saved): enabled exactly when the stored text is `true`.
pub fn settings_from_stored(value: Option<&str>) -> (r: Settings)
    ensures
        r.autostart_enabled == (value matches Some(v) && v@ == "true"@),
{
    match value {
        Some(v) => Settings { autostart_enabled: str_eq(v, "true") },
        None => Settings { autostart_enabled: false },
    }
}

/// The text stored for the autostart setting.
pub fn settings_stored_value(settings: &Settings) -> (r: &'static str)
    ensures
        r@ == autostart_value_text(settings.autostart_enabled),
{
    if settings.autostart_enabled {
        "true"
    } else {
        "false"
    }
}

/// Validated and normalized form of `MonitorInput`. Cert enablement stays
/// unresolved: `None` means "no explicit choice", which resolves to the
/// scheme default on create and to the stored value on update.
#[derive(Debug, Clone)]
pub struct ValidatedInput {
    pub url: String,
    pub is_https: bool,
    pub check_interval_minutes: i64,
    pub check_method: CheckMethod,
    pub look_for_string: String,
    pub uptime_check_enabled: bool,
    pub cert_check_requested: Option<bool>,
}

/// Whether certificate checking ends up enabled: an explicit request (or
/// `fallback` when none) for https; always off for http.
pub open spec fn cert_enabled_spec(is_https: bool, requested: Option<bool>, fallback: bool) -> bool {
    if is_https {
        match requested {
            Some(b) => b,
            None => fallback,
        }
    } else {
        false
    }
}

pub fn resolve_cert_enabled(v: &ValidatedInput, fallback: bool) -> (r: bool)
    ensures
        r == cert_enabled_spec(v.is_https, v.cert_check_requested, fallback),
{
    if v.is_https {
        match v.cert_check_requested {
            Some(b) => b,
            None => fallback,
        }
    } else {
        false
    }
}

/// The message for a look-for string on a HEAD check.
pub open spec fn head_with_string_message() -> Seq<char> {
    "a HEAD check has no body to search; use GET or POST with look-for-string"@
}

/// What validation concludes about an input: `Ok` with the normalized
/// fields, or the first rule the input breaks, in this order — the URL
/// parses, its scheme is http or https, it has a host, the interval is at
/// least one minute, and a HEAD check carries no look-for string.
pub open spec fn validation_outcome(input: MonitorInput, r: Result<ValidatedInput, AppError>) -> bool {
    let url = trim_spec(input.url@);
    let look = trim_spec(input.look_for_string@);
    match url_parse(url) {
        Err(e) => r matches Err(AppError::InvalidUrl(m)) && m@ == "invalid URL: "@ + e,
        Ok(parts) => {
            let scheme = parts.0;
            if scheme != "https"@ && scheme != "http"@ {
                r matches Err(AppError::InvalidUrl(m)) && m@ == "URL must use http or https (got "@
                    + scheme + ")"@
            } else if parts.1 is None {
                r matches Err(AppError::InvalidUrl(m)) && m@ == "URL must include a host"@
            } else if input.check_interval_minutes < 1 {
                r matches Err(AppError::InvalidInput(m)) && m@
                    == "check interval must be at least 1 minute"@
            } else if look.len() > 0 && input.check_method == CheckMethod::HEAD {
                r matches Err(AppError::InvalidInput(m)) && m@ == head_with_string_message()
            } else {
                r matches Ok(v) && v.url@ == url && v.is_https == (scheme == "https"@)
                    && v.check_interval_minutes == input.check_interval_minutes
                    && v.check_method == input.check_method && v.look_for_string@ == look
                    && v.uptime_check_enabled == input.uptime_check_enabled
                    && v.cert_check_requested == input.cert_check_enabled
            }
        },
    }
}

/// Checks and normalizes a create/update payload.
pub fn validate(input: &MonitorInput) -> (r: Result<ValidatedInput, AppError>)
    ensures
        validation_outcome(*input, r),
{
    let raw_url = trim_string(input.url.as_str());
    let parsed = match parse_url(raw_url.as_str()) {
        Ok(p) => p,
        Err(e) => {
            return Err(
                AppError::InvalidUrl(String::from_str("invalid URL: ").concat(e.as_str())),
            );
        },
    };
    let is_https = if str_eq(parsed.scheme.as_str(), "https") {
        true
    } else if str_eq(parsed.scheme.as_str(), "http") {
        false
    } else {
        let m = String::from_str("URL must use http or https (got ").concat(
            parsed.scheme.as_str(),
        ).concat(")");
        return Err(AppError::InvalidUrl(m));
    };
    if parsed.host.is_none() {
        return Err(AppError::InvalidUrl(String::from_str("URL must include a host")));
    }
    if input.check_interval_minutes < 1 {
        return Err(
            AppError::InvalidInput(String::from_str("check interval must be at least 1 minute")),
        );
    }
    let look_for_string = trim_string(input.look_for_string.as_str());
    if look_for_string.unicode_len() != 0 && input.check_method == CheckMethod::HEAD {
        return Err(
            AppError::InvalidInput(
                String::from_str(
                    "a HEAD check has no body to search; use GET or POST with look-for-string",
                ),
            ),
        );
    }
    Ok(
        ValidatedInput {
            url: raw_url,
            is_https,
            check_interval_minutes: input.check_interval_minutes,
            check_method: input.check_method,
            look_for_string,
            uptime_check_enabled: input.uptime_check_enabled,
            cert_check_requested: input.cert_check_enabled,
        },
    )
}

/// What a certificate check fired.
#[derive(Debug, Clone, Copy, PartialEq, Eq, Structural)]
pub enum CertificateEvent {
    BecameInvalid,
    ExpiresSoon { days_remaining: i64 },
}

/// A recorded uptime check: the monitor row before and after, and the
/// transition that fired.
#[derive(Debug, Clone)]
pub struct RecordedCheck {
    pub before: Monitor,
    pub after: Monitor,
    pub event: Option<crate::state::TransitionEvent>,
}

/// A recorded certificate check: the monitor row after it, and what fired.
#[derive(Debug, Clone)]
pub struct RecordedCertificateCheck {
    pub after: Monitor,
    pub event: Option<CertificateEvent>,
}

/// A copy of an optional string.
pub fn copy_opt(o: &Option<String>) -> (r: Option<String>)
    ensures
        r == *o,
{
    match o {
        Some(s) => Some(s.clone()),
        None => None,
    }
}

/// What reaching the requested settings takes, given whether the system
/// currently launches the monitor at login: `Some(true)` to enable it,
/// `Some(false)` to disable it, `None` when it already matches.
pub fn autostart_change(requested: &Settings, currently_enabled: bool) -> (r: Option<bool>)
    ensures
        requested.autostart_enabled == currently_enabled ==> r is None,
        requested.autostart_enabled != currently_enabled ==> r == Some(requested.autostart_enabled),
{
    if requested.autostart_enabled != currently_enabled {
        Some(requested.autostart_enabled)
    } else {
        None
    }
}

} // verus!
