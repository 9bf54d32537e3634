//! Slack incoming-webhook rules: which webhook URLs are accepted and how a
//! delivery's HTTP status is judged.
//!
//! Delivery is fire-and-forget: a failure is logged by the caller and never
//! affects a check cycle, and there is no retry queue — the hourly
//! still-down re-alert is the natural retry. The request itself is sent by
//! the application layer.

use vstd::prelude::*;
use vstd::string::*;

use crate::error::AppError;
use crate::text::{append_decimal, decimal, str_eq};
use crate::weburl::{parse_url, url_parse};

verus! {

/// Seconds a webhook delivery may take.
pub const SLACK_TIMEOUT_SECS: u64 = 5;
/// The only host a webhook may point at.
pub const WEBHOOK_HOST: &'static str = "hooks.slack.com";

/// The message for a webhook URL on the wrong scheme or host.
pub open spec fn wrong_webhook_text() -> Seq<char> {
    "webhook must be an https URL on "@ + WEBHOOK_HOST@
}

/// A webhook URL must be https on `hooks.slack.com`; anything else is
/// rejected at entry time.
pub open spec fn webhook_verdict(url: Seq<char>, r: Result<(), AppError>) -> bool {
    match url_parse(url) {
        Err(e) => r matches Err(AppError::InvalidUrl(m)) && m@ == "invalid webhook URL: "@ + e,
        Ok(parts) => if parts.0 == "https"@ && parts.1 == Some(WEBHOOK_HOST@) {
            r is Ok
        } else {
            r matches Err(AppError::InvalidUrl(m)) && m@ == wrong_webhook_text()
        },
    }
}

pub fn validate_webhook_url(url: &str) -> (r: Result<(), AppError>)
    ensures
        webhook_verdict(url@, r),
{
    let parts = match parse_url(url) {
        Ok(p) => p,
        Err(e) => {
            return Err(
                AppError::InvalidUrl(String::from_str("invalid webhook URL: ").concat(e.as_str())),
            );
        },
    };
    let on_host = match &parts.host {
        Some(h) => str_eq(h.as_str(), WEBHOOK_HOST),
        None => false,
    };
    if !str_eq(parts.scheme.as_str(), "https") || !on_host {
        return Err(
            AppError::InvalidUrl(String::from_str("webhook must be an https URL on ").concat(WEBHOOK_HOST)),
        );
    }
    Ok(())
}

/// Judges the webhook's reply: any 2xx status is a delivery, anything else
/// a failure naming the status.
pub fn delivery_verdict(status: u16) -> (r: Result<(), AppError>)
    ensures
        200 <= status <= 299 ==> r is Ok,
        !(200 <= status <= 299) ==> (r matches Err(AppError::Internal(m)) && m@
            == "slack delivery failed: HTTP "@ + decimal(status as nat)),
{
    if 200 <= status && status <= 299 {
        Ok(())
    } else {
        let mut m = String::from_str("slack delivery failed: HTTP ");
        append_decimal(&mut m, status as u64);
        Err(AppError::Internal(m))
    }
}

} // verus!
