//! Single HTTP check: one request, one outcome.
//!
//! A check succeeds when the response status is 2xx/3xx and, if the monitor
//! has a look-for string, the body contains it. Connection-level errors get
//! one retry; bad statuses and missing strings do not. The request itself
//! is sent by the application layer; these functions judge what came back.

use vstd::prelude::*;
use vstd::string::*;

use crate::store::CheckMethod;
use crate::text::{append_decimal, contains_seq, contains_str, decimal};

verus! {

pub const USER_AGENT: &'static str = "tauri-uptime-monitor/1.0";
/// Hard cap on a whole check, attempts plus the retry delay.
pub const DEFAULT_TIMEOUT_MS: u64 = 10_000;
/// Pause before the single retry of a connection-level error.
pub const DEFAULT_RETRY_DELAY_MS: u64 = 100;

#[derive(Debug, Clone)]
pub struct CheckOutcome {
    pub success: bool,
    pub http_status: Option<u16>,
    pub response_time_ms: i64,
    pub failure_reason: Option<String>,
}

/// Timing of a check, in milliseconds.
#[derive(Debug, Clone, Copy)]
pub struct CheckConfig {
    pub timeout_ms: u64,
    pub retry_delay_ms: u64,
}

impl Default for CheckConfig {
    fn default() -> (r: Self)
        ensures
            r.timeout_ms == DEFAULT_TIMEOUT_MS,
            r.retry_delay_ms == DEFAULT_RETRY_DELAY_MS,
    {
        CheckConfig { timeout_ms: DEFAULT_TIMEOUT_MS, retry_delay_ms: DEFAULT_RETRY_DELAY_MS }
    }
}

/// Why one attempt failed.
#[derive(Debug, Clone)]
pub struct CheckFailure {
    pub reason: String,
    pub http_status: Option<u16>,
    /// Only connection-level errors warrant the single retry.
    pub retryable: bool,
}

/// A 2xx (success) or 3xx (redirection) status.
pub open spec fn acceptable_status(code: u16) -> bool {
    200 <= code <= 399
}

/// The verdict on one received response. `body` is the body decoded as
/// (lossy) UTF-8; it is `None` for HEAD, whose body is never read.
pub open spec fn response_verdict_spec(
    code: u16,
    method: CheckMethod,
    body: Option<Seq<char>>,
    look_for: Seq<char>,
    r: Result<u16, CheckFailure>,
) -> bool {
    if !acceptable_status(code) {
        r matches Err(f) && f.reason@ == "HTTP "@ + decimal(code as nat) && f.http_status
            == Some(code) && !f.retryable
    } else if method != CheckMethod::HEAD && look_for.len() > 0 && !(body matches Some(b)
        && contains_seq(b, look_for)) {
        r matches Err(f) && f.reason@ == "string not found"@ && f.http_status == Some(code)
            && !f.retryable
    } else {
        r == Ok::<u16, CheckFailure>(code)
    }
}

/// Judges a received response: the status must be 2xx/3xx, and a non-HEAD
/// check with a look-for string needs the body to contain it.
pub fn response_verdict(code: u16, method: CheckMethod, body: Option<&str>, look_for: &str) -> (r:
    Result<u16, CheckFailure>)
    ensures
        response_verdict_spec(
            code,
            method,
            match body {
                Some(b) => Some(b@),
                None => None,
            },
            look_for@,
            r,
        ),
{
    if !(200 <= code && code <= 399) {
        let mut reason = String::from_str("HTTP ");
        append_decimal(&mut reason, code as u64);
        return Err(CheckFailure { reason, http_status: Some(code), retryable: false });
    }
    if method != CheckMethod::HEAD && look_for.unicode_len() != 0 {
        let found = match body {
            Some(b) => contains_str(b, look_for),
            None => false,
        };
        if !found {
            return Err(
                CheckFailure {
                    reason: String::from_str("string not found"),
                    http_status: Some(code),
                    retryable: false,
                },
            );
        }
    }
    Ok(code)
}

/// Classifies a failed request. `root_cause` is the innermost message of the
/// error's source chain, `description` the error's own text, `status` the
/// HTTP status it carries, if any.
pub fn request_failure(
    is_timeout: bool,
    is_connect: bool,
    root_cause: Option<String>,
    description: &str,
    status: Option<u16>,
) -> (r: CheckFailure)
    ensures
        is_timeout ==> r.reason@ == "timeout"@ && r.http_status is None && !r.retryable,
        !is_timeout && is_connect ==> r.reason@ == "connection error: "@ + (match root_cause {
            Some(c) => c@,
            None => "unreachable"@,
        }) && r.http_status is None && r.retryable,
        !is_timeout && !is_connect ==> r.reason@ == "request error: "@ + description@
            && r.http_status == status && !r.retryable,
{
    if is_timeout {
        CheckFailure { reason: String::from_str("timeout"), http_status: None, retryable: false }
    } else if is_connect {
        let detail = match root_cause {
            Some(c) => c,
            None => String::from_str("unreachable"),
        };
        CheckFailure {
            reason: String::from_str("connection error: ").concat(detail.as_str()),
            http_status: None,
            retryable: true,
        }
    } else {
        CheckFailure {
            reason: String::from_str("request error: ").concat(description),
            http_status: status,
            retryable: false,
        }
    }
}

/// The outcome of a check whose attempts finished within the timeout;
/// `elapsed_ms` is the duration of the final attempt.
pub fn finish_check(attempt: Result<u16, CheckFailure>, elapsed_ms: i64) -> (r: CheckOutcome)
    ensures
        r.response_time_ms == elapsed_ms,
        match attempt {
            Ok(code) => r.success && r.http_status == Some(code) && r.failure_reason is None,
            Err(f) => !r.success && r.http_status == f.http_status && r.failure_reason
                == Some(f.reason),
        },
{
    match attempt {
        Ok(code) => CheckOutcome {
            success: true,
            http_status: Some(code),
            response_time_ms: elapsed_ms,
            failure_reason: None,
        },
        Err(f) => CheckOutcome {
            success: false,
            http_status: f.http_status,
            response_time_ms: elapsed_ms,
            failure_reason: Some(f.reason),
        },
    }
}

/// The outcome of a check that hit the overall timeout.
pub fn timed_out(elapsed_ms: i64) -> (r: CheckOutcome)
    ensures
        !r.success,
        r.http_status is None,
        r.response_time_ms == elapsed_ms,
        r.failure_reason matches Some(m) && m@ == "timeout"@,
{
    CheckOutcome {
        success: false,
        http_status: None,
        response_time_ms: elapsed_ms,
        failure_reason: Some(String::from_str("timeout")),
    }
}

/// Attempts a check makes at most: the first, and one retry.
pub const MAX_ATTEMPTS: u32 = 2;

/// Whether another attempt follows `attempts_made` attempts whose last
/// result was `last`: only a connection-level failure of the first attempt
/// is retried.
pub open spec fn retry_spec(attempts_made: u32, last: Result<u16, CheckFailure>) -> bool {
    attempts_made < MAX_ATTEMPTS && (last matches Err(f) && f.retryable)
}

/// Decides whether to retry after an attempt.
pub fn should_retry(attempts_made: u32, last: &Result<u16, CheckFailure>) -> (r: bool)
    requires
        attempts_made >= 1,
    ensures
        r == retry_spec(attempts_made, *last),
{
    match last {
        Ok(_) => false,
        Err(f) => attempts_made < MAX_ATTEMPTS && f.retryable,
    }
}

/// A check makes at most two attempts, and bad statuses, missing strings and
/// timeouts are never retried.
pub proof fn law_at_most_one_retry(attempts_made: u32, last: Result<u16, CheckFailure>)
    ensures
        attempts_made >= MAX_ATTEMPTS ==> !retry_spec(attempts_made, last),
        last is Ok ==> !retry_spec(attempts_made, last),
        (last matches Err(f) && !f.retryable) ==> !retry_spec(attempts_made, last),
{
}

/// Whether the response body is read: for every method but HEAD, once the
/// status is acceptable, so the measured time covers the full response.
pub fn reads_body(code: u16, method: CheckMethod) -> (r: bool)
    ensures
        r == (acceptable_status(code) && method != CheckMethod::HEAD),
{
    200 <= code && code <= 399 && method != CheckMethod::HEAD
}

/// Only a 2xx or 3xx response can pass a check: an accepted response has a
/// status from 200 to 399 and is its own status; any other status fails
/// with "HTTP " and the status, is not retried, and carries the status;
/// and only an accepted status has its body read.
pub proof fn law_only_2xx_3xx_pass(
    code: u16,
    method: CheckMethod,
    body: Option<Seq<char>>,
    look_for: Seq<char>,
    r: Result<u16, CheckFailure>,
)
    requires
        response_verdict_spec(code, method, body, look_for, r),
    ensures
        r is Ok ==> 200 <= code <= 399 && r == Ok::<u16, CheckFailure>(code),
        (code < 200 || code >= 400) ==> (r matches Err(f) && f.reason@ == "HTTP "@ + decimal(
            code as nat,
        ) && f.http_status == Some(code) && !f.retryable),
        (code < 200 || code >= 400) ==> !(acceptable_status(code) && method != CheckMethod::HEAD),
        200 <= code <= 399 && method != CheckMethod::HEAD ==> acceptable_status(code),
        (200 <= code <= 399 && (method == CheckMethod::HEAD || look_for.len() == 0)) ==> r
            == Ok::<u16, CheckFailure>(code),
        (200 <= code <= 399 && method != CheckMethod::HEAD && look_for.len() > 0) ==> ((r is Ok)
            <==> (body matches Some(b) && exists|i: int|
            0 <= i && i + look_for.len() <= b.len() && #[trigger] b.subrange(i, i + look_for.len())
                == look_for)),
        (200 <= code <= 399 && r is Err) ==> (r matches Err(f) && f.reason@ == "string not found"@
            && f.http_status == Some(code) && !f.retryable),
{
    if let Some(b) = body {
        if contains_seq(b, look_for) {
            let i = choose|i: int| crate::text::occurs_at(b, look_for, i);
            assert(b.subrange(i, i + look_for.len()) == look_for);
        }
        if exists|i: int|
            0 <= i && i + look_for.len() <= b.len() && #[trigger] b.subrange(i, i + look_for.len())
                == look_for {
            let i = choose|i: int|
                0 <= i && i + look_for.len() <= b.len() && #[trigger] b.subrange(i, i + look_for.len())
                    == look_for;
            assert(crate::text::occurs_at(b, look_for, i));
        }
    }
}

} // verus!
