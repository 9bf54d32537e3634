//! Keychain-backed secret storage: what the keychain's answers mean to the
//! rest of the monitor.
//!
//! The Slack webhook URL is the only secret. It lives in the system keychain
//! (service `tauri-uptime-monitor`), never in the database, is never logged,
//! and is never returned to the user interface — commands expose only a
//! configured/not-configured flag. The keychain is reached by the
//! application layer, which hands the answers to the functions here.

use vstd::prelude::*;
use vstd::string::*;

use crate::error::AppError;

verus! {

/// The keychain service name.
pub const SERVICE: &'static str = "tauri-uptime-monitor";
/// The keychain entry that holds the webhook URL.
pub const SLACK_WEBHOOK_ENTRY: &'static str = "slack_webhook_url";

/// Why a keychain operation failed.
#[derive(Debug, Clone)]
pub enum KeychainFailure {
    /// Nothing is stored under the entry.
    NoEntry,
    /// Any other failure, with its text.
    Other(String),
}

/// The keychain could not be opened at all.
pub fn unavailable(detail: &str) -> (r: AppError)
    ensures
        r matches AppError::Internal(m) && m@ == "keychain unavailable: "@ + detail@,
{
    AppError::Internal(String::from_str("keychain unavailable: ").concat(detail))
}

/// The stored webhook: the value when there is one, `None` when nothing is
/// stored, an error for any other failure.
pub fn read_result(answer: Result<String, KeychainFailure>) -> (r: Result<Option<String>, AppError>)
    ensures
        match answer {
            Ok(v) => r == Ok::<Option<String>, AppError>(Some(v)),
            Err(KeychainFailure::NoEntry) => r == Ok::<Option<String>, AppError>(None),
            Err(KeychainFailure::Other(e)) => r matches Err(AppError::Internal(m)) && m@
                == "keychain read failed: "@ + e@,
        },
{
    match answer {
        Ok(v) => Ok(Some(v)),
        Err(KeychainFailure::NoEntry) => Ok(None),
        Err(KeychainFailure::Other(e)) => Err(
            AppError::Internal(String::from_str("keychain read failed: ").concat(e.as_str())),
        ),
    }
}

/// Storing the webhook: any failure, given by its text, is an error.
pub fn write_result(answer: Result<(), String>) -> (r: Result<(), AppError>)
    ensures
        match answer {
            Ok(()) => r is Ok,
            Err(e) => r matches Err(AppError::Internal(m)) && m@ == "keychain write failed: "@ + e@,
        },
{
    match answer {
        Ok(()) => Ok(()),
        Err(e) => Err(AppError::Internal(String::from_str("keychain write failed: ").concat(e.as_str()))),
    }
}

/// Removing the webhook: done when it is gone, whether or not it was there.
pub fn delete_result(answer: Result<(), KeychainFailure>) -> (r: Result<(), AppError>)
    ensures
        match answer {
            Ok(()) | Err(KeychainFailure::NoEntry) => r is Ok,
            Err(KeychainFailure::Other(e)) => r matches Err(AppError::Internal(m)) && m@
                == "keychain delete failed: "@ + e@,
        },
{
    match answer {
        Ok(()) | Err(KeychainFailure::NoEntry) => Ok(()),
        Err(KeychainFailure::Other(e)) => Err(
            AppError::Internal(String::from_str("keychain delete failed: ").concat(e.as_str())),
        ),
    }
}

} // verus!
