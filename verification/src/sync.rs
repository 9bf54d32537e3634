//! JSON monitor sync: the entry shape, how an entry merges over the monitor
//! it matches, and how problems with the file are reported.
//!
//! The file is a JSON array of objects whose legal keys are exactly the
//! user-editable monitor fields — `SyncEntry` below is that set; anything
//! else is an error rather than a silent write. Status and history columns
//! are never importable. Reading the file and decoding the JSON happen in the
//! application layer, which hands the entries (or the decoder's messages)
//! to the functions here.

use vstd::prelude::*;
use vstd::string::*;

use crate::error::AppError;
use crate::store::{CheckMethod, Monitor, MonitorInput, DEFAULT_CHECK_INTERVAL_MINUTES};
use crate::text::{append_decimal, contains_seq, decimal, find_str, occurs_at};

verus! {

/// Generous for a monitor list; anything larger is a mistaken file.
pub const MAX_SYNC_FILE_BYTES: u64 = 1_048_576;

/// One entry of the sync file. Every key except `url` is optional: absent
/// keys leave the current value untouched on an existing monitor, and fall
/// back to the create defaults on a new one.
#[derive(Debug, Clone)]
pub struct SyncEntry {
    pub url: String,
    pub uptime_check_enabled: Option<bool>,
    pub check_interval_minutes: Option<i64>,
    pub check_method: Option<CheckMethod>,
    pub look_for_string: Option<String>,
    pub cert_check_enabled: Option<bool>,
}

/// What a sync would do, grouped for the confirm dialog. URLs, not ids, so
/// the preview reads the same as the file the user picked.
#[derive(Debug, Clone)]
pub struct SyncPlan {
    pub delete_missing: bool,
    pub to_add: Vec<String>,
    pub to_update: Vec<String>,
    pub to_delete: Vec<String>,
    pub unchanged: Vec<String>,
}

/// How many monitors an applied sync touched, by kind.
#[derive(Debug, Clone, Copy)]
pub struct SyncResult {
    pub added: usize,
    pub updated: usize,
    pub deleted: usize,
    pub unchanged: usize,
}

/// The message for a document that is not an array of objects.
pub open spec fn not_an_array_text() -> Seq<char> {
    "the file must contain a JSON array of monitor objects"@
}

/// The error for a document that is not a JSON array of objects.
pub fn not_an_array() -> (r: AppError)
    ensures
        r matches AppError::InvalidInput(m) && m@ == not_an_array_text(),
{
    AppError::InvalidInput(String::from_str("the file must contain a JSON array of monitor objects"))
}

/// Whether a picked path may be read as a sync file: it must be a regular
/// file no larger than `MAX_SYNC_FILE_BYTES`, checked before the read so a
/// huge file is never pulled into memory.
pub fn check_sync_file(is_file: bool, len: u64) -> (r: Result<(), AppError>)
    ensures
        !is_file ==> (r matches Err(AppError::InvalidInput(m)) && m@
            == "the selected path is not a file"@),
        is_file && len > MAX_SYNC_FILE_BYTES ==> (r matches Err(AppError::InvalidInput(m)) && m@
            == "the file is larger than the "@ + decimal((MAX_SYNC_FILE_BYTES / 1_048_576) as nat)
            + " MB import limit"@),
        is_file && len <= MAX_SYNC_FILE_BYTES ==> r is Ok,
{
    if !is_file {
        return Err(AppError::InvalidInput(String::from_str("the selected path is not a file")));
    }
    if len > MAX_SYNC_FILE_BYTES {
        let mut m = String::from_str("the file is larger than the ");
        append_decimal(&mut m, MAX_SYNC_FILE_BYTES / 1_048_576);
        m.append(" MB import limit");
        return Err(AppError::InvalidInput(m));
    }
    Ok(())
}

/// Prefix a message with the 1-based entry number the user sees in their
/// file.
pub fn entry_error(index: usize, message: String) -> (r: AppError)
    requires
        index < usize::MAX,
    ensures
        r matches AppError::InvalidInput(m) && m@ == "entry "@ + decimal((index + 1) as nat) + ": "@
            + message@,
{
    let mut m = String::from_str("entry ");
    append_decimal(&mut m, index as u64 + 1);
    m.append(": ");
    m.append(message.as_str());
    AppError::InvalidInput(m)
}

/// The marker a decoder message carries before its byte position.
pub open spec fn position_marker() -> Seq<char> {
    " at line "@
}

/// A decoder message without its byte position: everything before the
/// first `" at line "`, or the whole message when it has none.
pub open spec fn readable_spec(message: Seq<char>, r: Seq<char>) -> bool {
    if contains_seq(message, position_marker()) {
        exists|cut: int|
            occurs_at(message, position_marker(), cut) && (forall|j: int|
                0 <= j < cut ==> !occurs_at(message, position_marker(), j)) && r
                == message.subrange(0, cut)
    } else {
        r == message
    }
}

/// Keep the part of a decoder message that names the offending key or value
/// and drop its byte position: line and column mean nothing once entries are
/// reported by number.
pub fn readable_serde_message(message: &str) -> (r: String)
    ensures
        readable_spec(message@, r@),
{
    match find_str(message, " at line ") {
        Some(cut) => {
            let kept = message.substring_char(0, cut);
            kept.to_owned()
        },
        None => message.to_owned(),
    }
}

/// The error for entry `index` (0-based) that the decoder rejected with
/// `decoder_message`.
pub fn entry_decode_error(index: usize, decoder_message: &str) -> (r: AppError)
    requires
        index < usize::MAX,
    ensures
        r matches AppError::InvalidInput(m) && exists|kept: Seq<char>|
            readable_spec(decoder_message@, kept) && m@ == "entry "@ + decimal((index + 1) as nat)
                + ": "@ + kept,
{
    let kept = readable_serde_message(decoder_message);
    entry_error(index, kept)
}

/// The check method a merge produces: the entry's, else the current one,
/// else `GET`.
pub open spec fn merged_method(entry: SyncEntry, current: Option<Monitor>) -> CheckMethod {
    match entry.check_method {
        Some(m) => m,
        None => match current {
            Some(c) => c.check_method,
            None => CheckMethod::GET,
        },
    }
}

/// The look-for string a merge produces: the entry's, else the current one,
/// else empty — except that an entry asking for HEAD without naming a
/// look-for string clears it.
pub open spec fn merged_look(entry: SyncEntry, current: Option<Monitor>) -> Seq<char> {
    if merged_method(entry, current) == CheckMethod::HEAD && entry.look_for_string is None {
        Seq::empty()
    } else {
        match entry.look_for_string {
            Some(s) => s@,
            None => match current {
                Some(c) => c.look_for_string@,
                None => Seq::empty(),
            },
        }
    }
}

/// The interval a merge produces: the entry's, else the current one, else
/// the create default.
pub open spec fn merged_interval(entry: SyncEntry, current: Option<Monitor>) -> i64 {
    match entry.check_interval_minutes {
        Some(i) => i,
        None => match current {
            Some(c) => c.check_interval_minutes,
            None => DEFAULT_CHECK_INTERVAL_MINUTES,
        },
    }
}

/// Whether uptime checking is on after a merge: the entry's choice, else
/// the current one, else on.
pub open spec fn merged_enabled(entry: SyncEntry, current: Option<Monitor>) -> bool {
    match entry.uptime_check_enabled {
        Some(b) => b,
        None => match current {
            Some(c) => c.uptime_check_enabled,
            None => true,
        },
    }
}

/// The input a merge of `entry` over `current` produces.
pub open spec fn merge_spec(entry: SyncEntry, current: Option<Monitor>, r: MonitorInput) -> bool {
    &&& r.url@ == entry.url@
    &&& r.check_interval_minutes == merged_interval(entry, current)
    &&& r.check_method == merged_method(entry, current)
    &&& r.look_for_string@ == merged_look(entry, current)
    &&& r.uptime_check_enabled == merged_enabled(entry, current)
    &&& r.cert_check_enabled == entry.cert_check_enabled
}

/// The monitor a merge reads from, as a value.
pub open spec fn matched(current: Option<&Monitor>) -> Option<Monitor> {
    match current {
        Some(m) => Some(*m),
        None => None,
    }
}

/// Merge one entry over the monitor it matched (or over the create defaults
/// when it matched none): a key absent from the entry keeps the current
/// value.
///
/// One merge-time rule beyond that: a stored look-for string cannot survive
/// a switch to HEAD (there is no body to search), so an entry that asks for
/// HEAD without naming `look_for_string` clears it instead of aborting the
/// run on a contradiction the file never stated. Certificate checking passes
/// straight through: `None` already means "keep the stored value" on update
/// and "scheme default" on create.
pub fn merge_entry(entry: &SyncEntry, current: Option<&Monitor>) -> (r: MonitorInput)
    ensures
        merge_spec(*entry, matched(current), r),
{
    let check_method = match entry.check_method {
        Some(m) => m,
        None => match current {
            Some(c) => c.check_method,
            None => CheckMethod::GET,
        },
    };
    let look_for_string = if check_method == CheckMethod::HEAD && entry.look_for_string.is_none() {
        String::new()
    } else {
        match &entry.look_for_string {
            Some(s) => s.clone(),
            None => match current {
                Some(c) => c.look_for_string.clone(),
                None => String::new(),
            },
        }
    };
    let check_interval_minutes = match entry.check_interval_minutes {
        Some(i) => i,
        None => match current {
            Some(c) => c.check_interval_minutes,
            None => DEFAULT_CHECK_INTERVAL_MINUTES,
        },
    };
    let uptime_check_enabled = match entry.uptime_check_enabled {
        Some(b) => b,
        None => match current {
            Some(c) => c.uptime_check_enabled,
            None => true,
        },
    };
    MonitorInput {
        url: entry.url.clone(),
        check_interval_minutes,
        check_method,
        look_for_string,
        uptime_check_enabled,
        cert_check_enabled: entry.cert_check_enabled,
    }
}

/// Absent keys keep their current values: merged over an existing monitor,
/// every key the entry leaves out comes from that monitor (the look-for
/// string too, unless the merge lands on HEAD).
pub proof fn law_absent_keys_keep_current_values(entry: SyncEntry, m: Monitor)
    ensures
        entry.check_interval_minutes is None ==> merged_interval(entry, Some(m))
            == m.check_interval_minutes,
        entry.check_method is None ==> merged_method(entry, Some(m)) == m.check_method,
        entry.uptime_check_enabled is None ==> merged_enabled(entry, Some(m))
            == m.uptime_check_enabled,
        entry.look_for_string is None && merged_method(entry, Some(m)) != CheckMethod::HEAD
            ==> merged_look(entry, Some(m)) == m.look_for_string@,
{
}

/// Over no monitor, absent keys take the create defaults: the default
/// interval, `GET`, no look-for string, uptime checking on.
pub proof fn law_absent_keys_take_create_defaults(entry: SyncEntry)
    ensures
        entry.check_interval_minutes is None ==> merged_interval(entry, None)
            == DEFAULT_CHECK_INTERVAL_MINUTES,
        entry.check_method is None ==> merged_method(entry, None) == CheckMethod::GET,
        entry.uptime_check_enabled is None ==> merged_enabled(entry, None),
        entry.look_for_string is None ==> merged_look(entry, None) == Seq::<char>::empty(),
{
}

/// Keys the entry names always win, whatever the current monitor holds.
pub proof fn law_named_keys_win(entry: SyncEntry, current: Option<Monitor>)
    ensures
        entry.check_interval_minutes matches Some(i) ==> merged_interval(entry, current) == i,
        entry.check_method matches Some(k) ==> merged_method(entry, current) == k,
        entry.uptime_check_enabled matches Some(b) ==> merged_enabled(entry, current) == b,
        entry.look_for_string matches Some(s) ==> merged_look(entry, current) == s@,
{
}

/// A merge lands on HEAD with a look-for string only when the entry itself
/// names one: a stored string never survives a switch to HEAD.
pub proof fn law_head_keeps_no_unnamed_look_for_string(entry: SyncEntry, current: Option<Monitor>)
    ensures
        merged_method(entry, current) == CheckMethod::HEAD && merged_look(entry, current).len() > 0
            ==> (entry.look_for_string matches Some(s) && s@.len() > 0),
{
}

} // verus!
