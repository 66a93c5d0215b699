//! The status line and the log of recent status messages.

use vstd::prelude::*;

use crate::config::{config_error_message, ConfigError};
use crate::text::concat2;

verus! {

/// How many status messages the log keeps.
pub const STATUS_HISTORY_LIMIT: usize = 200;

#[derive(Clone, Copy, Debug, PartialEq, Eq, Structural)]
pub enum StatusLevel {
    Info,
    Error,
}

impl Default for StatusLevel {
    fn default() -> (r: Self)
        ensures
            r == StatusLevel::Info,
    {
        StatusLevel::Info
    }
}

/// One message of the status log.
#[derive(Debug, PartialEq, Eq)]
pub struct StatusEntry {
    pub message: String,
    pub level: StatusLevel,
}

impl StatusEntry {
    pub fn new(message: String) -> (r: Self)
        ensures
            r.message == message,
            r.level == StatusLevel::Info,
    {
        StatusEntry { message, level: StatusLevel::Info }
    }

    pub fn new_error(message: String) -> (r: Self)
        ensures
            r.message == message,
            r.level == StatusLevel::Error,
    {
        StatusEntry { message, level: StatusLevel::Error }
    }
}

/// The log after an entry is added: the newest `STATUS_HISTORY_LIMIT`
/// entries.
pub open spec fn recent_history(history: Seq<StatusEntry>) -> Seq<StatusEntry> {
    if history.len() > STATUS_HISTORY_LIMIT {
        history.skip(history.len() - STATUS_HISTORY_LIMIT)
    } else {
        history
    }
}

/// Shows `entry` as the status and adds it to the log, dropping the oldest
/// entries beyond `STATUS_HISTORY_LIMIT`.
pub fn push_entry(status: &mut String, status_history: &mut Vec<StatusEntry>, entry: StatusEntry)
    ensures
        final(status)@ == entry.message@,
        final(status_history)@ == recent_history(old(status_history)@.push(entry)),
{
    *status = entry.message.clone();
    let ghost all = status_history@.push(entry);
    status_history.push(entry);
    let ghost mut dropped: int = 0;
    while status_history.len() > STATUS_HISTORY_LIMIT
        invariant
            0 <= dropped <= all.len(),
            status_history@ == all.skip(dropped),
            all.len() > STATUS_HISTORY_LIMIT ==> dropped <= all.len() - STATUS_HISTORY_LIMIT,
            all.len() <= STATUS_HISTORY_LIMIT ==> dropped == 0,
        decreases status_history.len(),
    {
        status_history.remove(0);
        proof {
            assert(all.skip(dropped).skip(1) =~= all.skip(dropped + 1));
            dropped = dropped + 1;
        }
    }
}

/// Shows an informational status.
pub fn replace_status(status: &mut String, status_history: &mut Vec<StatusEntry>, value: String)
    ensures
        final(status)@ == value@,
        final(status_history)@ == recent_history(
            old(status_history)@.push(StatusEntry { message: value, level: StatusLevel::Info }),
        ),
{
    push_entry(status, status_history, StatusEntry::new(value));
}

/// Shows an error status.
pub fn replace_status_error(status: &mut String, status_history: &mut Vec<StatusEntry>, value: String)
    ensures
        final(status)@ == value@,
        final(status_history)@ == recent_history(
            old(status_history)@.push(StatusEntry { message: value, level: StatusLevel::Error }),
        ),
{
    push_entry(status, status_history, StatusEntry::new_error(value));
}

/// The status log never holds more than `STATUS_HISTORY_LIMIT` entries, the
/// entry added last is its last entry, and the entries before it keep
/// their order; nothing is dropped while there is room.
pub proof fn lemma_status_history_bounded(history: Seq<StatusEntry>, entry: StatusEntry)
    requires
        history.len() <= STATUS_HISTORY_LIMIT,
    ensures
        recent_history(history.push(entry)).len() <= STATUS_HISTORY_LIMIT,
        recent_history(history.push(entry)).last() == entry,
        history.len() < STATUS_HISTORY_LIMIT ==> recent_history(history.push(entry))
            == history.push(entry),
        history.len() == STATUS_HISTORY_LIMIT ==> recent_history(history.push(entry))
            == history.skip(1).push(entry),
{
    if history.len() == STATUS_HISTORY_LIMIT {
        assert(history.push(entry).skip(1) =~= history.skip(1).push(entry));
    }
}

/// The status shown when there is no usable configuration.
pub open spec fn first_run_status_of(error: ConfigError) -> Seq<char> {
    match error {
        ConfigError::Read { not_found: true, .. } => "First-run setup required. No config.yml exists yet."@,
        _ => "Setup required: "@ + config_error_message(error),
    }
}

pub fn first_run_status(error: &ConfigError) -> (r: String)
    ensures
        r@ == first_run_status_of(*error),
{
    match error {
        ConfigError::Read { not_found: true, .. } => "First-run setup required. No config.yml exists yet.".to_owned(),
        _ => {
            let message = error.message();
            concat2("Setup required: ", message.as_str())
        },
    }
}

} // verus!
