//! The atomic-swap protocol: names of temporary and backup files, and the
//! decisions taken after a database was built in a temporary location.
use vstd::prelude::*;
use crate::constants::DB_NAME;
use crate::number::{decimal, decimal_string};
use crate::text::string_from_str;

verus! {

/// Lowercase hexadecimal digits of `n`, without leading zeros.
pub open spec fn hex_min(n: nat) -> Seq<char>
    decreases n,
{
    if n < 16 {
        seq![crate::hash::hex_alphabet()[n as int]]
    } else {
        hex_min(n / 16).push(crate::hash::hex_alphabet()[(n % 16) as int])
    }
}

fn hex_min_chars(n: u64) -> (r: Vec<char>)
    ensures
        r@ == hex_min(n as nat),
    decreases n,
{
    if n < 16 {
        let mut v: Vec<char> = Vec::new();
        v.push(crate::hash::hex_digit(n));
        assert(v@ =~= hex_min(n as nat));
        v
    } else {
        let mut v = hex_min_chars(n / 16);
        v.push(crate::hash::hex_digit(n % 16));
        v
    }
}

/// Writes `n` in lowercase hexadecimal without leading zeros.
pub fn hex_string(n: u64) -> (r: String)
    ensures
        r@ == hex_min(n as nat),
{
    let v = hex_min_chars(n);
    crate::text::string_of(&v)
}

/// The name of the temporary database of one initializer:
/// `<DB_NAME>.tmp.<pid>_<thread hash in hex>`.
pub open spec fn temp_name(pid: u32, thread_hash: u64) -> Seq<char> {
    DB_NAME@ + ".tmp."@ + decimal(pid as nat) + "_"@ + hex_min(thread_hash as nat)
}

/// Names the temporary database of the calling process and thread, so
/// that concurrent initializers never share one.
pub fn temp_db_name(pid: u32, thread_hash: u64) -> (r: String)
    ensures
        r@ == temp_name(pid, thread_hash),
{
    let s = string_from_str(DB_NAME);
    let s = s.concat(".tmp.");
    let p = decimal_string(pid as u64);
    let s = s.concat(p.as_str());
    let s = s.concat("_");
    let h = hex_string(thread_hash);
    s.concat(h.as_str())
}

/// Names the backup of a database taken at Unix time `ts` (seconds):
/// `<DB_NAME>.backup.<ts>`.
pub fn backup_db_name(ts: u64) -> (r: String)
    ensures
        r@ == DB_NAME@ + ".backup."@ + decimal(ts as nat),
{
    let s = string_from_str(DB_NAME);
    let s = s.concat(".backup.");
    let d = decimal_string(ts);
    s.concat(d.as_str())
}

/// The shared-memory companion of a database file: `<name>-shm`.
pub fn shm_name(name: &str) -> (r: String)
    ensures
        r@ == name@ + "-shm"@,
{
    string_from_str(name).concat(crate::constants::DB_SHM_SUFFIX)
}

/// The write-ahead-log companion of a database file: `<name>-wal`.
pub fn wal_name(name: &str) -> (r: String)
    ensures
        r@ == name@ + "-wal"@,
{
    string_from_str(name).concat(crate::constants::DB_WAL_SUFFIX)
}

/// The three result fields of a truncating WAL checkpoint.
#[derive(Debug, Clone, Copy, PartialEq, Eq, Structural)]
pub struct Checkpoint {
    pub busy: i64,
    pub log: i64,
    pub checkpointed: i64,
}

/// A checkpoint is complete when every frame of the log reached the
/// database file, whether or not it was busy; a failed query is not.
pub open spec fn checkpoint_complete(c: Option<Checkpoint>) -> bool {
    match c {
        Some(k) => k.log == k.checkpointed,
        None => false,
    }
}

/// What to do with a freshly built temporary database.
#[derive(Debug, Clone, Copy, PartialEq, Eq, Structural)]
pub enum SwapAction {
    /// Another process already installed a database: discard the
    /// temporary files and report success.
    KeepExisting,
    /// The log could not be merged and no database exists: discard the
    /// temporary files and fail with a busy store error.
    Fail,
    /// Flush the temporary file, rename it into place, remove its log
    /// companions and flush the directory.
    Install,
}

pub open spec fn swap_action(checkpoint: Option<Checkpoint>, target_exists: bool) -> SwapAction {
    if target_exists {
        SwapAction::KeepExisting
    } else if checkpoint_complete(checkpoint) {
        SwapAction::Install
    } else {
        SwapAction::Fail
    }
}

/// Decides the end of an initialization from the checkpoint's result and
/// whether the target database exists by now.
pub fn decide_swap(checkpoint: Option<Checkpoint>, target_exists: bool) -> (r: SwapAction)
    ensures
        r == swap_action(checkpoint, target_exists),
{
    let complete = match checkpoint {
        Some(k) => k.log == k.checkpointed,
        None => false,
    };
    if target_exists {
        SwapAction::KeepExisting
    } else if complete {
        SwapAction::Install
    } else {
        SwapAction::Fail
    }
}

/// A database is only renamed into place after a complete checkpoint and
/// when no database exists, so the target is always either the old file
/// or a self-contained new one; an existing database is never replaced.
pub proof fn lemma_swap_installs_only_complete(checkpoint: Option<Checkpoint>, target_exists: bool)
    ensures
        swap_action(checkpoint, target_exists) == SwapAction::Install ==> checkpoint_complete(
            checkpoint,
        ) && !target_exists,
        target_exists ==> swap_action(checkpoint, target_exists) == SwapAction::KeepExisting,
        swap_action(checkpoint, target_exists) == SwapAction::Fail ==> !target_exists
            && !checkpoint_complete(checkpoint),
{
}

} // verus!
