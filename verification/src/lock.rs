//! The single-writer lock: who holds it, who held it before, and what a refusal says.
//!
//! Taking the lock is the operating system's business. What follows from how far that got is decided
//! here.

use crate::text;
use vstd::prelude::*;

verus! {

/// The lock's file, in the state directory.
pub const LOCK_FILE: &'static str = "watch.lock";

/// The process that held the lock before and left its record in it.
#[derive(Debug, Clone, Copy, PartialEq, Eq, Structural)]
pub struct Predecessor {
    pub pid: u32,
    pub still_running: bool,
}

/// Why the lock could not be had.
#[derive(Debug, PartialEq, Eq)]
pub enum LockRefusal {
    HeldBy { pid: u32, path: String },
    HeldByUnnamed { path: String, reason: String },
    Unavailable { path: String, reason: String },
}

impl LockRefusal {
    /// The pid of whoever holds the lock, where that is known.
    pub fn holder_pid(&self) -> (pid: Option<u32>)
        ensures
            pid == match *self {
                LockRefusal::HeldBy { pid, .. } => Some(pid),
                _ => None,
            },
    {
        match self {
            LockRefusal::HeldBy { pid, .. } => Some(*pid),
            LockRefusal::HeldByUnnamed { .. } | LockRefusal::Unavailable { .. } => None,
        }
    }

    /// The refusal in words.
    pub open spec fn words(self) -> Seq<char> {
        match self {
            LockRefusal::HeldBy { pid, path } => "pid "@ + text::decimal(pid as nat)
                + " holds the state lock "@ + path@
                + ", so it is already the writer. Two writers interleave state and duplicate alerts, so this one is not starting. Use `amon status` and the log to watch the one that is running."@,
            LockRefusal::HeldByUnnamed { path, reason } => "something holds the state lock "@ + path@
                + ", but its pid could not be read from the file ("@ + reason@
                + "), so this refusal cannot name it. The lock is held either way, so this instance is not starting."@,
            LockRefusal::Unavailable { path, reason } => "the state lock "@ + path@
                + " could not be taken: "@ + reason@,
        }
    }

    /// The refusal in words.
    pub fn to_text(&self) -> (words: String)
        ensures
            words@ == self.words(),
    {
        match self {
            LockRefusal::HeldBy { pid, path } => String::from_str("pid ").concat(
                text::decimal_of(*pid as u128).as_str(),
            ).concat(" holds the state lock ").concat(path.as_str()).concat(
                ", so it is already the writer. Two writers interleave state and duplicate alerts, so this one is not starting. Use `amon status` and the log to watch the one that is running.",
            ),
            LockRefusal::HeldByUnnamed { path, reason } => String::from_str(
                "something holds the state lock ",
            ).concat(path.as_str()).concat(", but its pid could not be read from the file (").concat(
                reason.as_str(),
            ).concat(
                "), so this refusal cannot name it. The lock is held either way, so this instance is not starting.",
            ),
            LockRefusal::Unavailable { path, reason } => String::from_str("the state lock ").concat(
                path.as_str(),
            ).concat(" could not be taken: ").concat(reason.as_str()),
        }
    }
}

/// What is said of a lock file that holds something else than a pid.
pub open spec fn not_a_pid(contents: Seq<char>) -> Seq<char> {
    "the lock file contains "@ + text::quoted(text::trimmed(contents))
        + ", which is not a pid this tool wrote"@
}

/// Whether this is the pid that a lock file holds.
pub open spec fn is_recorded(recorded: Result<Option<u32>, String>, contents: Seq<char>) -> bool {
    match recorded {
        Ok(None) => text::trimmed(contents).len() == 0,
        Ok(Some(pid)) => text::trimmed(contents).len() > 0 && text::natural(
            text::trimmed(contents),
            u32::MAX as nat,
        ) == Ok::<nat, text::NumberFault>(pid as nat),
        Err(why) => text::trimmed(contents).len() > 0 && text::natural(
            text::trimmed(contents),
            u32::MAX as nat,
        ) is Err && why@ == not_a_pid(contents),
    }
}

/// The pid that a lock file's contents record: none where there is nothing but white space, and an
/// error where there is something else.
pub fn recorded_pid(contents: &str) -> (recorded: Result<Option<u32>, String>)
    ensures
        is_recorded(recorded, contents@),
{
    let trimmed: Vec<char> = text::trim(&text::characters(contents));
    if trimmed.len() == 0 {
        return Ok(None);
    }
    match text::parse_up_to(&trimmed, u32::MAX as u64) {
        Ok(pid) => Ok(Some(pid as u32)),
        Err(_) => Err(
            String::from_str("the lock file contains ").concat(
                text::quote(text::text_of(&trimmed).as_str()).as_str(),
            ).concat(", which is not a pid this tool wrote"),
        ),
    }
}

/// What is written into the lock file by its holder.
pub fn pid_record(pid: u32) -> (contents: String)
    ensures
        contents@ == text::decimal(pid as nat) + "\n"@,
{
    text::decimal_of(pid as u128).concat("\n")
}

/// The pid a holder records is the pid that is read.
pub proof fn law_a_recorded_pid_reads_back(pid: u32)
    ensures
        text::natural(
            text::trimmed(text::decimal(pid as nat) + "\n"@),
            u32::MAX as nat,
        ) == Ok::<nat, text::NumberFault>(pid as nat),
{
    let digits = text::decimal(pid as nat);
    reveal_strlit("\n");
    assert("\n"@ =~= seq!['\n']);
    let written = digits + "\n"@;
    text::lemma_decimal_is_digits(pid as nat);
    assert(text::is_digit(digits[0]));
    assert(written[0] == digits[0]);
    assert(!text::is_white(written[0]));
    assert(text::without_leading_white(written) == written);
    assert(written.last() == '\n');
    assert(written.drop_last() =~= digits);
    assert(text::is_digit(digits[digits.len() - 1]));
    assert(!text::is_white(digits.last()));
    reveal_with_fuel(text::without_trailing_white, 2);
    assert(text::trimmed(written) == digits);
    text::law_numbers_read_as_written(pid as nat, 0, u32::MAX as nat);
}

/// How far taking the lock got.
#[derive(Debug, PartialEq, Eq)]
pub enum Attempt {
    /// The state directory could not be created.
    NoDirectory { directory: String, why: String },
    /// The lock file could not be opened.
    NoFile { why: String },
    /// The lock could not be asked for.
    NoLock { why: String },
    /// Somebody else holds it, and this is what its file holds or why that could not be read.
    Busy { contents: Result<String, String> },
    /// It was taken, and this is what its file held.
    Taken { contents: Result<String, String>, predecessor_runs: bool },
    /// It was taken, but the pid of its holder could not be recorded.
    Unrecorded { why: String },
}

/// The lock, held.
#[derive(Debug, PartialEq, Eq)]
pub struct WatchLock {
    path: String,
    holder: u32,
    predecessor: Option<Predecessor>,
    unreadable_record: Option<String>,
}

fn record_in(contents: Result<String, String>) -> (recorded: Result<Option<u32>, String>)
    ensures
        match contents {
            Err(why) => recorded == Err::<Option<u32>, String>(why),
            Ok(held) => match recorded {
                Ok(None) => text::trimmed(held@).len() == 0,
                Ok(Some(pid)) => text::trimmed(held@).len() > 0 && text::natural(
                    text::trimmed(held@),
                    u32::MAX as nat,
                ) == Ok::<nat, text::NumberFault>(pid as nat),
                Err(why) => text::trimmed(held@).len() > 0 && text::natural(
                    text::trimmed(held@),
                    u32::MAX as nat,
                ) is Err && why@ == not_a_pid(held@),
            },
        },
{
    match contents {
        Ok(held) => recorded_pid(held.as_str()),
        Err(why) => Err(why),
    }
}

/// What a lock file's contents say about a pid.
pub open spec fn pid_in(contents: Result<String, String>) -> Result<Option<nat>, Seq<char>> {
    match contents {
        Err(why) => Err(why@),
        Ok(held) => if text::trimmed(held@).len() == 0 {
            Ok(None)
        } else {
            match text::natural(text::trimmed(held@), u32::MAX as nat) {
                Ok(pid) => Ok(Some(pid)),
                Err(_) => Err(not_a_pid(held@)),
            }
        },
    }
}

/// Whoever comes after a holder that recorded itself learns its pid from the file: a second monitor that
/// finds the lock busy, and one that takes it over.
pub proof fn law_a_holder_is_named_to_whoever_comes_after(contents: String, pid: u32)
    requires
        contents@ == text::decimal(pid as nat) + "\n"@,
    ensures
        pid_in(Ok(contents)) == Ok::<Option<nat>, Seq<char>>(Some(pid as nat)),
{
    law_a_recorded_pid_reads_back(pid);
}

/// Whether this is what becomes of an attempt to take the lock.
pub open spec fn is_acquired(
    outcome: Result<WatchLock, LockRefusal>,
    path: String,
    holder: u32,
    attempt: Attempt,
) -> bool {
    match attempt {
        Attempt::NoDirectory { directory, why } => outcome matches Err(
            LockRefusal::Unavailable { path: at, reason },
        ) && at == path && reason@ == "the state directory "@ + directory@
            + " could not be created: "@ + why@,
        Attempt::NoFile { why } => outcome matches Err(
            LockRefusal::Unavailable { path: at, reason },
        ) && at == path && reason@ == "the lock file could not be opened: "@ + why@,
        Attempt::NoLock { why } => outcome matches Err(
            LockRefusal::Unavailable { path: at, reason },
        ) && at == path && reason@ == "flock failed: "@ + why@,
        Attempt::Unrecorded { why } => outcome == Err::<WatchLock, LockRefusal>(
            LockRefusal::Unavailable { path, reason: why },
        ),
        Attempt::Busy { contents } => match pid_in(contents) {
            Ok(Some(pid)) => outcome == Err::<WatchLock, LockRefusal>(
                LockRefusal::HeldBy { pid: pid as u32, path },
            ),
            Ok(None) => outcome matches Err(
                LockRefusal::HeldByUnnamed { path: at, reason },
            ) && at == path && reason@
                == "the lock file is empty; the holder may be exiting"@,
            Err(why) => outcome matches Err(
                LockRefusal::HeldByUnnamed { path: at, reason },
            ) && at == path && reason@ == why,
        },
        Attempt::Taken { contents, predecessor_runs } => outcome matches Ok(lock)
            && lock.at() == path@ && lock.held_by() == holder && match pid_in(contents) {
            Ok(Some(pid)) => lock.after() == Some(
                Predecessor { pid: pid as u32, still_running: predecessor_runs },
            ) && lock.doubt() is None,
            Ok(None) => lock.after() is None && lock.doubt() is None,
            Err(why) => lock.after() is None && lock.doubt() == Some(why),
        },
    }
}

impl WatchLock {
    /// The lock file's path.
    pub closed spec fn at(self) -> Seq<char> {
        self.path@
    }

    /// The pid that holds the lock.
    pub closed spec fn held_by(self) -> u32 {
        self.holder
    }

    /// Who held it before and died holding it.
    pub closed spec fn after(self) -> Option<Predecessor> {
        self.predecessor
    }

    /// Why nobody can say who held it before.
    pub closed spec fn doubt(self) -> Option<Seq<char>> {
        match self.unreadable_record {
            Some(why) => Some(why@),
            None => None,
        }
    }

    /// What an attempt to take the lock came to. A lock that was taken is held, and the record that a
    /// dead holder left in it names the predecessor; a lock that is busy is refused, by name where its
    /// file gives one.
    pub fn acquire(path: String, holder: u32, attempt: Attempt) -> (outcome: Result<
        WatchLock,
        LockRefusal,
    >)
        ensures
            is_acquired(outcome, path, holder, attempt),
    {
        match attempt {
            Attempt::NoDirectory { directory, why } => Err(
                LockRefusal::Unavailable {
                    path,
                    reason: String::from_str("the state directory ").concat(
                        directory.as_str(),
                    ).concat(" could not be created: ").concat(why.as_str()),
                },
            ),
            Attempt::NoFile { why } => Err(
                LockRefusal::Unavailable {
                    path,
                    reason: String::from_str("the lock file could not be opened: ").concat(
                        why.as_str(),
                    ),
                },
            ),
            Attempt::NoLock { why } => Err(
                LockRefusal::Unavailable {
                    path,
                    reason: String::from_str("flock failed: ").concat(why.as_str()),
                },
            ),
            Attempt::Unrecorded { why } => Err(LockRefusal::Unavailable { path, reason: why }),
            Attempt::Busy { contents } => match record_in(contents) {
                Ok(Some(pid)) => Err(LockRefusal::HeldBy { pid, path }),
                Ok(None) => Err(
                    LockRefusal::HeldByUnnamed {
                        path,
                        reason: String::from_str(
                            "the lock file is empty; the holder may be exiting",
                        ),
                    },
                ),
                Err(reason) => Err(LockRefusal::HeldByUnnamed { path, reason }),
            },
            Attempt::Taken { contents, predecessor_runs } => {
                let (predecessor, unreadable_record) = match record_in(contents) {
                    Ok(Some(pid)) => (
                        Some(Predecessor { pid, still_running: predecessor_runs }),
                        None,
                    ),
                    Ok(None) => (None, None),
                    Err(why) => (None, Some(why)),
                };
                Ok(WatchLock { path, holder, predecessor, unreadable_record })
            },
        }
    }

    /// The pid that holds the lock.
    pub fn holder_pid(&self) -> (pid: u32)
        ensures
            pid == self.held_by(),
    {
        self.holder
    }

    /// The lock file's path.
    pub fn path(&self) -> (path: &str)
        ensures
            path@ == self.at(),
    {
        self.path.as_str()
    }

    /// Who held it before and died holding it.
    pub fn took_over_from(&self) -> (predecessor: Option<Predecessor>)
        ensures
            predecessor == self.after(),
    {
        self.predecessor
    }

    /// Why nobody can say who held it before.
    pub fn unreadable_record(&self) -> (why: Option<&str>)
        ensures
            match why {
                Some(found) => self.doubt() == Some(found@),
                None => self.doubt() is None,
            },
    {
        match &self.unreadable_record {
            Some(why) => Some(why.as_str()),
            None => None,
        }
    }
}

} // verus!
