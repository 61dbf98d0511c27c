//! Launches: who held the lock before, how long a run lasted, how it ended, and where things are kept.

use crate::isotime;
use crate::lock;
use crate::lock::{Attempt, LockRefusal, Predecessor, WatchLock};
use crate::order;
use crate::starts;
use crate::starts::{
    DecodedLine, Downtime, Examined, History, LastStateWrite, LaunchLog, PreviousExit, StartRecord,
    Uptime,
};
use crate::state;
use crate::state::{Kept, Located, OnDisk, Paths, StateStore};
use crate::text;
use crate::time::{Duration, SystemTime};
use vstd::prelude::*;

verus! {

// --- The lock ----------------------------------------------------------------------------------

/// What a lock file holds: nothing where it is blank, the number that stands in it with blanks round it, and
/// otherwise an error.
pub proof fn law_what_a_lock_file_holds(
    recorded: Result<Option<u32>, String>,
    contents: Seq<char>,
    pid: u32,
)
    requires
        lock::is_recorded(recorded, contents),
    ensures
        recorded == Ok::<Option<u32>, String>(None) <==> text::trimmed(contents).len() == 0,
        contents == text::decimal(pid as nat) + "\n"@ ==> recorded == Ok::<Option<u32>, String>(
            Some(pid),
        ),
        recorded is Err ==> text::natural(text::trimmed(contents), u32::MAX as nat) is Err,
{
    lock::law_a_recorded_pid_reads_back(pid);
}

/// A lock is taken exactly if the attempt took it, for whoever asked; and whoever left a record in it is its
/// predecessor, running or not as was seen.
pub proof fn law_who_gets_the_lock(
    outcome: Result<WatchLock, LockRefusal>,
    path: String,
    holder: u32,
    attempt: Attempt,
)
    requires
        lock::is_acquired(outcome, path, holder, attempt),
    ensures
        outcome is Ok <==> attempt is Taken,
        outcome matches Ok(held) ==> held.at() == path@ && held.held_by() == holder,
        attempt matches Attempt::Taken { contents, predecessor_runs } ==> (lock::pid_in(contents)
            matches Ok(Some(pid)) ==> outcome->Ok_0.after() == Some(
            Predecessor { pid: pid as u32, still_running: predecessor_runs },
        )),
        attempt matches Attempt::Taken { contents, .. } ==> (lock::pid_in(contents) == Ok::<
            Option<nat>,
            Seq<char>,
        >(None) ==> outcome->Ok_0.after() is None && outcome->Ok_0.doubt() is None),
        attempt matches Attempt::Taken { contents, .. } ==> (lock::pid_in(contents) is Err
            <==> outcome->Ok_0.doubt() is Some),
        attempt matches Attempt::Busy { contents } ==> (outcome matches Err(
            LockRefusal::HeldBy { pid, .. },
        ) ==> lock::pid_in(contents) == Ok::<Option<nat>, Seq<char>>(Some(pid as nat))),
        attempt is Busy <==> (outcome matches Err(why) && (why is HeldBy || why is HeldByUnnamed)),
        attempt is NoDirectory || attempt is NoFile || attempt is NoLock || attempt is Unrecorded
            <==> (outcome matches Err(why) && why is Unavailable),
{
    if let Attempt::Busy { contents } = attempt {
        lemma_pids_fit(contents);
    }
}

proof fn lemma_pids_fit(contents: Result<String, String>)
    ensures
        lock::pid_in(contents) matches Ok(Some(pid)) ==> pid <= u32::MAX,
{
}

// --- The run before ----------------------------------------------------------------------------

/// A run lasted from its launch to the last write after it, to the nanosecond; without a launch on record,
/// or with a write that came before the launch, its length is not known.
pub proof fn law_how_long_the_last_run_lasted(
    uptime: Uptime,
    written: SystemTime,
    history: History,
    seconds: int,
)
    requires
        starts::is_uptime(uptime, LastStateWrite::At(written), history),
        history.lately().len() > 0,
        isotime::instant(history.lately().last().started_at@) == Some(seconds),
        i64::MIN <= seconds <= i64::MAX,
    ensures
        uptime is Ran <==> seconds * 1_000_000_000 <= written.nanos,
        uptime matches Uptime::Ran(ran) ==> seconds * 1_000_000_000 + ran.nanos == written.nanos,
        uptime.figure() is Ok <==> uptime is Ran,
{
}

/// Nothing is known of a run that was never recorded, that never wrote, or whose last write cannot be
/// established.
pub proof fn law_an_unrecorded_run_has_no_length(
    uptime: Uptime,
    last: LastStateWrite,
    history: History,
)
    requires
        starts::is_uptime(uptime, last, history),
    ensures
        history is NothingRecorded ==> uptime is NoPreviousLaunch,
        history is Unreadable ==> uptime is Unknown,
        last is Never || last is Unreadable ==> !(uptime is Ran),
        uptime is NoPreviousLaunch ==> history.lately().len() == 0 && !(history is Unreadable),
{
}

/// A run is short if it lasted less than one interval of the slowest tier while active, which is two
/// minutes.
pub proof fn law_what_a_short_run_is(ran: Duration, uptime: Uptime)
    ensures
        Uptime::Ran(ran).shortness() == Some(ran.nanos < 120 * 1_000_000_000),
        !(uptime is Ran) ==> uptime.shortness() is None,
        starts::shortest_run().nanos == 120 * 1_000_000_000,
{
}

/// When the state was last written is when its file was last changed; a file that is not there was never
/// written.
pub proof fn law_when_the_state_was_last_written(
    last: LastStateWrite,
    store: StateStore,
    examined: Examined,
)
    requires
        starts::is_last_write(last, store, examined),
    ensures
        last is Never <==> examined is NotFound,
        last matches LastStateWrite::At(at) ==> examined == Examined::Modified(at),
        examined is Modified ==> last is At,
{
}

/// The downtime before a launch is the time since the last write, and a write that is ahead of the launch
/// is ahead by as much as it is.
pub proof fn law_how_long_nothing_ran(downtime: Downtime, at: SystemTime, written: SystemTime)
    requires
        starts::is_downtime(downtime, at, LastStateWrite::At(written)),
    ensures
        written.nanos <= at.nanos ==> (downtime matches Downtime::Since(gap) && written.nanos
            + gap.nanos == at.nanos),
        written.nanos > at.nanos ==> (downtime matches Downtime::LastWriteAheadOfLaunch(ahead)
            && at.nanos + ahead.nanos == written.nanos),
{
}

/// An exit was clean exactly if the lock bears no record of a holder and a launch is on record; unclean
/// exactly if it bears one that can be read.
pub proof fn law_how_the_last_run_ended(
    exit: PreviousExit,
    predecessor: Option<Predecessor>,
    unreadable: Option<Seq<char>>,
    history: History,
    last: LastStateWrite,
)
    requires
        starts::is_exit(exit, predecessor, unreadable, history, last),
    ensures
        exit is Clean <==> unreadable is None && predecessor is None && history is Recorded,
        exit is Unclean <==> unreadable is None && predecessor is Some,
        exit is Absent <==> unreadable is None && predecessor is None && history is NothingRecorded
            && last is Never,
        exit matches PreviousExit::Unclean { pid, still_running } ==> predecessor == Some(
            Predecessor { pid, still_running },
        ),
        exit.cleanness() == Some(true) <==> exit is Clean,
        exit.cleanness() == Some(false) <==> exit is Unclean,
        exit.cleanness() is None <==> exit is Absent || exit is Unknown,
{
}

// --- The record of launches --------------------------------------------------------------------

/// The lines of a record that hold something are numbered as they stand in it, from one; blank ones count but
/// are not listed.
pub proof fn law_lines_are_numbered_from_one(lines: Seq<Seq<char>>, line: Seq<char>)
    ensures
        starts::numbered(Seq::empty()).len() == 0,
        text::trimmed(line).len() == 0 ==> starts::numbered(lines.push(line)) == starts::numbered(
            lines,
        ),
        text::trimmed(line).len() > 0 ==> starts::numbered(lines.push(line)) == starts::numbered(
            lines,
        ) + seq![((lines.len() + 1) as int, line)],
{
    assert(lines.push(line).drop_last() =~= lines);
    assert(text::trimmed(line).len() > 0 ==> starts::numbered(lines.push(line)) =~= starts::numbered(
        lines,
    ) + seq![((lines.len() + 1) as int, line)]);
}

/// The last few of a list end it, and are as many as asked for, or all.
pub proof fn law_the_last_few<T>(before: Seq<T>, last: Seq<T>)
    ensures
        starts::tail(before + last, last.len() as int) == last,
        starts::tail(last, (last.len() + before.len()) as int) == last,
{
    assert(starts::tail(before + last, last.len() as int) =~= last);
}

/// A history is believed exactly if every line of the record is a launch of the version that is understood;
/// it counts them all and keeps the last four.
pub proof fn law_what_a_record_tells(told: History, path: Seq<char>, lines: Vec<DecodedLine>)
    requires
        starts::is_history(told, path, LaunchLog::Lines(lines)),
    ensures
        told is Unreadable <==> exists|i: int|
            0 <= i < lines@.len() && match (#[trigger] lines@[i]).record {
                Ok(record) => record.version != 1,
                Err(_) => true,
            },
        told is NothingRecorded <==> lines@.len() == 0,
        told matches History::Recorded { launches, recent } ==> launches == lines@.len()
            && recent@.len() == (if lines@.len() < 4 {
            lines@.len() as int
        } else {
            4
        }) && forall|i: int|
            0 <= i < recent@.len() ==> lines@[lines@.len() - recent@.len() + i].record == Ok::<
                StartRecord,
                String,
            >(#[trigger] recent@[i]),
{
    order::lemma_first_where(lines@, starts::spoilt());
    match order::first_where(lines@, starts::spoilt()) {
        Some(at) => {
            assert(starts::spoilt()(lines@[at]));
        },
        None => {
            assert forall|i: int| 0 <= i < lines@.len() implies match (#[trigger] lines@[i]).record {
                Ok(record) => record.version == 1,
                Err(_) => false,
            } by {
                assert(!starts::spoilt()(lines@[i]));
            }
        },
    }
}

/// Short runs are counted one by one.
pub proof fn law_every_short_run_counts_once(
    one: Seq<StartRecord>,
    other: Seq<StartRecord>,
    single: StartRecord,
)
    ensures
        starts::short_among(one + other) == starts::short_among(one) + starts::short_among(other),
        starts::short_among(seq![single]) == if single.previous_run_was_short == Some(true) {
            1nat
        } else {
            0nat
        },
    decreases other.len(),
{
    if other.len() == 0 {
        assert(one + other =~= one);
        assert(starts::short_among(other) == 0);
    } else {
        law_every_short_run_counts_once(one, other.drop_last(), single);
        assert((one + other).drop_last() =~= one + other.drop_last());
    }
    assert(seq![single].drop_last() =~= Seq::<StartRecord>::empty());
    assert(starts::short_among(seq![single].drop_last()) == 0);
}

/// Unclean exits are counted one by one.
pub proof fn law_every_unclean_exit_counts_once(
    one: Seq<StartRecord>,
    other: Seq<StartRecord>,
    single: StartRecord,
)
    ensures
        starts::unclean_among(one + other) == starts::unclean_among(one) + starts::unclean_among(
            other,
        ),
        starts::unclean_among(seq![single]) == if single.previous_exit@ == "unclean"@ {
            1nat
        } else {
            0nat
        },
    decreases other.len(),
{
    if other.len() == 0 {
        assert(one + other =~= one);
        assert(starts::unclean_among(other) == 0);
    } else {
        law_every_unclean_exit_counts_once(one, other.drop_last(), single);
        assert((one + other).drop_last() =~= one + other.drop_last());
    }
    assert(seq![single].drop_last() =~= Seq::<StartRecord>::empty());
    assert(starts::unclean_among(seq![single].drop_last()) == 0);
}

/// A launch is numbered one beyond those on record, says who was launched and who came before, and calls it
/// a pattern exactly from the third short run on among the launches looked at.
pub proof fn law_what_a_launch_records(
    record: StartRecord,
    at: SystemTime,
    pid: u32,
    last: LastStateWrite,
    predecessor: Option<Predecessor>,
    unreadable: Option<Seq<char>>,
    history: History,
)
    requires
        starts::is_decided(record, at, pid, last, predecessor, unreadable, history),
        history.countable(),
    ensures
        record.version == 1,
        record.pid == pid,
        history matches History::Recorded { launches, .. } ==> record.launches.value == Some(
            (launches + 1) as u64,
        ),
        history is NothingRecorded ==> record.launches.value == Some(1u64),
        history is Unreadable ==> record.launches.value is None,
        isotime::is_stamp(record.started_at@, isotime::whole_seconds(at)),
        record.previous_pid is Some <==> predecessor is Some,
        record.previous_pid matches Some(before) ==> before == predecessor->0.pid,
        record.cycling is Some <==> record.short_runs >= 3,
        record.launches_considered == history.lately().len() + 1,
        record.short_runs - starts::short_among(history.lately()) == if record.previous_run_was_short
            == Some(true) {
            1int
        } else {
            0int
        },
        record.unclean_exits - starts::unclean_among(history.lately()) == if unreadable is None
            && predecessor is Some {
            1int
        } else {
            0int
        },
        record.previous_exit@ == "unclean"@ <==> unreadable is None && predecessor is Some,
        record.downtime_secs.value is Some <==> (last matches LastStateWrite::At(written)
            && written.nanos <= at.nanos),
        record.downtime_secs.value matches Some(gap) ==> last->At_0.nanos + gap.nanos == at.nanos,
{
    let exit = choose|exit: PreviousExit|
        {
            &&& #[trigger] starts::is_exit(exit, predecessor, unreadable, history, last)
            &&& record.previous_exit@ == exit.word()
            &&& record.previous_exit_why@ == exit.account()
            &&& record.unclean_exits == starts::unclean_among(history.lately()) + if exit
                is Unclean {
                1int
            } else {
                0int
            }
        };
    law_how_the_last_run_ended(exit, predecessor, unreadable, history, last);
    let downtime = choose|downtime: Downtime|
        #[trigger] starts::is_downtime(downtime, at, last) && record.downtime_secs.says(
            downtime.figure(),
        );
    starts::law_only_an_earlier_write_gives_a_downtime(downtime, at, last);
    reveal_strlit("unclean");
    reveal_strlit("absent");
    reveal_strlit("clean");
    reveal_strlit("unknown");
    assert("unclean"@[2] == 'c');
    assert("unknown"@[2] == 'k');
    assert("absent"@.len() == 6);
    assert("clean"@.len() == 5);
    assert("unclean"@.len() == 7);
}

// --- Where things are kept ---------------------------------------------------------------------

/// A setting names something exactly if anything but white space is in it.
pub proof fn law_a_blank_setting_names_nothing(setting: &str)
    ensures
        state::named(None) is None,
        state::named(Some(setting)) is Some <==> !super::text::is_blank(setting@),
        state::named(Some(setting)) matches Some(named) ==> named == text::trimmed(setting@),
{
    super::text::law_nothing_is_left_of_blanks_alone(setting@);
}

/// A directory that a setting names is the one that is used; where none does, the usual one at home; and the
/// older one is looked at exactly where no setting names either.
pub proof fn law_which_directories_are_used(
    paths: Result<Paths, String>,
    config_dir: Option<&str>,
    state_dir: Option<&str>,
    home: Option<&str>,
)
    requires
        state::are_paths(paths, config_dir, state_dir, home),
    ensures
        paths is Ok <==> state::named(home) is Some || (state::named(config_dir) is Some
            && state::named(state_dir) is Some),
        paths matches Ok(found) ==> {
            &&& state::named(config_dir) matches Some(named) ==> found.config@ == named
            &&& state::named(state_dir) matches Some(named) ==> found.state@ == named
            &&& state::named(config_dir) is None ==> found.config@ == text::child(
                text::child(state::named(home)->0, ".config"@),
                "acmon"@,
            )
            &&& state::named(state_dir) is None ==> found.state@ == text::child(
                text::child(text::child(state::named(home)->0, ".local"@), "state"@),
                "acmon"@,
            )
            &&& found.legacy is Some <==> state::named(config_dir) is None && state::named(
                state_dir,
            ) is None
            &&& found.legacy matches Some(legacy) ==> legacy@ == text::child(
                state::named(home)->0,
                ".acmon"@,
            )
        },
{
}

/// A file that a setting names is read and written there. Otherwise it is written in its usual place, and
/// read there too, unless there is none and one in the older place.
pub proof fn law_where_a_file_is_read_and_written(
    located: Located,
    paths: Paths,
    kept: Kept,
    explicit: Option<&str>,
    there: OnDisk,
)
    requires
        state::is_located(located, paths, kept, explicit, there),
    ensures
        located.kept == kept,
        state::named(explicit) matches Some(named) ==> located.read@ == named && located.canonical@
            == named && located.how is Named,
        state::named(explicit) is None ==> {
            &&& located.canonical@ == paths.usual(kept)
            &&& located.how is CarriedForward <==> !there.canonical && there.legacy && paths.legacy
                is Some
            &&& located.how is CarriedForward ==> located.read@ == text::child(
                paths.legacy->0@,
                kept.older_file(),
            )
            &&& !(located.how is CarriedForward) ==> located.read@ == paths.usual(kept)
                && located.how is InPlace
        },
        located.remark() is None <==> located.how is InPlace,
{
}

/// What is remembered is kept with the state, and what is configured with the configuration.
pub proof fn law_memory_is_state_and_settings_are_configuration(paths: Paths)
    ensures
        paths.usual(Kept::Memory) == text::child(paths.state@, "memory.json"@),
        paths.usual(Kept::NotifyConfig) == text::child(paths.config@, "notify.toml"@),
        paths.usual(Kept::Detectors) == text::child(paths.config@, "detectors.toml"@),
        paths.legacy matches Some(legacy) ==> {
            &&& paths.older(Kept::Memory) == Some(text::child(legacy@, "state.json"@))
            &&& paths.older(Kept::NotifyConfig) == Some(text::child(legacy@, "notify.toml"@))
            &&& paths.older(Kept::Detectors) == Some(text::child(legacy@, "detectors.toml"@))
        },
        paths.legacy is None ==> paths.older(Kept::Memory) is None,
        Kept::Memory.naming() == "ACMON_STATE"@,
        Kept::NotifyConfig.naming() == "ACMON_NOTIFY_CONFIG"@,
        Kept::Detectors.naming() == "ACMON_DETECTORS"@,
{
}

} // verus!
