//! What is read from disk, and what becomes of alerts: transcripts, Codex's index, settings and channels.

use crate::detect;
use crate::detect::Detector;
use crate::isotime;
use crate::order;
use crate::real_world;
use crate::real_world::alerts;
use crate::real_world::alerts::{Followed, Posted, Waited};
use crate::real_world::codex;
use crate::real_world::codex::{
    Active, DirectoryEntry, FirstLine, FirstRecord, Hunt, Located, NumberedRow,
};
use crate::real_world::files;
use crate::real_world::files::{Changed, ConfigFile, Entry, FileRead, Listing};
use crate::state::Kept;
use crate::text;
use crate::time::{Duration, SystemTime};
use crate::world::{
    ActivityUnavailable, DetectorConfig, NotifyConfig, NotifyOutcome, PathUnavailable,
    ProcessSnapshot, ResourceSource, ResourcesUnavailable, StateRead, Unmeasured,
    WorkspaceUnknown,
};
use vstd::prelude::*;

verus! {

// --- Transcripts -------------------------------------------------------------------------------

/// A transcript is a file whose name ends in `.jsonl`, whatever comes before.
pub proof fn law_what_a_transcript_is_called(stem: Seq<char>)
    ensures
        files::is_transcript(stem + ".jsonl"@),
        stem.len() < 6 ==> !files::is_transcript(stem),
{
    super::text::law_what_stands_in_a_text(stem, ".jsonl"@, Seq::empty());
    reveal_strlit(".jsonl");
}

/// The latest change is some transcript's, and there is none exactly if there is no transcript; what is no
/// transcript changes nothing.
pub proof fn law_the_latest_change_is_a_transcripts(entries: Seq<Entry>, directory: Seq<char>)
    requires
        files::latest_of(entries, directory) is Ok,
    ensures
        match files::latest_of(entries, directory)->Ok_0 {
            Some(time) => exists|i: int|
                0 <= i < entries.len() && ((#[trigger] entries[i]) matches Entry::Named {
                    name,
                    changed,
                } && files::is_transcript(name@) && changed == Changed::At(time)),
            None => forall|i: int|
                0 <= i < entries.len() ==> ((#[trigger] entries[i]) matches Entry::Named {
                    name,
                    ..
                } && !files::is_transcript(name@)),
        },
    decreases entries.len(),
{
    if entries.len() > 0 {
        let fewer = entries.drop_last();
        law_the_latest_change_is_a_transcripts(fewer, directory);
        assert forall|i: int| 0 <= i < fewer.len() implies #[trigger] entries[i] == fewer[i] by {
        }
        assert(entries[entries.len() - 1] == entries.last());
        if let Some(time) = files::latest_of(fewer, directory)->Ok_0 {
            let i = choose|i: int|
                0 <= i < fewer.len() && ((#[trigger] fewer[i]) matches Entry::Named {
                    name,
                    changed,
                } && files::is_transcript(name@) && changed == Changed::At(time));
            assert(entries[i] == fewer[i]);
        }
    }
}

/// When a name was last active is known exactly if its directory was listed, held a transcript, and nothing
/// was wrong with any entry.
pub proof fn law_when_activity_is_known(
    found: Result<SystemTime, ActivityUnavailable>,
    directory: Seq<char>,
    listing: Listing,
)
    requires
        files::is_activity(found, directory, listing),
    ensures
        found matches Ok(time) ==> listing is Listed && files::latest_of(
            listing->Listed_0@,
            directory,
        ) == Ok::<Option<SystemTime>, Seq<char>>(Some(time)),
        found == Err::<SystemTime, ActivityUnavailable>(ActivityUnavailable::NotRecorded) <==> listing
            is NoSuchDirectory,
        found == Err::<SystemTime, ActivityUnavailable>(ActivityUnavailable::NoTranscripts)
            <==> listing is Listed && files::latest_of(listing->Listed_0@, directory) == Ok::<
            Option<SystemTime>,
            Seq<char>,
        >(None),
        listing is NotListed ==> found is Err && found->Err_0 is Unreadable,
{
}

// --- Settings ----------------------------------------------------------------------------------

/// What is stored is found where it is, and absent only if there is no such file.
pub proof fn law_what_reading_the_state_comes_to(
    found: StateRead,
    path: Result<String, String>,
    read: FileRead,
)
    requires
        files::is_state_read(found, path, read),
    ensures
        found is Absent <==> path is Ok && read is NotFound,
        found matches StateRead::Found(contents) ==> path is Ok && read == FileRead::Read(contents),
        path is Ok && read is Read ==> found is Found,
        path matches Err(why) ==> found == StateRead::Unreadable(why),
{
}

/// A file is stored in the directory that it is in.
pub proof fn law_where_the_state_is_stored(
    found: Result<(String, String), String>,
    path: Result<String, String>,
)
    requires
        files::is_storage(found, path),
    ensures
        found matches Ok(places) ==> path is Ok && places.0@ == path->Ok_0@ && text::parent_path(
            path->Ok_0@,
        ) == Some(places.1@),
        found is Ok <==> path is Ok && text::parent_path(path->Ok_0@) is Some,
{
}

/// Alerts go where the file says that they go, each channel where it names one; without a file, or with one
/// that cannot be used, they go nowhere.
pub proof fn law_where_alerts_go(
    config: NotifyConfig,
    path: Result<String, String>,
    read: FileRead,
    decoded: Result<ConfigFile, String>,
)
    requires
        files::is_notify_config(config, path, read, decoded),
    ensures
        path is Ok && read is Read && decoded is Ok ==> {
            let file = decoded->Ok_0;
            &&& config.local_command is Some <==> file.local_command is Some
                && !super::text::is_blank(file.local_command->0@)
            &&& config.remote_url is Some <==> file.remote_url is Some && !super::text::is_blank(
                file.remote_url->0@,
            )
            &&& config.local_command is Some ==> config.local_command == file.local_command
            &&& config.remote_url is Some ==> config.remote_url == file.remote_url
            &&& config.unusable is None
        },
        !(path is Ok && read is Read && decoded is Ok) ==> !config.reaches_anyone(),
        config.unusable is None <==> path is Ok && (read is NotFound || read is Read && decoded
            is Ok),
{
    if decoded is Ok {
        let file = decoded->Ok_0;
        if file.local_command is Some {
            super::text::law_nothing_is_left_of_blanks_alone(file.local_command->0@);
        }
        if file.remote_url is Some {
            super::text::law_nothing_is_left_of_blanks_alone(file.remote_url->0@);
        }
    }
}

/// Agents are recognised by the detectors that come with the tool, and by those of the file as well where all
/// of it can be used; where it cannot, that is said.
pub proof fn law_how_agents_are_recognised(
    config: DetectorConfig,
    path: Result<String, String>,
    read: FileRead,
    decoded: Result<Vec<Detector>, String>,
    embedded: Vec<Detector>,
)
    requires
        files::is_detector_config(config, path, read, decoded, embedded),
    ensures
        config.unusable is Some ==> config.detectors == embedded,
        path is Err || read is Failed ==> config.unusable is Some,
        path is Ok && read is NotFound ==> config.detectors == embedded && config.unusable is None,
        path is Ok && read is Read && decoded is Err ==> config.unusable is Some,
        path is Ok && read is Read && decoded is Ok && config.unusable is None ==> exists|
            kept: Vec<Detector>,
        |
            detect::is_accepted(Ok(kept), decoded->Ok_0) && config.detectors@ == #[trigger]
                detect::merged(embedded@, kept@),
{
    if path is Ok && read is Read && decoded is Ok && config.unusable is None {
        let own = decoded->Ok_0;
        let at = path->Ok_0;
        let accepted = choose|accepted: Result<Vec<Detector>, String>|
            {
                &&& #[trigger] detect::is_accepted(accepted, own)
                &&& match accepted {
                    Ok(kept) => config.detectors@ == detect::merged(embedded@, kept@)
                        && config.unusable is None,
                    Err(fault) => files::falls_back(config, embedded, at@ + ": "@ + fault@),
                }
            };
        assert(accepted is Ok);
        assert(detect::merged(embedded@, accepted->Ok_0@) == config.detectors@);
    }
}

/// A file is where its variable says, as it says it, and otherwise in the older directory at home.
pub proof fn law_where_a_file_is(
    path: Result<String, String>,
    kept: Kept,
    explicit: Option<String>,
    home: Result<String, String>,
)
    requires
        real_world::is_path_of(path, kept, explicit, home),
    ensures
        explicit is Some && !super::text::is_blank(explicit->0@) ==> path == Ok::<String, String>(
            explicit->0,
        ),
        (explicit is None || super::text::is_blank(explicit->0@)) && home is Ok ==> path is Ok
            && path->Ok_0@ == text::child(text::child(home->Ok_0@, ".acmon"@), kept.older_file()),
        path is Err <==> (explicit is None || super::text::is_blank(explicit->0@)) && home is Err,
{
    if explicit is Some {
        super::text::law_nothing_is_left_of_blanks_alone(explicit->0@);
    }
}

/// A line is as wide as the terminal, or as `COLUMNS` says where there is none, or a hundred and twenty.
pub proof fn law_how_wide_a_line_is(terminal: u16, columns: &str, width: nat)
    ensures
        terminal > 0 ==> real_world::width_of(Some(terminal), Some(columns)) == terminal
            && real_world::width_of(Some(terminal), None) == terminal,
        real_world::width_of(None, None) == 120,
        0 < width <= u16::MAX && text::natural(text::trimmed(columns@), u16::MAX as nat) == Ok::<
            nat,
            text::NumberFault,
        >(width) ==> real_world::width_of(None, Some(columns)) == width && real_world::width_of(
            Some(0),
            Some(columns),
        ) == width,
        text::natural(text::trimmed(columns@), u16::MAX as nat) is Err ==> real_world::width_of(
            None,
            Some(columns),
        ) == 120,
{
}

// --- Codex's index -----------------------------------------------------------------------------

/// A line of the index makes a session exactly if its timestamp can be read, is not from before the epoch,
/// and lies no more than six hours back.
pub proof fn law_which_lines_make_a_session(entry: NumberedRow, now: i64, index: Seq<char>)
    ensures
        match codex::added(entry, now, index) {
            Ok(Some(session)) => {
                &&& entry.row is Ok
                &&& session.0 == entry.row->Ok_0.id@
                &&& isotime::instant(entry.row->Ok_0.updated_at@) matches Some(updated) && 0
                    <= updated && now - updated <= 6 * 60 * 60 && session.1 == updated
                    * 1_000_000_000
            },
            Ok(None) => entry.row is Ok && (isotime::instant(entry.row->Ok_0.updated_at@)
                matches Some(updated) && now - updated > 6 * 60 * 60),
            Err(_) => entry.row is Err || isotime::instant(entry.row->Ok_0.updated_at@) is None
                || isotime::instant(entry.row->Ok_0.updated_at@)->0 < 0 || isotime::instant(
                entry.row->Ok_0.updated_at@,
            )->0 > i64::MAX,
        },
{
}

/// The sessions of an index are those of its lines, in their order; one line that cannot be read spoils them
/// all.
pub proof fn law_an_index_is_read_line_by_line(
    entries: Seq<NumberedRow>,
    entry: NumberedRow,
    now: i64,
    index: Seq<char>,
)
    ensures
        codex::active_of(Seq::empty(), now, index) == Ok::<Seq<(Seq<char>, int)>, Seq<char>>(
            Seq::empty(),
        ),
        codex::active_of(entries, now, index) is Err ==> codex::active_of(
            entries.push(entry),
            now,
            index,
        ) == codex::active_of(entries, now, index),
        codex::active_of(entries, now, index) is Ok && codex::added(entry, now, index) is Err
            ==> codex::active_of(entries.push(entry), now, index) is Err,
        codex::active_of(entries, now, index) matches Ok(before) ==> (codex::added(
            entry,
            now,
            index,
        ) matches Ok(more) ==> codex::active_of(entries.push(entry), now, index) == Ok::<
            Seq<(Seq<char>, int)>,
            Seq<char>,
        >(
            before + match more {
                Some(session) => seq![session],
                None => Seq::empty(),
            },
        )),
{
    assert(entries.push(entry).drop_last() =~= entries);
    if let Ok(before) = codex::active_of(entries, now, index) {
        if let Ok(more) = codex::added(entry, now, index) {
            match more {
                Some(session) => {
                    assert(before.push(session) =~= before + seq![session]);
                },
                None => {
                    assert(before =~= before + Seq::<(Seq<char>, int)>::empty());
                },
            }
        }
    }
}

/// A file whose name holds the id of a wanted session, the first such, is that session's transcript, unless
/// it has one; a directory is none, and neither is a file that names nobody.
pub proof fn law_which_files_are_transcripts_of_codex(
    found: Seq<Located>,
    entry: DirectoryEntry,
    wanted: Seq<Active>,
    at: int,
)
    ensures
        entry.is_directory ==> codex::with_entry(found, entry, wanted) == found,
        (forall|i: int|
            0 <= i < wanted.len() ==> !text::contains_text(entry.name@, (#[trigger] wanted[i]).id@))
            ==> codex::with_entry(found, entry, wanted) == found,
        !entry.is_directory && 0 <= at < wanted.len() && text::contains_text(
            entry.name@,
            wanted[at].id@,
        ) && (forall|i: int|
            0 <= i < at ==> !text::contains_text(entry.name@, (#[trigger] wanted[i]).id@))
            && !codex::is_located(found, wanted[at].id@) ==> {
            let after = codex::with_entry(found, entry, wanted);
            &&& after.len() == found.len() + 1
            &&& after.drop_last() == found
            &&& after.last().id == wanted[at].id
            &&& after.last().path == entry.path
            &&& after.last().last_activity == wanted[at].last_activity
        },
{
    let names = codex::is_named_in(entry.name@);
    order::lemma_first_where(wanted, names);
    if forall|i: int|
        0 <= i < wanted.len() ==> !text::contains_text(entry.name@, (#[trigger] wanted[i]).id@) {
        order::lemma_is_nowhere(wanted, names);
    }
    if !entry.is_directory && 0 <= at < wanted.len() && text::contains_text(
        entry.name@,
        wanted[at].id@,
    ) && (forall|i: int|
        0 <= i < at ==> !text::contains_text(entry.name@, (#[trigger] wanted[i]).id@)) {
        order::lemma_is_first(wanted, names, at);
        let after = codex::with_entry(found, entry, wanted);
        if !codex::is_located(found, wanted[at].id@) {
            assert(after.drop_last() =~= found);
        }
    }
}

/// Entries are taken in one after the other.
pub proof fn law_entries_are_taken_in_one_by_one(
    found: Seq<Located>,
    one: Seq<DirectoryEntry>,
    other: Seq<DirectoryEntry>,
    single: DirectoryEntry,
    wanted: Seq<Active>,
)
    ensures
        codex::with_entries(found, one + other, wanted) == codex::with_entries(
            codex::with_entries(found, one, wanted),
            other,
            wanted,
        ),
        codex::with_entries(found, seq![single], wanted) == codex::with_entry(found, single, wanted),
    decreases other.len(),
{
    if other.len() == 0 {
        assert(one + other =~= one);
    } else {
        law_entries_are_taken_in_one_by_one(found, one, other.drop_last(), single, wanted);
        assert((one + other).drop_last() =~= one + other.drop_last());
    }
    assert(seq![single].drop_last() =~= Seq::<DirectoryEntry>::empty());
    assert(codex::with_entries(found, seq![single].drop_last(), wanted) == found);
}

/// Every directory among the entries is looked into, and nothing else is.
pub proof fn law_every_directory_is_looked_into(entries: Seq<DirectoryEntry>, entry: DirectoryEntry)
    ensures
        codex::subdirectories(Seq::empty()).len() == 0,
        entry.is_directory ==> codex::subdirectories(entries.push(entry)).len()
            == codex::subdirectories(entries).len() + 1 && codex::subdirectories(
            entries.push(entry),
        ).last().path == entry.path && codex::subdirectories(entries.push(entry)).drop_last()
            == codex::subdirectories(entries),
        !entry.is_directory ==> codex::subdirectories(entries.push(entry)) == codex::subdirectories(
            entries,
        ),
{
    assert(entries.push(entry).drop_last() =~= entries);
    if entry.is_directory {
        assert(codex::subdirectories(entries.push(entry)).drop_last() =~= codex::subdirectories(
            entries,
        ));
    }
}

/// A hunt looks into what it came upon last, and ends when nothing is left to look into or everything wanted
/// is found.
pub proof fn law_when_a_hunt_ends(after: Hunt, path: Option<String>, before: Hunt)
    requires
        codex::has_stepped(after, path, before),
    ensures
        path is None <==> before.pending@.len() == 0 || before.found@.len() == before.wanted@.len(),
        path matches Some(next) ==> before.pending@.last().path == next && after.pending@.len() + 1
            == before.pending@.len(),
        after.found == before.found,
        after.wanted == before.wanted,
{
}

/// What a hunt sees adds to what it found, and its directories to what it has yet to look into.
pub proof fn law_what_a_hunt_takes_in(after: Hunt, before: Hunt, entries: Seq<DirectoryEntry>)
    requires
        codex::has_seen(after, before, entries),
    ensures
        after.wanted == before.wanted,
        after.found@ == codex::with_entries(before.found@, entries, before.wanted@),
        after.pending@.len() == before.pending@.len() + codex::subdirectories(entries).len(),
        before.pending@.is_prefix_of(after.pending@),
{
}

/// A first record names a place exactly if it is the session's and its directory is not empty.
pub proof fn law_what_a_first_record_names(record: FirstRecord)
    ensures
        codex::workplace(Ok(record)) is Ok <==> record.kind@ == "session_meta"@ && record.cwd@.len()
            > 0,
        codex::workplace(Ok(record)) matches Ok(place) ==> place == record.cwd@,
{
}

/// Where a session works is what its transcript's first record names, if it could be read.
pub proof fn law_where_a_codex_session_works(
    found: Result<String, String>,
    path: Seq<char>,
    line: FirstLine,
)
    requires
        codex::is_workspace_read(found, path, line),
    ensures
        found matches Ok(place) ==> line is Read && codex::workplace(line->Read_0) == Ok::<
            Seq<char>,
            Seq<char>,
        >(place@),
        found is Ok <==> line is Read && codex::workplace(line->Read_0) is Ok,
        found matches Err(why) ==> text::begins_with(why@, path),
{
    if let Err(why) = found {
        assert(why@.subrange(0, path.len() as int) =~= path);
    }
}

// --- Alerts ------------------------------------------------------------------------------------

/// An alert is delivered by a command exactly if the command succeeded; a command that runs is waited for
/// exactly until its budget is used up.
pub proof fn law_when_a_command_has_delivered(
    followed: Followed,
    waited: Waited,
    elapsed: Duration,
    budget: Duration,
)
    requires
        alerts::follows(followed, waited, elapsed, budget),
    ensures
        followed == Followed::Ended(NotifyOutcome::Delivered) <==> waited is Succeeded,
        followed is Wait <==> waited is StillRunning && elapsed.nanos < budget.nanos,
        followed is Stop <==> waited is Lost || waited is StillRunning && elapsed.nanos
            >= budget.nanos,
        followed matches Followed::Ended(outcome) ==> outcome is Delivered || outcome is Failed,
{
}

/// An alert is delivered by a post exactly if the post succeeded, and failed otherwise.
pub proof fn law_when_a_post_has_delivered(outcome: NotifyOutcome, posted: Posted)
    requires
        alerts::is_posted(outcome, posted),
    ensures
        outcome is Delivered <==> posted is Succeeded,
        outcome is Failed <==> !(posted is Succeeded),
{
}

/// A post goes to the address it is for, with the payload as data, fails loudly, and takes no longer than
/// it may.
pub proof fn law_what_a_post_holds(url: Seq<char>, payload: Seq<char>, most_seconds: Seq<char>)
    ensures
        ({
            let request = alerts::request(url, payload, most_seconds);
            &&& request.len() == 12
            &&& request.last() == url
            &&& request[9] == "--data"@ && request[10] == payload
            &&& request[3] == "--max-time"@ && request[4] == most_seconds
            &&& request[0] == "--fail"@
            &&& request[5] == "-X"@ && request[6] == "POST"@
            &&& request[7] == "-H"@ && request[8] == "Content-Type: application/json"@
        }),
{
}

// --- Words -------------------------------------------------------------------------------------

/// A workspace is unknown for the reason that its path is.
pub proof fn law_a_path_and_its_workspace_fail_alike()
    ensures
        WorkspaceUnknown::because_of(PathUnavailable::PermissionDenied)
            == WorkspaceUnknown::PermissionDenied,
        WorkspaceUnknown::because_of(PathUnavailable::ProcessExited)
            == WorkspaceUnknown::ProcessExited,
{
}

/// Whoever looked is in what it saw exactly if a process has its pid.
pub proof fn law_whoever_looks_sees_itself(snapshot: ProcessSnapshot, at: int)
    ensures
        0 <= at < snapshot.records@.len() && snapshot.records@[at].pid == snapshot.observer_pid
            ==> snapshot.sees_itself(),
        snapshot.records@.len() == 0 ==> !snapshot.sees_itself(),
{
}

/// Each reason that a figure is missing has words of its own.
pub proof fn law_missing_figures_are_told_apart(why: String)
    ensures
        Unmeasured::NotReportedBy(ResourceSource::Ps).words() == "ps-blind"@,
        Unmeasured::NotReportedBy(ResourceSource::Rusage).words() == "no-ledger"@,
        ResourcesUnavailable::ProcessExited.words() == "exited"@,
        ResourcesUnavailable::AllReadersFailed(why).words() == "unread"@,
        ResourceSource::Rusage.word() == "proc_pid_rusage"@,
        ResourceSource::Ps.word() == "ps"@,
{
}

} // verus!
