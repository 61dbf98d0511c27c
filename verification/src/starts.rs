//! The record of launches: how long nothing ran, how the last run ended, and whether the monitor is
//! being restarted rather than running.

use crate::isotime;
use crate::lock::Predecessor;
use crate::meter::Measured;
use crate::order;
use crate::schedule::Cadence;
use crate::state::StateStore;
use crate::text;
use crate::time::{Duration, SystemTime};
use vstd::prelude::*;

verus! {

/// The record's file, in the state directory.
pub const STARTS_FILE: &'static str = "starts.jsonl";

/// The version of a launch record.
pub const RECORD_VERSION: u32 = 1;

/// How many launches are looked at for a pattern, the present one among them.
pub const RECENT_LAUNCHES: usize = 5;

/// How many short runs make a pattern.
pub const CYCLING_THRESHOLD: usize = 3;

/// A run shorter than this was no run: one interval of the slowest tier.
pub open spec fn shortest_run() -> Duration {
    Cadence::while_active().slow
}

/// A run shorter than this was no run: one interval of the slowest tier.
pub fn short_run() -> (span: Duration)
    ensures
        span == shortest_run(),
{
    Cadence::active().slow
}

/// When the state was last written.
#[derive(Debug, PartialEq, Eq)]
pub enum LastStateWrite {
    At(SystemTime),
    Never,
    Unreadable(String),
}

/// What looking at the state file came to.
#[derive(Debug, PartialEq, Eq)]
pub enum Examined {
    Modified(SystemTime),
    WithoutTime(String),
    NotFound,
    Failed(String),
}

/// Whether this is when the state was last written.
pub open spec fn is_last_write(last: LastStateWrite, store: StateStore, examined: Examined) -> bool {
    let path = text::child(store.works_in().state@, "state.json"@);
    match examined {
        Examined::Modified(at) => last == LastStateWrite::At(at),
        Examined::NotFound => last is Never,
        Examined::WithoutTime(why) => last matches LastStateWrite::Unreadable(said) && said@
            == path + " is there, but its modification time could not be read: "@ + why@,
        Examined::Failed(why) => last matches LastStateWrite::Unreadable(said) && said@
            == path + " could not be examined: "@ + why@,
    }
}

/// When the state was last written, given what looking at its file came to.
pub fn last_state_write(store: &StateStore, examined: Examined) -> (last: LastStateWrite)
    ensures
        is_last_write(last, *store, examined),
{
    match examined {
        Examined::Modified(at) => LastStateWrite::At(at),
        Examined::NotFound => LastStateWrite::Never,
        Examined::WithoutTime(why) => LastStateWrite::Unreadable(
            store.file("state.json").concat(
                " is there, but its modification time could not be read: ",
            ).concat(why.as_str()),
        ),
        Examined::Failed(why) => LastStateWrite::Unreadable(
            store.file("state.json").concat(" could not be examined: ").concat(why.as_str()),
        ),
    }
}

// --- How long nothing ran ----------------------------------------------------------------------

/// How long nothing was written before a launch.
#[derive(Debug, PartialEq, Eq)]
pub enum Downtime {
    Since(Duration),
    NoPreviousWrite,
    LastWriteAheadOfLaunch(Duration),
    Unreadable(String),
}

impl Downtime {
    /// The figure, or why there is none.
    pub open spec fn figure(self) -> Result<Duration, Seq<char>> {
        match self {
            Downtime::Since(gap) => Ok(gap),
            Downtime::NoPreviousWrite => Err(
                "state.json has never been written here, so there is no earlier write to measure a gap from; this is a first launch and not a downtime of zero"@,
            ),
            Downtime::LastWriteAheadOfLaunch(ahead) => Err(
                "the last state write is stamped "@ + ahead.tenths()
                    + "s after this launch, so the gap cannot be computed; this machine's clock appears to have gone backwards"@,
            ),
            Downtime::Unreadable(why) => Err(why@),
        }
    }

    /// The figure, or why there is none.
    pub fn seconds(&self) -> (measured: Measured<Duration>)
        ensures
            measured.says(self.figure()),
    {
        match self {
            Downtime::Since(gap) => Measured::known(*gap),
            Downtime::NoPreviousWrite => Measured::unavailable(
                String::from_str(
                    "state.json has never been written here, so there is no earlier write to measure a gap from; this is a first launch and not a downtime of zero",
                ),
            ),
            Downtime::LastWriteAheadOfLaunch(ahead) => Measured::unavailable(
                String::from_str("the last state write is stamped ").concat(
                    ahead.to_tenths().as_str(),
                ).concat(
                    "s after this launch, so the gap cannot be computed; this machine's clock appears to have gone backwards",
                ),
            ),
            Downtime::Unreadable(why) => Measured::unavailable(why.clone()),
        }
    }

    /// The downtime in words.
    pub fn describe(&self) -> (words: String)
        ensures
            words@ == match self.figure() {
                Ok(gap) => gap.tenths() + "s of downtime since the last state write"@,
                Err(why) => "the downtime is not a figure: "@ + why,
            },
    {
        let measured: Measured<Duration> = self.seconds();
        match (measured.value, measured.unavailable) {
            (Some(gap), _) => gap.to_tenths().concat("s of downtime since the last state write"),
            (None, Some(why)) => String::from_str("the downtime is not a figure: ").concat(
                why.as_str(),
            ),
            (None, None) => String::from_str(
                "the downtime is neither a figure nor a reason, which is a bug in the launch record",
            ),
        }
    }
}

/// Whether this is the downtime before a launch.
pub open spec fn is_downtime(downtime: Downtime, at: SystemTime, last: LastStateWrite) -> bool {
    match last {
        LastStateWrite::Never => downtime is NoPreviousWrite,
        LastStateWrite::Unreadable(why) => downtime matches Downtime::Unreadable(said) && said@
            == "the last state write could not be established, so the downtime cannot be measured: "@
            + why@,
        LastStateWrite::At(written) => match at.since(written) {
            Some(gap) => downtime == Downtime::Since(gap),
            None => downtime == Downtime::LastWriteAheadOfLaunch(written.since(at)->0),
        },
    }
}

/// The downtime before a launch.
pub fn downtime_from(at: SystemTime, last: &LastStateWrite) -> (downtime: Downtime)
    ensures
        is_downtime(downtime, at, *last),
{
    match last {
        LastStateWrite::Never => Downtime::NoPreviousWrite,
        LastStateWrite::Unreadable(why) => Downtime::Unreadable(
            String::from_str(
                "the last state write could not be established, so the downtime cannot be measured: ",
            ).concat(why.as_str()),
        ),
        LastStateWrite::At(written) => match at.duration_since(*written) {
            Some(gap) => Downtime::Since(gap),
            None => match written.duration_since(at) {
                Some(ahead) => Downtime::LastWriteAheadOfLaunch(ahead),
                None => Downtime::NoPreviousWrite,
            },
        },
    }
}

/// A downtime is a figure exactly where something was written no later than the launch: a first launch
/// is not a downtime of zero.
pub proof fn law_only_an_earlier_write_gives_a_downtime(
    downtime: Downtime,
    at: SystemTime,
    last: LastStateWrite,
)
    requires
        is_downtime(downtime, at, last),
    ensures
        downtime.figure() is Ok <==> (last matches LastStateWrite::At(written) && written.nanos
            <= at.nanos),
        downtime.figure() matches Ok(gap) ==> gap.nanos == at.nanos - last->At_0.nanos,
{
}

// --- How long the last run ran -----------------------------------------------------------------

/// How long the run before this one ran.
#[derive(Debug, PartialEq, Eq)]
pub enum Uptime {
    Ran(Duration),
    NoPreviousLaunch,
    Unknown(String),
}

impl Uptime {
    /// The figure, or why there is none.
    pub open spec fn figure(self) -> Result<Duration, Seq<char>> {
        match self {
            Uptime::Ran(ran) => Ok(ran),
            Uptime::NoPreviousLaunch => Err(
                "no previous launch is on record here, so there is no run length to state"@,
            ),
            Uptime::Unknown(why) => Err(why@),
        }
    }

    /// The figure, or why there is none.
    pub fn seconds(&self) -> (measured: Measured<Duration>)
        ensures
            measured.says(self.figure()),
    {
        match self {
            Uptime::Ran(ran) => Measured::known(*ran),
            Uptime::NoPreviousLaunch => Measured::unavailable(
                String::from_str(
                    "no previous launch is on record here, so there is no run length to state",
                ),
            ),
            Uptime::Unknown(why) => Measured::unavailable(why.clone()),
        }
    }

    /// Whether the run was too short to count as one, where its length is known.
    pub open spec fn shortness(self) -> Option<bool> {
        match self {
            Uptime::Ran(ran) => Some(ran.nanos < shortest_run().nanos),
            _ => None,
        }
    }

    /// Whether the run was too short to count as one, where its length is known.
    pub fn was_short(&self) -> (short: Option<bool>)
        ensures
            short == self.shortness(),
    {
        match self {
            Uptime::Ran(ran) => Some(ran.nanos < short_run().nanos),
            Uptime::NoPreviousLaunch | Uptime::Unknown(_) => None,
        }
    }
}

// --- How the last run ended --------------------------------------------------------------------

/// How the run before this one ended.
#[derive(Debug, PartialEq, Eq)]
pub enum PreviousExit {
    Absent,
    Clean,
    Unclean { pid: u32, still_running: bool },
    Unknown(String),
}

impl PreviousExit {
    /// The end in one word.
    pub open spec fn word(self) -> Seq<char> {
        match self {
            PreviousExit::Absent => "absent"@,
            PreviousExit::Clean => "clean"@,
            PreviousExit::Unclean { .. } => "unclean"@,
            PreviousExit::Unknown(_) => "unknown"@,
        }
    }

    /// The end in one word.
    pub fn label(&self) -> (label: &'static str)
        ensures
            label@ == self.word(),
    {
        match self {
            PreviousExit::Absent => "absent",
            PreviousExit::Clean => "clean",
            PreviousExit::Unclean { .. } => "unclean",
            PreviousExit::Unknown(_) => "unknown",
        }
    }

    /// The end in a sentence.
    pub open spec fn account(self) -> Seq<char> {
        match self {
            PreviousExit::Absent =>
                "there is no previous exit: no launch is on record here and state.json has never been written, so nothing has ever monitored this machine from this state directory"@,
            PreviousExit::Clean =>
                "the monitor before this one released the state lock, so it stopped on purpose"@,
            PreviousExit::Unclean { pid, still_running } =>
                "the monitor before this one did not exit cleanly: pid "@ + text::decimal(pid as nat)
                + " left its record in the state lock and "@ + if still_running {
                "is still running without holding it, which is stranger still — a recycled pid, or something that wrote the record without taking the lock"@
            } else {
                "is no longer running"@
            },
            PreviousExit::Unknown(why) => "whether the previous exit was clean is not known: "@
                + why@,
        }
    }

    /// The end in a sentence.
    pub fn describe(&self) -> (words: String)
        ensures
            words@ == self.account(),
    {
        match self {
            PreviousExit::Absent => String::from_str(
                "there is no previous exit: no launch is on record here and state.json has never been written, so nothing has ever monitored this machine from this state directory",
            ),
            PreviousExit::Clean => String::from_str(
                "the monitor before this one released the state lock, so it stopped on purpose",
            ),
            PreviousExit::Unclean { pid, still_running } => String::from_str(
                "the monitor before this one did not exit cleanly: pid ",
            ).concat(text::decimal_of(*pid as u128).as_str()).concat(
                " left its record in the state lock and ",
            ).concat(
                if *still_running {
                    "is still running without holding it, which is stranger still — a recycled pid, or something that wrote the record without taking the lock"
                } else {
                    "is no longer running"
                },
            ),
            PreviousExit::Unknown(why) => String::from_str(
                "whether the previous exit was clean is not known: ",
            ).concat(why.as_str()),
        }
    }

    /// Whether the end was clean, where that is known.
    pub open spec fn cleanness(self) -> Option<bool> {
        match self {
            PreviousExit::Clean => Some(true),
            PreviousExit::Unclean { .. } => Some(false),
            _ => None,
        }
    }

    /// Whether the end was clean, where that is known.
    pub fn clean(&self) -> (clean: Option<bool>)
        ensures
            clean == self.cleanness(),
    {
        match self {
            PreviousExit::Clean => Some(true),
            PreviousExit::Unclean { .. } => Some(false),
            PreviousExit::Absent | PreviousExit::Unknown(_) => None,
        }
    }
}

// --- The record --------------------------------------------------------------------------------

/// One launch on record.
#[derive(Debug, PartialEq, Eq)]
pub struct StartRecord {
    pub version: u32,
    pub started_at: String,
    pub pid: u32,
    pub launches: Measured<u64>,
    pub downtime_secs: Measured<Duration>,
    pub previous_exit: String,
    pub previous_exit_why: String,
    pub previous_pid: Option<u32>,
    pub previous_uptime_secs: Measured<Duration>,
    pub previous_run_was_short: Option<bool>,
    pub launches_considered: usize,
    pub short_runs: usize,
    pub unclean_exits: usize,
    pub cycling: Option<String>,
}

impl StartRecord {
    /// Whether the monitor is being restarted rather than running.
    pub fn is_cycling(&self) -> (cycling: bool)
        ensures
            cycling == self.cycling is Some,
    {
        self.cycling.is_some()
    }
}

fn figure_again(measured: &Measured<Duration>) -> (copy: Measured<Duration>)
    ensures
        copy == *measured,
{
    Measured {
        value: measured.value,
        unavailable: match &measured.unavailable {
            Some(why) => Some(why.clone()),
            None => None,
        },
    }
}

impl Clone for StartRecord {
    fn clone(&self) -> (copy: StartRecord)
        ensures
            copy == *self,
    {
        StartRecord {
            version: self.version,
            started_at: self.started_at.clone(),
            pid: self.pid,
            launches: Measured {
                value: self.launches.value,
                unavailable: match &self.launches.unavailable {
                    Some(why) => Some(why.clone()),
                    None => None,
                },
            },
            downtime_secs: figure_again(&self.downtime_secs),
            previous_exit: self.previous_exit.clone(),
            previous_exit_why: self.previous_exit_why.clone(),
            previous_pid: self.previous_pid,
            previous_uptime_secs: figure_again(&self.previous_uptime_secs),
            previous_run_was_short: self.previous_run_was_short,
            launches_considered: self.launches_considered,
            short_runs: self.short_runs,
            unclean_exits: self.unclean_exits,
            cycling: match &self.cycling {
                Some(words) => Some(words.clone()),
                None => None,
            },
        }
    }
}

/// A launch, and why it is not on record if it is not.
#[derive(Debug, PartialEq, Eq)]
pub struct Launch {
    pub record: StartRecord,
    pub not_recorded: Option<String>,
}

/// The launches on record.
#[derive(Debug, PartialEq, Eq)]
pub enum History {
    NothingRecorded,
    Recorded { launches: u64, recent: Vec<StartRecord> },
    Unreadable(String),
}

impl History {
    /// Whether another launch can be counted.
    pub open spec fn countable(self) -> bool {
        match self {
            History::Recorded { launches, recent } => launches < u64::MAX && recent@.len()
                < usize::MAX,
            _ => true,
        }
    }

    /// The recent launches on record, oldest first.
    pub open spec fn lately(self) -> Seq<StartRecord> {
        match self {
            History::Recorded { recent, .. } => recent@,
            _ => Seq::empty(),
        }
    }

    /// The latest launch on record.
    pub fn last(&self) -> (record: Option<&StartRecord>)
        ensures
            match record {
                Some(found) => self.lately().len() > 0 && *found == self.lately().last(),
                None => self.lately().len() == 0,
            },
    {
        match self {
            History::Recorded { recent, .. } => if recent.len() > 0 {
                Some(&recent[recent.len() - 1])
            } else {
                None
            },
            History::NothingRecorded | History::Unreadable(_) => None,
        }
    }

    /// How many launches are on record, or why that is not known.
    pub open spec fn count(self) -> Result<u64, Seq<char>> {
        match self {
            History::Recorded { launches, .. } => Ok(launches),
            History::NothingRecorded => Ok(0),
            History::Unreadable(why) => Err(why@),
        }
    }

    /// How many launches are on record, or why that is not known.
    pub fn launches(&self) -> (measured: Measured<u64>)
        ensures
            measured.says(self.count()),
    {
        match self {
            History::Recorded { launches, .. } => Measured::known(*launches),
            History::NothingRecorded => Measured::known(0),
            History::Unreadable(why) => Measured::unavailable(why.clone()),
        }
    }

    /// Whether the record could be read.
    pub fn determined(&self) -> (determined: bool)
        ensures
            determined == !(self is Unreadable),
    {
        match self {
            History::Unreadable(_) => false,
            History::NothingRecorded | History::Recorded { .. } => true,
        }
    }
}

/// The lines of a record file that hold something, and the number each has in the file, from one.
pub open spec fn numbered(lines: Seq<Seq<char>>) -> Seq<(int, Seq<char>)>
    decreases lines.len(),
{
    if lines.len() == 0 {
        Seq::empty()
    } else if text::trimmed(lines.last()).len() == 0 {
        numbered(lines.drop_last())
    } else {
        numbered(lines.drop_last()).push((lines.len() as int, lines.last()))
    }
}

/// A line of the record file, by its number.
#[derive(Debug, PartialEq, Eq)]
pub struct NumberedLine {
    pub number: usize,
    pub text: String,
}

/// Whether these are the lines.
pub open spec fn are_lines(found: Seq<NumberedLine>, expected: Seq<(int, Seq<char>)>) -> bool {
    &&& found.len() == expected.len()
    &&& forall|i: int|
        0 <= i < found.len() ==> (#[trigger] found[i]).number == expected[i].0 && found[i].text@
            == expected[i].1
}

/// The lines of a record file that hold something.
pub fn record_lines(contents: &str) -> (found: Vec<NumberedLine>)
    ensures
        are_lines(found@, numbered(text::line_list(contents@))),
{
    let all: Vec<Vec<char>> = text::lines(&text::characters(contents));
    let ghost expected = text::line_list(contents@);
    let mut found: Vec<NumberedLine> = Vec::new();
    let mut next: usize = 0;
    assert(expected.take(0) =~= Seq::empty());
    while next < all.len()
        invariant
            next <= all@.len(),
            text::views(all@) == expected,
            are_lines(found@, numbered(expected.take(next as int))),
        decreases all@.len() - next,
    {
        let ghost before = found@;
        assert(expected.take(next + 1).drop_last() =~= expected.take(next as int));
        assert(expected.take(next + 1).last() == expected[next as int]);
        assert(expected[next as int] == all@[next as int]@);
        let trimmed: Vec<char> = text::trim(&all[next]);
        if trimmed.len() > 0 {
            found.push(NumberedLine { number: next + 1, text: text::text_of(&all[next]) });
        }
        next += 1;
    }
    assert(expected.take(expected.len() as int) =~= expected);
    found
}

/// A line of the record file with the launch it holds, or why it holds none.
#[derive(Debug, PartialEq, Eq)]
pub struct DecodedLine {
    pub number: usize,
    pub record: Result<StartRecord, String>,
}

/// What reading the record file came to.
#[derive(Debug, PartialEq, Eq)]
pub enum LaunchLog {
    Absent,
    Unreadable(String),
    Lines(Vec<DecodedLine>),
}

/// Lines that hold no launch that is understood.
pub open spec fn spoilt() -> spec_fn(DecodedLine) -> bool {
    |line: DecodedLine|
        match line.record {
            Ok(record) => record.version != RECORD_VERSION,
            Err(_) => true,
        }
}

/// What is said of such a line.
pub open spec fn complaint(line: DecodedLine, path: Seq<char>) -> Seq<char> {
    let place = "line "@ + text::decimal(line.number as nat) + " of "@ + path;
    match line.record {
        Ok(record) => place + " is a launch record of version "@ + text::decimal(
            record.version as nat,
        ) + " and this build understands version "@ + text::decimal(1),
        Err(why) => place + " is not a launch record this tool wrote: "@ + why@,
    }
}

/// The launches in lines that hold one each.
pub open spec fn records_in(lines: Seq<DecodedLine>) -> Seq<StartRecord> {
    Seq::new(lines.len(), |i: int| lines[i].record->Ok_0)
}

/// The last few of a list.
pub open spec fn tail<T>(items: Seq<T>, most: int) -> Seq<T> {
    if items.len() <= most {
        items
    } else {
        items.skip(items.len() - most)
    }
}

/// Whether this is the history that the record file tells.
pub open spec fn is_history(told: History, path: Seq<char>, log: LaunchLog) -> bool {
    match log {
        LaunchLog::Absent => told is NothingRecorded,
        LaunchLog::Unreadable(why) => told == History::Unreadable(why),
        LaunchLog::Lines(lines) => match order::first_where(lines@, spoilt()) {
            Some(at) => told matches History::Unreadable(why) && why@ == complaint(lines@[at], path),
            None => if lines@.len() == 0 {
                told is NothingRecorded
            } else {
                told matches History::Recorded { launches, recent } && launches == lines@.len()
                    && recent@ == tail(records_in(lines@), RECENT_LAUNCHES - 1)
            },
        },
    }
}

/// The history that the record file tells: unreadable at the first line that is not understood, and
/// otherwise every launch counted and the last few kept.
pub fn history(store: &StateStore, log: LaunchLog) -> (told: History)
    requires
        log matches LaunchLog::Lines(lines) ==> lines@.len() < u64::MAX,
    ensures
        is_history(told, text::child(store.works_in().state@, STARTS_FILE@), log),
        told.countable(),
{
    let lines: Vec<DecodedLine> = match log {
        LaunchLog::Absent => {
            return History::NothingRecorded;
        },
        LaunchLog::Unreadable(why) => {
            return History::Unreadable(why);
        },
        LaunchLog::Lines(lines) => lines,
    };
    let ghost all = lines@;
    let ghost path = text::child(store.works_in().state@, STARTS_FILE@);
    let mut records: Vec<StartRecord> = Vec::new();
    for line in walk: lines
        invariant
            walk.seq() == all,
            log == LaunchLog::Lines(lines),
            lines@ == all,
            path == text::child(store.works_in().state@, STARTS_FILE@),
            records@.len() == walk.index(),
            forall|i: int| 0 <= i < walk.index() ==> !#[trigger] spoilt()(all[i]),
            forall|i: int|
                0 <= i < walk.index() ==> #[trigger] records@[i] == all[i].record->Ok_0,
    {
        let ghost at = walk.index();
        assert(line == all[at]);
        match line.record {
            Ok(record) => {
                if record.version != RECORD_VERSION {
                    proof {
                        order::lemma_is_first(all, spoilt(), at);
                    }
                    return History::Unreadable(
                        String::from_str("line ").concat(
                            text::count_of(line.number).as_str(),
                        ).concat(" of ").concat(self::path(store).as_str()).concat(
                            " is a launch record of version ",
                        ).concat(text::decimal_of(record.version as u128).as_str()).concat(
                            " and this build understands version ",
                        ).concat(text::decimal_of(1).as_str()),
                    );
                }
                records.push(record);
            },
            Err(why) => {
                proof {
                    order::lemma_is_first(all, spoilt(), at);
                }
                return History::Unreadable(
                    String::from_str("line ").concat(text::count_of(line.number).as_str()).concat(
                        " of ",
                    ).concat(self::path(store).as_str()).concat(
                        " is not a launch record this tool wrote: ",
                    ).concat(why.as_str()),
                );
            },
        }
    }
    proof {
        order::lemma_is_nowhere(all, spoilt());
    }
    let count: usize = records.len();
    if count == 0 {
        return History::NothingRecorded;
    }
    assert(records@ =~= records_in(all));
    let kept: usize = RECENT_LAUNCHES - 1;
    let recent: Vec<StartRecord> = if count <= kept {
        records
    } else {
        let ghost whole = records@;
        let recent: Vec<StartRecord> = records.split_off(count - kept);
        assert(recent@ =~= whole.skip(count - kept));
        recent
    };
    History::Recorded { launches: count as u64, recent }
}

/// Where the record of launches is.
pub fn path(store: &StateStore) -> (path: String)
    ensures
        path@ == text::child(store.works_in().state@, STARTS_FILE@),
{
    store.file(STARTS_FILE)
}

/// A launch that is put on record is counted once, and is the last one on record.
pub proof fn law_a_recorded_launch_is_counted(
    path: Seq<char>,
    before: Vec<DecodedLine>,
    after: Vec<DecodedLine>,
    earlier: History,
    later: History,
    record: StartRecord,
    number: usize,
)
    requires
        record.version == RECORD_VERSION,
        after@ == before@.push(DecodedLine { number, record: Ok(record) }),
        is_history(earlier, path, LaunchLog::Lines(before)),
        is_history(later, path, LaunchLog::Lines(after)),
        !(earlier is Unreadable),
    ensures
        later matches History::Recorded { launches, recent } && launches == earlier.count()->Ok_0 + 1
            && recent@.len() > 0 && recent@.last() == record && recent@ == tail(
            earlier.lately().push(record),
            RECENT_LAUNCHES - 1,
        ),
{
    order::lemma_first_where(before@, spoilt());
    order::lemma_first_where(after@, spoilt());
    let line = DecodedLine { number, record: Ok::<StartRecord, String>(record) };
    assert forall|i: int| 0 <= i < after@.len() implies !#[trigger] spoilt()(after@[i]) by {
        if i < before@.len() {
            assert(after@[i] == before@[i]);
            assert(!spoilt()(before@[i]));
        } else {
            assert(after@[i] == line);
        }
    }
    assert(order::first_where(after@, spoilt()) is None);
    assert(records_in(after@) =~= records_in(before@).push(record));
    assert(tail(records_in(after@), RECENT_LAUNCHES - 1) =~= tail(
        earlier.lately().push(record),
        RECENT_LAUNCHES - 1,
    ));
}

// --- The decision ------------------------------------------------------------------------------

/// When the latest launch on record began, if its timestamp can be read.
pub open spec fn began(record: StartRecord) -> Option<int> {
    match isotime::instant(record.started_at@) {
        Some(seconds) => if i64::MIN <= seconds <= i64::MAX {
            Some(seconds)
        } else {
            None
        },
        None => None,
    }
}

/// Whether this is how long the run before a launch ran.
pub open spec fn is_uptime(uptime: Uptime, last: LastStateWrite, history: History) -> bool {
    if history.lately().len() == 0 {
        match history {
            History::Unreadable(why) => uptime matches Uptime::Unknown(said) && said@
                == "the launch record could not be read, so the previous run has no start to measure from: "@
                + why@,
            _ => uptime is NoPreviousLaunch,
        }
    } else {
        let previous = history.lately().last();
        match began(previous) {
            None => uptime matches Uptime::Unknown(said) && said@
                == "the previous launch is stamped "@ + text::quoted(previous.started_at@)
                + ", which is not a time this tool wrote ("@ + isotime::malformed(
                previous.started_at@,
            ) + "), so its run length cannot be computed"@,
            Some(seconds) => {
                let started = SystemTime { nanos: (seconds * 1_000_000_000) as i128 };
                match last {
                    LastStateWrite::Never => uptime matches Uptime::Unknown(said) && said@
                        == "a launch is on record but state.json is not there, so the previous run has no last write to measure to"@,
                    LastStateWrite::Unreadable(why) => uptime matches Uptime::Unknown(said) && said@
                        == "the previous run's last write could not be established: "@ + why@,
                    LastStateWrite::At(written) => match written.since(started) {
                        Some(ran) => uptime == Uptime::Ran(ran),
                        None => uptime matches Uptime::Unknown(said) && said@
                            == "the previous launch is stamped "@ + started.since(
                            written,
                        )->0.tenths()
                            + "s after the last state write, so its run length cannot be computed; this machine's clock appears to have gone backwards"@,
                    },
                }
            },
        }
    }
}

/// How long the run before a launch ran: from when it began to the last state write.
pub fn previous_uptime_from(last: &LastStateWrite, history: &History) -> (uptime: Uptime)
    ensures
        is_uptime(uptime, *last, *history),
{
    let previous: &StartRecord = match history.last() {
        Some(previous) => previous,
        None => {
            return match history {
                History::Unreadable(why) => Uptime::Unknown(
                    String::from_str(
                        "the launch record could not be read, so the previous run has no start to measure from: ",
                    ).concat(why.as_str()),
                ),
                History::NothingRecorded | History::Recorded { .. } => Uptime::NoPreviousLaunch,
            };
        },
    };
    let started: SystemTime = match isotime::checked_unix_seconds(previous.started_at.as_str()) {
        Ok(seconds) => isotime::time_from_unix_seconds(seconds),
        Err(why) => {
            return Uptime::Unknown(
                String::from_str("the previous launch is stamped ").concat(
                    text::quote(previous.started_at.as_str()).as_str(),
                ).concat(", which is not a time this tool wrote (").concat(why.as_str()).concat(
                    "), so its run length cannot be computed",
                ),
            );
        },
    };
    match last {
        LastStateWrite::Never => Uptime::Unknown(
            String::from_str(
                "a launch is on record but state.json is not there, so the previous run has no last write to measure to",
            ),
        ),
        LastStateWrite::Unreadable(why) => Uptime::Unknown(
            String::from_str("the previous run's last write could not be established: ").concat(
                why.as_str(),
            ),
        ),
        LastStateWrite::At(written) => match written.duration_since(started) {
            Some(ran) => Uptime::Ran(ran),
            None => {
                let ahead: Duration = match started.duration_since(*written) {
                    Some(ahead) => ahead,
                    None => Duration { nanos: 0 },
                };
                Uptime::Unknown(
                    String::from_str("the previous launch is stamped ").concat(
                        ahead.to_tenths().as_str(),
                    ).concat(
                        "s after the last state write, so its run length cannot be computed; this machine's clock appears to have gone backwards",
                    ),
                )
            },
        },
    }
}

/// Whether this is how the run before a launch ended.
pub open spec fn is_exit(
    exit: PreviousExit,
    predecessor: Option<Predecessor>,
    unreadable: Option<Seq<char>>,
    history: History,
    last: LastStateWrite,
) -> bool {
    match unreadable {
        Some(why) => exit matches PreviousExit::Unknown(said) && said@
            == "the previous holder's record in the state lock could not be read ("@ + why
            + "), so it is not known whether it released the lock or died holding it"@,
        None => match predecessor {
            Some(dead) => exit == (PreviousExit::Unclean {
                pid: dead.pid,
                still_running: dead.still_running,
            }),
            None => match history {
                History::Recorded { .. } => exit is Clean,
                History::Unreadable(why) => exit matches PreviousExit::Unknown(said) && said@
                    == "the state lock was released cleanly, but the launch record could not be read ("@
                    + why@ + "), so which run released it is not known"@,
                History::NothingRecorded => if last is Never {
                    exit is Absent
                } else {
                    exit matches PreviousExit::Unknown(said) && said@
                        == "no launch is on record in this state directory, yet state.json has been written here, so a monitor ran before this record file existed and its exit cannot be vouched for"@
                },
            },
        },
    }
}

/// How the run before a launch ended: what it left in the lock decides, and the record of launches
/// where it left nothing.
pub fn previous_exit_from(
    predecessor: Option<&Predecessor>,
    unreadable_lock_record: Option<&str>,
    history: &History,
    last: &LastStateWrite,
) -> (exit: PreviousExit)
    ensures
        is_exit(
            exit,
            match predecessor {
                Some(dead) => Some(*dead),
                None => None,
            },
            match unreadable_lock_record {
                Some(why) => Some(why@),
                None => None,
            },
            *history,
            *last,
        ),
{
    if let Some(why) = unreadable_lock_record {
        return PreviousExit::Unknown(
            String::from_str(
                "the previous holder's record in the state lock could not be read (",
            ).concat(why).concat(
                "), so it is not known whether it released the lock or died holding it",
            ),
        );
    }
    if let Some(dead) = predecessor {
        return PreviousExit::Unclean { pid: dead.pid, still_running: dead.still_running };
    }
    match history {
        History::Recorded { .. } => PreviousExit::Clean,
        History::Unreadable(why) => PreviousExit::Unknown(
            String::from_str(
                "the state lock was released cleanly, but the launch record could not be read (",
            ).concat(why.as_str()).concat("), so which run released it is not known"),
        ),
        History::NothingRecorded => match last {
            LastStateWrite::Never => PreviousExit::Absent,
            LastStateWrite::At(_) | LastStateWrite::Unreadable(_) => PreviousExit::Unknown(
                String::from_str(
                    "no launch is on record in this state directory, yet state.json has been written here, so a monitor ran before this record file existed and its exit cannot be vouched for",
                ),
            ),
        },
    }
}

/// A holder that died with its record in the lock is never said to have stopped cleanly, nor never to
/// have run.
pub proof fn law_a_dead_holder_was_unclean(
    exit: PreviousExit,
    dead: Predecessor,
    history: History,
    last: LastStateWrite,
)
    requires
        is_exit(exit, Some(dead), None, history, last),
    ensures
        exit.cleanness() == Some(false),
        exit.word() == "unclean"@,
        exit matches PreviousExit::Unclean { pid, .. } && pid == dead.pid,
{
}

/// How many of these launches followed a run that was too short.
pub open spec fn short_among(records: Seq<StartRecord>) -> nat
    decreases records.len(),
{
    if records.len() == 0 {
        0
    } else {
        short_among(records.drop_last()) + if records.last().previous_run_was_short == Some(true) {
            1nat
        } else {
            0nat
        }
    }
}

/// How many of these launches followed an unclean exit.
pub open spec fn unclean_among(records: Seq<StartRecord>) -> nat
    decreases records.len(),
{
    if records.len() == 0 {
        0
    } else {
        unclean_among(records.drop_last()) + if records.last().previous_exit@ == "unclean"@ {
            1nat
        } else {
            0nat
        }
    }
}

fn count_short(records: &Vec<StartRecord>) -> (count: usize)
    ensures
        count == short_among(records@),
        count <= records@.len(),
{
    let mut count: usize = 0;
    let mut next: usize = 0;
    assert(records@.take(0) =~= Seq::empty());
    while next < records.len()
        invariant
            next <= records@.len(),
            count <= next,
            count == short_among(records@.take(next as int)),
        decreases records@.len() - next,
    {
        assert(records@.take(next + 1).drop_last() =~= records@.take(next as int));
        let short: bool = match records[next].previous_run_was_short {
            Some(short) => short,
            None => false,
        };
        if short {
            count += 1;
        }
        next += 1;
    }
    assert(records@.take(records@.len() as int) =~= records@);
    count
}

fn count_unclean(records: &Vec<StartRecord>) -> (count: usize)
    ensures
        count == unclean_among(records@),
        count <= records@.len(),
{
    let mut count: usize = 0;
    let mut next: usize = 0;
    assert(records@.take(0) =~= Seq::empty());
    while next < records.len()
        invariant
            next <= records@.len(),
            count <= next,
            count == unclean_among(records@.take(next as int)),
        decreases records@.len() - next,
    {
        assert(records@.take(next + 1).drop_last() =~= records@.take(next as int));
        if text::same(records[next].previous_exit.as_str(), "unclean") {
            count += 1;
        }
        next += 1;
    }
    assert(records@.take(records@.len() as int) =~= records@);
    count
}

/// How one more launch is numbered, or why it is not.
pub open spec fn one_more(recorded: Result<u64, Seq<char>>) -> Result<u64, Seq<char>> {
    match recorded {
        Ok(launches) => Ok((launches + 1) as u64),
        Err(why) => Err(
            "the launches already on record could not be counted, so this one cannot be numbered: "@
                + why,
        ),
    }
}

fn added_one(history: &History) -> (numbered: Measured<u64>)
    requires
        history.countable(),
    ensures
        numbered.says(one_more(history.count())),
{
    let recorded: Measured<u64> = history.launches();
    match (recorded.value, recorded.unavailable) {
        (Some(launches), _) => Measured::known(launches + 1),
        (None, Some(why)) => Measured::unavailable(
            String::from_str(
                "the launches already on record could not be counted, so this one cannot be numbered: ",
            ).concat(why.as_str()),
        ),
        (None, None) => Measured::unavailable(
            String::from_str(
                "the launches on record are neither a count nor a reason, which is a bug in the launch record",
            ),
        ),
    }
}

/// What is said of a monitor that keeps being restarted.
pub open spec fn cycling_words(short: nat, considered: nat, unclean: nat) -> Seq<char> {
    text::decimal(short) + " of the last "@ + text::decimal(considered)
        + " launches followed a run shorter than "@ + text::decimal(shortest_run().secs())
        + "s, which is less than one slow-tier interval: this monitor is being restarted, not running. "@
        + text::decimal(unclean) + " of those exits "@ + if unclean == 1 {
        "was"@
    } else {
        "were"@
    } + " unclean."@
}

/// Whether this is the record of a launch.
pub open spec fn is_decided(
    record: StartRecord,
    at: SystemTime,
    pid: u32,
    last: LastStateWrite,
    predecessor: Option<Predecessor>,
    unreadable: Option<Seq<char>>,
    history: History,
) -> bool {
    &&& record.version == RECORD_VERSION
    &&& isotime::is_stamp(record.started_at@, isotime::whole_seconds(at))
    &&& record.pid == pid
    &&& record.launches.says(one_more(history.count()))
    &&& exists|downtime: Downtime|
        #[trigger] is_downtime(downtime, at, last) && record.downtime_secs.says(downtime.figure())
    &&& exists|exit: PreviousExit|
        {
            &&& #[trigger] is_exit(exit, predecessor, unreadable, history, last)
            &&& record.previous_exit@ == exit.word()
            &&& record.previous_exit_why@ == exit.account()
            &&& record.unclean_exits == unclean_among(history.lately()) + if exit is Unclean {
                1int
            } else {
                0int
            }
        }
    &&& record.previous_pid == match predecessor {
        Some(dead) => Some(dead.pid),
        None => None,
    }
    &&& exists|uptime: Uptime|
        {
            &&& #[trigger] is_uptime(uptime, last, history)
            &&& record.previous_uptime_secs.says(uptime.figure())
            &&& record.previous_run_was_short == uptime.shortness()
        }
    &&& record.launches_considered == history.lately().len() + 1
    &&& record.short_runs == short_among(history.lately()) + if record.previous_run_was_short
        == Some(true) {
        1int
    } else {
        0int
    }
    &&& match record.cycling {
        Some(words) => record.short_runs >= CYCLING_THRESHOLD && words@ == cycling_words(
            record.short_runs as nat,
            record.launches_considered as nat,
            record.unclean_exits as nat,
        ),
        None => record.short_runs < CYCLING_THRESHOLD,
    }
}

/// The record of a launch.
pub fn decide(
    at: SystemTime,
    pid: u32,
    last_write: &LastStateWrite,
    predecessor: Option<&Predecessor>,
    unreadable_lock_record: Option<&str>,
    history: &History,
) -> (record: StartRecord)
    requires
        history.countable(),
    ensures
        is_decided(
            record,
            at,
            pid,
            *last_write,
            match predecessor {
                Some(dead) => Some(*dead),
                None => None,
            },
            match unreadable_lock_record {
                Some(why) => Some(why@),
                None => None,
            },
            *history,
        ),
{
    let downtime: Downtime = downtime_from(at, last_write);
    let exit: PreviousExit = previous_exit_from(
        predecessor,
        unreadable_lock_record,
        history,
        last_write,
    );
    let uptime: Uptime = previous_uptime_from(last_write, history);
    let previous_run_was_short: Option<bool> = uptime.was_short();
    let (earlier, mut short_runs, mut unclean_exits): (usize, usize, usize) = match history {
        History::Recorded { recent, .. } => (
            recent.len(),
            count_short(recent),
            count_unclean(recent),
        ),
        History::NothingRecorded | History::Unreadable(_) => (0, 0, 0),
    };
    let launches_considered: usize = earlier + 1;
    if let Some(short) = previous_run_was_short {
        if short {
            short_runs += 1;
        }
    }
    if let PreviousExit::Unclean { .. } = exit {
        unclean_exits += 1;
    }
    let cycling: Option<String> = if short_runs >= CYCLING_THRESHOLD {
        Some(
            text::count_of(short_runs).concat(" of the last ").concat(
                text::count_of(launches_considered).as_str(),
            ).concat(" launches followed a run shorter than ").concat(
                text::decimal_of(short_run().as_secs()).as_str(),
            ).concat(
                "s, which is less than one slow-tier interval: this monitor is being restarted, not running. ",
            ).concat(text::count_of(unclean_exits).as_str()).concat(" of those exits ").concat(
                if unclean_exits == 1 {
                    "was"
                } else {
                    "were"
                },
            ).concat(" unclean."),
        )
    } else {
        None
    };
    let previous_pid: Option<u32> = match predecessor {
        Some(dead) => Some(dead.pid),
        None => None,
    };
    StartRecord {
        version: RECORD_VERSION,
        started_at: isotime::timestamp(at),
        pid,
        launches: added_one(history),
        downtime_secs: downtime.seconds(),
        previous_exit: String::from_str(exit.label()),
        previous_exit_why: exit.describe(),
        previous_pid,
        previous_uptime_secs: uptime.seconds(),
        previous_run_was_short,
        launches_considered,
        short_runs,
        unclean_exits,
        cycling,
    }
}

/// A launch where nothing has ever run and nothing is recorded.
pub fn first_launch(at: SystemTime, pid: u32) -> (launch: Launch)
    ensures
        is_decided(
            launch.record,
            at,
            pid,
            LastStateWrite::Never,
            None,
            None,
            History::NothingRecorded,
        ),
        launch.not_recorded is None,
{
    Launch {
        record: decide(
            at,
            pid,
            &LastStateWrite::Never,
            None,
            None,
            &History::NothingRecorded,
        ),
        not_recorded: None,
    }
}

/// A first launch is the first, follows nothing, and is not part of a pattern.
pub proof fn law_a_first_launch_follows_nothing(record: StartRecord, at: SystemTime, pid: u32)
    requires
        is_decided(
            record,
            at,
            pid,
            LastStateWrite::Never,
            None,
            None,
            History::NothingRecorded,
        ),
    ensures
        record.launches.value == Some(1u64),
        record.downtime_secs.value is None,
        record.previous_exit@ == "absent"@,
        record.previous_run_was_short is None,
        record.cycling is None,
{
}

} // verus!
