//! One collection: what is running, what it works on, what is at risk, and who has to hear of it.

use crate::deliver::DeliveryReport;
use crate::detect::Detector;
use crate::liveness::{Method, Thresholds, Verdict};
use crate::memory;
use crate::memory::{
    Degraded, Forgotten, Memory, MemoryRead, Reading, RememberedWorkspace, StateFile,
};
use crate::notify;
use crate::notify::{Announcement, AnnouncementRecord, NotifiedFile, NotifiedRead, Rebuilt};
use crate::text;
use crate::time::{Duration, SystemTime};
use crate::vcs::{Unreadable, VcsFacts, WorkspaceState};
use crate::world::{
    ActivityUnavailable, CodexSession, DetectorConfig, LoadAverage, NamespaceResolution,
    NamespaceUnmatched,
    NotifyConfig, ProcessRecord, ProcessSnapshot, Resources, ResourcesUnavailable, Sweep, Workspace,
    WorkspaceUnknown, WorldError,
};
use self::attribution::AttributionSources;
use self::sessions::Evidence;
use vstd::prelude::*;

pub mod attribution;
pub mod sessions;
pub mod settle;
pub mod workspaces;

verus! {

// --- What a collection reports -----------------------------------------------------------------

/// What makes a session the one it is.
#[derive(Debug, PartialEq, Eq)]
pub enum Identity {
    /// A process that is there.
    Process { pid: i32 },
    /// A transcript whose process is gone.
    Transcript { recorded_as: String },
}

impl Clone for Identity {
    fn clone(&self) -> (copy: Identity)
        ensures
            copy == *self,
    {
        match self {
            Identity::Process { pid } => Identity::Process { pid: *pid },
            Identity::Transcript { recorded_as } => Identity::Transcript {
                recorded_as: recorded_as.clone(),
            },
        }
    }
}

/// One agent session.
#[derive(Debug, PartialEq, Eq)]
pub struct Session {
    pub identity: Identity,
    /// The id of the detector that recognised it.
    pub cli: String,
    pub resources: Result<Resources, ResourcesUnavailable>,
    /// The last reading an earlier run took, where this run could take none.
    pub last_reading: Option<Reading>,
    pub workspace: Result<Workspace, WorkspaceUnknown>,
    pub liveness: Verdict,
}

/// Why a session's state could not be determined.
#[derive(Debug, PartialEq, Eq)]
pub enum LivenessUnknown {
    NoTranscriptStore { cli: String },
    ActivityUnreadable { why: String },
    WorkspaceUnknown { why: String },
    SnapshotUntrustworthy,
    TooSoonToTell,
}

impl LivenessUnknown {
    /// Whether no later run will fare better.
    pub fn is_structural(&self) -> (structural: bool)
        ensures
            structural == (*self is NoTranscriptStore),
    {
        match self {
            LivenessUnknown::NoTranscriptStore { .. } => true,
            _ => false,
        }
    }

    /// The reason in words.
    pub open spec fn words(self) -> Seq<char> {
        match self {
            LivenessUnknown::NoTranscriptStore { cli } => "no transcript store is known for CLI "@
                + cli@ + ", so its silence cannot be measured"@,
            LivenessUnknown::ActivityUnreadable { why } =>
                "its transcript's activity could not be established: "@ + why@,
            LivenessUnknown::WorkspaceUnknown { why } => "its workspace is unknown ("@ + why@
                + "), so no transcript can be attributed to it"@,
            LivenessUnknown::SnapshotUntrustworthy =>
                "the process enumeration was incomplete, so its absence is not evidence"@,
            LivenessUnknown::TooSoonToTell =>
                "it has been silent with no resident process, but not for long enough to call it stalled"@,
        }
    }

    /// The reason in words.
    pub fn to_text(&self) -> (words: String)
        ensures
            words@ == self.words(),
    {
        match self {
            LivenessUnknown::NoTranscriptStore { cli } => String::from_str(
                "no transcript store is known for CLI ",
            ).concat(cli.as_str()).concat(", so its silence cannot be measured"),
            LivenessUnknown::ActivityUnreadable { why } => String::from_str(
                "its transcript's activity could not be established: ",
            ).concat(why.as_str()),
            LivenessUnknown::WorkspaceUnknown { why } => String::from_str(
                "its workspace is unknown (",
            ).concat(why.as_str()).concat("), so no transcript can be attributed to it"),
            LivenessUnknown::SnapshotUntrustworthy => String::from_str(
                "the process enumeration was incomplete, so its absence is not evidence",
            ),
            LivenessUnknown::TooSoonToTell => String::from_str(
                "it has been silent with no resident process, but not for long enough to call it stalled",
            ),
        }
    }
}

impl Session {
    /// What is unknown about a session's liveness, as its kind and its words: nothing where its state
    /// was determined.
    pub open spec fn doubt(self) -> Option<(bool, Seq<char>)> {
        match self.liveness.method {
            Method::TranscriptActivityUnknown => Some(
                match self.workspace {
                    Err(why) => (
                        false,
                        "its workspace is unknown ("@ + why.words()
                            + "), so no transcript can be attributed to it"@,
                    ),
                    Ok(workspace) => match workspace.namespace {
                        Err(NamespaceUnmatched::UnknownCli(cli)) => (
                            true,
                            "no transcript store is known for CLI "@ + cli@
                                + ", so its silence cannot be measured"@,
                        ),
                        Err(why) => (
                            false,
                            "its transcript's activity could not be established: "@ + why.words(),
                        ),
                        Ok(namespace) => (
                            false,
                            "its transcript's activity could not be established: "@ + (
                            "the last activity of "@ + namespace@ + " could not be read"@),
                        ),
                    },
                },
            ),
            Method::SnapshotCannotEstablishAbsence => Some(
                (false, LivenessUnknown::SnapshotUntrustworthy.words()),
            ),
            Method::ProcessAbsentBeforeStallThreshold => Some(
                (false, LivenessUnknown::TooSoonToTell.words()),
            ),
            _ => None,
        }
    }

    /// Why the session's state could not be determined, and `None` where it was.
    pub fn liveness_unknown(&self) -> (why: Option<LivenessUnknown>)
        ensures
            match why {
                Some(found) => self.doubt() == Some((found is NoTranscriptStore, found.words())),
                None => self.doubt() is None,
            },
    {
        match self.liveness.method {
            Method::TranscriptActivityUnknown => Some(
                match &self.workspace {
                    Err(why) => LivenessUnknown::WorkspaceUnknown { why: why.to_text() },
                    Ok(workspace) => match &workspace.namespace {
                        Err(NamespaceUnmatched::UnknownCli(cli)) => {
                            LivenessUnknown::NoTranscriptStore { cli: cli.clone() }
                        },
                        Err(why) => LivenessUnknown::ActivityUnreadable { why: why.to_text() },
                        Ok(namespace) => LivenessUnknown::ActivityUnreadable {
                            why: String::from_str("the last activity of ").concat(
                                namespace.as_str(),
                            ).concat(" could not be read"),
                        },
                    },
                },
            ),
            Method::SnapshotCannotEstablishAbsence => Some(LivenessUnknown::SnapshotUntrustworthy),
            Method::ProcessAbsentBeforeStallThreshold => Some(LivenessUnknown::TooSoonToTell),
            Method::TranscriptChangedRecently
            | Method::ProcessResidentButSilent
            | Method::WorkRunningInWorkspace
            | Method::NoProcessAndSilencePastStall => None,
        }
    }
}

/// One workspace, and what is known of it.
#[derive(Debug, PartialEq, Eq)]
pub struct WorkspaceReport {
    pub path: String,
    pub state: WorkspaceState,
    pub linked_worktree: bool,
    pub uncommitted_entries: Option<usize>,
}

/// Whether what a run had to store was stored.
#[derive(Debug, PartialEq, Eq)]
pub enum Persistence {
    Stored,
    Failed(String),
    /// The run was never going to store anything.
    NotAttempted { because: String },
}

impl Clone for Persistence {
    fn clone(&self) -> (copy: Persistence)
        ensures
            copy == *self,
    {
        match self {
            Persistence::Stored => Persistence::Stored,
            Persistence::Failed(why) => Persistence::Failed(why.clone()),
            Persistence::NotAttempted { because } => Persistence::NotAttempted {
                because: because.clone(),
            },
        }
    }
}

/// What came of announcing.
#[derive(Debug, PartialEq, Eq)]
pub struct NotifyHealth {
    pub config: NotifyConfig,
    /// How many conditions there were to announce.
    pub notable: usize,
    pub local_delivered: usize,
    pub local_failed: usize,
    pub local_not_attempted: usize,
    pub remote_delivered: usize,
    pub remote_failed: usize,
    pub remote_not_attempted: usize,
    /// Why the first alert that was not attempted was not.
    pub not_attempted_reason: Option<String>,
    pub delivery_cost: Duration,
    /// Why this run announces nothing at all, where it does not.
    pub read_only: Option<String>,
}

impl NotifyHealth {
    /// Whether there was nothing to announce, and nowhere to announce it.
    pub open spec fn is_quiet(self) -> bool {
        &&& !self.config.reaches_anyone()
        &&& self.config.unusable is None
        &&& self.notable == 0
        &&& self.local_delivered == 0
        &&& self.local_failed == 0
        &&& self.local_not_attempted == 0
        &&& self.remote_delivered == 0
        &&& self.remote_failed == 0
        &&& self.remote_not_attempted == 0
        &&& self.not_attempted_reason is None
        &&& self.delivery_cost == (Duration { nanos: 0 })
        &&& self.read_only is None
    }

    /// Nothing to announce, nowhere to announce it.
    pub fn none() -> (health: NotifyHealth)
        ensures
            health.is_quiet(),
    {
        NotifyHealth {
            config: NotifyConfig::none(),
            notable: 0,
            local_delivered: 0,
            local_failed: 0,
            local_not_attempted: 0,
            remote_delivered: 0,
            remote_failed: 0,
            remote_not_attempted: 0,
            not_attempted_reason: None,
            delivery_cost: Duration { nanos: 0 },
            read_only: None,
        }
    }

    /// Whether a channel was given an alert and failed with it.
    pub fn has_failures(&self) -> (any: bool)
        ensures
            any == (self.local_failed > 0 || self.remote_failed > 0),
    {
        self.local_failed > 0 || self.remote_failed > 0
    }

    /// How many alerts were never offered to a channel.
    pub fn not_attempted(&self) -> (total: usize)
        requires
            self.local_not_attempted + self.remote_not_attempted <= usize::MAX,
        ensures
            total == self.local_not_attempted + self.remote_not_attempted,
    {
        self.local_not_attempted + self.remote_not_attempted
    }

    /// Whether any alert was never offered to a channel.
    pub fn has_unattempted(&self) -> (any: bool)
        ensures
            any == (self.local_not_attempted + self.remote_not_attempted > 0),
    {
        self.local_not_attempted > 0 || self.remote_not_attempted > 0
    }
}

/// What became of the record of announcements.
#[derive(Debug, PartialEq, Eq)]
pub struct Notified {
    /// Why the run began with an empty record, where it did.
    pub rebuilt: Option<Rebuilt>,
    /// The record that the run leaves behind.
    pub record: AnnouncementRecord,
    pub persisted: Persistence,
}

/// What a run carried over, and what it leaves behind.
#[derive(Debug, PartialEq, Eq)]
pub struct Remembered {
    pub memory: Memory,
    /// Why the run began without a history, where it did.
    pub unusable: Option<Degraded>,
    pub persisted: Persistence,
    pub forgotten: Vec<Forgotten>,
    pub retention: Duration,
    pub notify_health: NotifyHealth,
    pub detector_config: DetectorConfig,
    pub notified: Notified,
}

impl Remembered {
    /// Nothing carried over and nothing wrong, with the detectors that come with the tool.
    pub fn none(embedded: Vec<Detector>) -> (remembered: Remembered)
        ensures
            memory::blank(remembered.memory),
            remembered.unusable is None,
            remembered.persisted == Persistence::Stored,
            remembered.forgotten@.len() == 0,
            remembered.retention == memory::forget_by_default(),
            remembered.notify_health.is_quiet(),
            remembered.detector_config.detectors == embedded,
            remembered.detector_config.unusable is None,
            remembered.notified.rebuilt is None,
            notify::unwritten(remembered.notified.record),
            remembered.notified.persisted == Persistence::Stored,
    {
        Remembered {
            memory: Memory::empty(),
            unusable: None,
            persisted: Persistence::Stored,
            forgotten: Vec::new(),
            retention: memory::default_forget(),
            notify_health: NotifyHealth::none(),
            detector_config: DetectorConfig::embedded_only(embedded),
            notified: Notified {
                rebuilt: None,
                record: AnnouncementRecord::empty(),
                persisted: Persistence::Stored,
            },
        }
    }
}

/// Everything one collection found.
#[derive(Debug, PartialEq, Eq)]
pub struct Snapshot {
    pub taken_at: SystemTime,
    pub sessions: Vec<Session>,
    pub workspaces: Vec<WorkspaceReport>,
    /// Recorded names behind which no one directory was found.
    pub unlocated: Vec<(String, NamespaceResolution)>,
    pub sweep_complete: bool,
    pub remembered: Remembered,
}

/// Why there is no snapshot.
#[derive(Debug, PartialEq, Eq)]
pub enum CollectError {
    World(WorldError),
    /// Whoever looked is not in what it saw, so what else is missing cannot be told.
    UntrustworthySnapshot { observer_pid: i32 },
}

impl CollectError {
    /// The error in words.
    pub open spec fn words(self) -> Seq<char> {
        match self {
            CollectError::World(why) => why.words(),
            CollectError::UntrustworthySnapshot { observer_pid } =>
                "process snapshot incomplete (observer "@ + text::signed_decimal(
                observer_pid as int,
            ) + " not in its own result)"@,
        }
    }

    /// The error in words.
    pub fn to_text(&self) -> (words: String)
        ensures
            words@ == self.words(),
    {
        match self {
            CollectError::World(why) => why.to_text(),
            CollectError::UntrustworthySnapshot { observer_pid } => String::from_str(
                "process snapshot incomplete (observer ",
            ).concat(text::signed_decimal_of(*observer_pid as i64).as_str()).concat(
                " not in its own result)",
            ),
        }
    }
}

// --- Collecting --------------------------------------------------------------------------------

/// One question to the machine, and the answer.
pub enum Exchange {
    Processes(Result<ProcessSnapshot, WorldError>),
    Stored(MemoryRead),
    Recorded(NotifiedRead),
    Detectors(DetectorConfig),
    FilingCli(String),
    Names(Result<Vec<String>, WorldError>),
    Codex(Result<Vec<CodexSession>, WorldError>),
    Activity(Seq<char>, Result<SystemTime, ActivityUnavailable>),
    Resolution(Seq<char>, NamespaceResolution),
    Ledger(i32, Result<Resources, ResourcesUnavailable>),
    Root(Seq<char>, Option<(String, bool)>),
    Swept(Seq<String>, Sweep),
    Facts(Seq<String>, Seq<Result<VcsFacts, Unreadable>>),
    Channels(NotifyConfig),
    Local(Seq<char>, Seq<Seq<char>>, DeliveryReport),
    Remote(Seq<char>, Seq<Seq<char>>, DeliveryReport),
    Noted(NotifiedFile, Result<(), String>),
    Wrote(StateFile, Result<(), String>),
    Load(Result<LoadAverage, String>),
    Clock(Duration),
}

/// Questions and answers, in order.
pub type Log = Seq<Exchange>;

/// The machine, as far as a collection asks it anything. Nothing is promised of its answers.
pub trait World: Sized {
    /// Everything that was asked so far, with the answers. It is there for proofs and is never run.
    spec fn log(&self) -> Log;

    /// Whether this is what an earlier state may have become by being asked. What that means is an
    /// implementation's own business; asking never makes it untrue. It is there for proofs and is never
    /// run.
    spec fn grew_from(&self, begun: &Self) -> bool;

    /// Every process there is, read in one moment.
    fn process_snapshot(&mut self) -> (answer: Result<ProcessSnapshot, WorldError>)
        ensures
            final(self).log() == old(self).log().push(Exchange::Processes(answer)),
            forall|begun: Self| #[trigger]
                old(self).grew_from(&begun) ==> final(self).grew_from(&begun),
    ;

    /// What earlier runs stored.
    fn read_state(&mut self) -> (answer: MemoryRead)
        ensures
            final(self).log() == old(self).log().push(Exchange::Stored(answer)),
            forall|begun: Self| #[trigger]
                old(self).grew_from(&begun) ==> final(self).grew_from(&begun),
    ;

    /// What earlier runs announced.
    fn read_notified(&mut self) -> (answer: NotifiedRead)
        ensures
            final(self).log() == old(self).log().push(Exchange::Recorded(answer)),
            forall|begun: Self| #[trigger]
                old(self).grew_from(&begun) ==> final(self).grew_from(&begun),
    ;

    /// How agents are recognised.
    fn read_detector_config(&mut self) -> (answer: DetectorConfig)
        ensures
            final(self).log() == old(self).log().push(Exchange::Detectors(answer)),
            forall|begun: Self| #[trigger]
                old(self).grew_from(&begun) ==> final(self).grew_from(&begun),
    ;

    /// The CLI whose transcripts are filed by directory.
    fn filing_cli(&mut self) -> (answer: String)
        ensures
            final(self).log() == old(self).log().push(Exchange::FilingCli(answer)),
            forall|begun: Self| #[trigger]
                old(self).grew_from(&begun) ==> final(self).grew_from(&begun),
    ;

    /// The names that its transcripts are recorded under.
    fn recorded_namespaces(&mut self) -> (answer: Result<Vec<String>, WorldError>)
        ensures
            final(self).log() == old(self).log().push(Exchange::Names(answer)),
            forall|begun: Self| #[trigger]
                old(self).grew_from(&begun) ==> final(self).grew_from(&begun),
    ;

    /// The sessions of Codex's index that were active recently.
    fn codex_sessions(&mut self) -> (answer: Result<Vec<CodexSession>, WorldError>)
        ensures
            final(self).log() == old(self).log().push(Exchange::Codex(answer)),
            forall|begun: Self| #[trigger]
                old(self).grew_from(&begun) ==> final(self).grew_from(&begun),
    ;

    /// When the transcript of a recorded name last changed.
    fn namespace_activity(&mut self, namespace: &str) -> (answer: Result<
        SystemTime,
        ActivityUnavailable,
    >)
        ensures
            final(self).log() == old(self).log().push(Exchange::Activity(namespace@, answer)),
            forall|begun: Self| #[trigger]
                old(self).grew_from(&begun) ==> final(self).grew_from(&begun),
    ;

    /// The directory behind a recorded name.
    fn resolve_namespace(&mut self, namespace: &str) -> (answer: NamespaceResolution)
        ensures
            final(self).log() == old(self).log().push(Exchange::Resolution(namespace@, answer)),
            forall|begun: Self| #[trigger]
                old(self).grew_from(&begun) ==> final(self).grew_from(&begun),
    ;

    /// What a process has used.
    fn resources(&mut self, pid: i32) -> (answer: Result<Resources, ResourcesUnavailable>)
        ensures
            final(self).log() == old(self).log().push(Exchange::Ledger(pid, answer)),
            forall|begun: Self| #[trigger]
                old(self).grew_from(&begun) ==> final(self).grew_from(&begun),
    ;

    /// The repository a path lies in, and whether that is a linked worktree.
    fn repository_root(&mut self, path: &str) -> (answer: Option<(String, bool)>)
        ensures
            final(self).log() == old(self).log().push(Exchange::Root(path@, answer)),
            forall|begun: Self| #[trigger]
                old(self).grew_from(&begun) ==> final(self).grew_from(&begun),
    ;

    /// The repositories below some directories, as far as a bounded search finds them.
    fn sweep_for_repositories(&mut self, roots: &Vec<String>) -> (answer: Sweep)
        ensures
            final(self).log() == old(self).log().push(Exchange::Swept(roots@, answer)),
            forall|begun: Self| #[trigger]
                old(self).grew_from(&begun) ==> final(self).grew_from(&begun),
    ;

    /// What version control says of several workspaces, in their order.
    fn vcs_facts_batch(&mut self, paths: &Vec<String>) -> (answer: Vec<
        Result<VcsFacts, Unreadable>,
    >)
        ensures
            final(self).log() == old(self).log().push(Exchange::Facts(paths@, answer@)),
            forall|begun: Self| #[trigger]
                old(self).grew_from(&begun) ==> final(self).grew_from(&begun),
    ;

    /// Where alerts go.
    fn read_notify_config(&mut self) -> (answer: NotifyConfig)
        ensures
            final(self).log() == old(self).log().push(Exchange::Channels(answer)),
            forall|begun: Self| #[trigger]
                old(self).grew_from(&begun) ==> final(self).grew_from(&begun),
    ;

    /// Hands alerts to a local command.
    fn notify_local_batch(&mut self, command: &str, payloads: &Vec<String>) -> (answer:
        DeliveryReport)
        ensures
            final(self).log() == old(self).log().push(
                Exchange::Local(command@, text::texts(payloads@), answer),
            ),
            forall|begun: Self| #[trigger]
                old(self).grew_from(&begun) ==> final(self).grew_from(&begun),
    ;

    /// Hands alerts to a remote service.
    fn notify_remote_batch(&mut self, url: &str, payloads: &Vec<String>) -> (answer:
        DeliveryReport)
        ensures
            final(self).log() == old(self).log().push(
                Exchange::Remote(url@, text::texts(payloads@), answer),
            ),
            forall|begun: Self| #[trigger]
                old(self).grew_from(&begun) ==> final(self).grew_from(&begun),
    ;

    /// Stores what the next run need not announce again.
    fn write_notified(&mut self, file: &NotifiedFile) -> (answer: Result<(), String>)
        ensures
            final(self).log() == old(self).log().push(Exchange::Noted(*file, answer)),
            forall|begun: Self| #[trigger]
                old(self).grew_from(&begun) ==> final(self).grew_from(&begun),
    ;

    /// Stores what the next run begins with.
    fn write_state(&mut self, file: &StateFile) -> (answer: Result<(), String>)
        ensures
            final(self).log() == old(self).log().push(Exchange::Wrote(*file, answer)),
            forall|begun: Self| #[trigger]
                old(self).grew_from(&begun) ==> final(self).grew_from(&begun),
    ;

    /// How loaded the machine is.
    fn load_average(&mut self) -> (answer: Result<LoadAverage, String>)
        ensures
            final(self).log() == old(self).log().push(Exchange::Load(answer)),
            forall|begun: Self| #[trigger]
                old(self).grew_from(&begun) ==> final(self).grew_from(&begun),
    ;

    /// What a clock shows that is never set. Only the span between two readings means anything.
    fn clock(&mut self) -> (answer: Duration)
        ensures
            final(self).log() == old(self).log().push(Exchange::Clock(answer)),
            forall|begun: Self| #[trigger]
                old(self).grew_from(&begun) ==> final(self).grew_from(&begun),
    ;
}

/// Who is collecting.
#[derive(Debug, Clone, Copy, PartialEq, Eq, Structural)]
pub enum Role {
    /// The monitor, which announces and stores.
    Monitor,
    /// A display, which does neither.
    Display,
}

/// Why a display neither announces nor stores.
pub open spec fn read_only_words() -> Seq<char> {
    "this display is read-only"@
}

/// What a repository question gave for a path: the repository, or the path itself where it lies in
/// none.
pub open spec fn home_of(path: String, root: Option<(String, bool)>) -> (String, bool) {
    match root {
        Some(found) => found,
        None => (path, false),
    }
}

/// The homes of several paths.
pub open spec fn homes_of(paths: Seq<String>, roots: Seq<Option<(String, bool)>>) -> Seq<
    (String, bool),
> {
    Seq::new(paths.len(), |i: int| home_of(paths[i], roots[i]))
}

/// The paths of remembered workspaces.
pub open spec fn remembered_paths(known: Seq<RememberedWorkspace>) -> Seq<String> {
    known.map_values(|one: RememberedWorkspace| one.path)
}

/// Everywhere a workspace may be, once what a search found and what is remembered is added, each
/// place once.
pub open spec fn all_candidates(
    sessions: Seq<Session>,
    evidence: Evidence,
    sweep: Sweep,
    known: Seq<RememberedWorkspace>,
) -> Seq<String> {
    workspaces::distinct(
        workspaces::candidates(sessions, evidence) + workspaces::home_paths(sweep.repositories@)
            + remembered_paths(known),
    )
}

/// What the machine answered in one collection.
pub struct Answers {
    pub observation: ProcessSnapshot,
    pub detectors: DetectorConfig,
    pub evidence: Evidence,
    pub stored: MemoryRead,
    /// What the run began with.
    pub previous: Memory,
    pub recorded: NotifiedRead,
    /// What had been announced when the run began.
    pub told: AnnouncementRecord,
    /// The repository each path lies in that sessions and evidence name.
    pub first_roots: Seq<Option<(String, bool)>>,
    /// The directories that were searched for more.
    pub searched: Seq<String>,
    pub sweep: Sweep,
    /// The repository each candidate lies in.
    pub roots: Seq<Option<(String, bool)>>,
    /// What version control said of each workspace.
    pub facts: Seq<Result<VcsFacts, Unreadable>>,
    pub config: NotifyConfig,
    pub local: Option<DeliveryReport>,
    pub remote: Option<DeliveryReport>,
    pub announcements: Seq<Announcement>,
    /// The workspaces asked about, in the order of their paths.
    pub homes: Seq<(String, bool)>,
    /// What came of storing the record of announcements, where that was asked for.
    pub noted: Option<Result<(), String>>,
    /// What came of storing what is remembered, where that was asked for.
    pub written: Option<Result<(), String>>,
}

/// The questions about recorded names.
pub open spec fn names_asked(
    names: Seq<String>,
    activities: Seq<Result<SystemTime, ActivityUnavailable>>,
    resolutions: Seq<NamespaceResolution>,
) -> Seq<Exchange>
    decreases names.len(),
{
    if names.len() == 0 {
        Seq::empty()
    } else {
        let last = names.len() - 1;
        names_asked(names.drop_last(), activities, resolutions).push(
            Exchange::Activity(names[last]@, activities[last]),
        ).push(Exchange::Resolution(names[last]@, resolutions[last]))
    }
}

/// The questions about what agents have used.
pub open spec fn ledgers_asked(
    agents: Seq<(usize, String)>,
    records: Seq<ProcessRecord>,
    ledgers: Seq<Result<Resources, ResourcesUnavailable>>,
) -> Seq<Exchange>
    decreases agents.len(),
{
    if agents.len() == 0 {
        Seq::empty()
    } else {
        let last = agents.len() - 1;
        ledgers_asked(agents.drop_last(), records, ledgers).push(
            Exchange::Ledger(records[agents[last].0 as int].pid, ledgers[last]),
        )
    }
}

/// The questions about which repositories paths lie in.
pub open spec fn roots_asked(
    paths: Seq<String>,
    roots: Seq<Option<(String, bool)>>,
) -> Seq<Exchange>
    decreases paths.len(),
{
    if paths.len() == 0 {
        Seq::empty()
    } else {
        let last = paths.len() - 1;
        roots_asked(paths.drop_last(), roots).push(Exchange::Root(paths[last]@, roots[last]))
    }
}

/// The questions that sessions are made from.
pub open spec fn evidence_asked(evidence: Evidence) -> Seq<Exchange> {
    seq![
        Exchange::Names(evidence.sources.filed_namespaces),
        Exchange::Codex(evidence.sources.codex_sessions),
        Exchange::FilingCli(evidence.sources.filing_cli),
    ] + names_asked(
        evidence.sources.names(),
        evidence.activities@,
        evidence.resolutions@,
    ) + ledgers_asked(evidence.agents@, evidence.records@, evidence.ledgers@)
}

/// What the alerts say.
pub open spec fn words_of(announcements: Seq<Announcement>) -> Seq<Seq<char>> {
    announcements.map_values(|one: Announcement| one@.words())
}

/// What was asked of the channels.
pub open spec fn given_to_channels(
    config: NotifyConfig,
    announcements: Seq<Announcement>,
    local: Option<DeliveryReport>,
    remote: Option<DeliveryReport>,
) -> Seq<Exchange> {
    (match (config.local_command, local) {
        (Some(command), Some(report)) => seq![
            Exchange::Local(command@, words_of(announcements), report),
        ],
        _ => Seq::empty(),
    }) + (match (config.remote_url, remote) {
        (Some(url), Some(report)) => seq![
            Exchange::Remote(url@, words_of(announcements), report),
        ],
        _ => Seq::empty(),
    })
}

/// Everything that a collection asks, in order.
pub open spec fn conversation(snapshot: Snapshot, answers: Answers) -> Seq<Exchange> {
    seq![
        Exchange::Processes(Ok(answers.observation)),
        Exchange::Stored(answers.stored),
        Exchange::Recorded(answers.recorded),
        Exchange::Detectors(answers.detectors),
    ] + evidence_asked(answers.evidence) + roots_asked(
        workspaces::candidates(snapshot.sessions@, answers.evidence),
        answers.first_roots,
    ) + seq![Exchange::Swept(answers.searched, answers.sweep)] + roots_asked(
        all_candidates(
            snapshot.sessions@,
            answers.evidence,
            answers.sweep,
            answers.previous.workspaces@,
        ),
        answers.roots,
    ) + seq![
        Exchange::Facts(workspaces::home_paths(answers.homes), answers.facts),
        Exchange::Channels(answers.config),
    ] + given_to_channels(
        answers.config,
        answers.announcements,
        answers.local,
        answers.remote,
    ) + (match answers.noted {
        Some(came) => seq![
            Exchange::Noted(
                NotifiedFile {
                    version: notify::NOTIFIED_SCHEMA_VERSION,
                    record: snapshot.remembered.notified.record,
                },
                came,
            ),
        ],
        None => Seq::empty(),
    }) + match answers.written {
        Some(came) => seq![
            Exchange::Wrote(
                StateFile {
                    version: memory::SCHEMA_VERSION,
                    memory: snapshot.remembered.memory,
                },
                came,
            ),
        ],
        None => Seq::empty(),
    }
}

/// Whether what is remembered at the end is what a run saw laid over what it began with, without what
/// has been settled too long.
pub open spec fn is_left_behind(
    memory: Memory,
    forgotten: Seq<Forgotten>,
    answers: Answers,
    sessions: Seq<Session>,
    now: SystemTime,
    thresholds: Thresholds,
) -> bool {
    let seen = memory::with_unseen(
        memory::all_sighted(
            workspaces::sightings(answers.homes, answers.facts, sessions),
            answers.previous.workspaces@,
            now,
        ),
        answers.previous.workspaces@,
    );
    &&& memory.workspaces@ == memory::still_known(seen, now, thresholds.forget)
    &&& forgotten == memory::let_go(seen, now, thresholds.forget)
    &&& memory.sessions@ == memory::sessions_seen(sessions, answers.previous.sessions@, now)
}

/// Whether the record that a run leaves behind holds what it found worth announcing, without what
/// nobody heard of.
pub open spec fn is_record_left(
    record: AnnouncementRecord,
    answers: Answers,
    sessions: Seq<Session>,
    reports: Seq<WorkspaceReport>,
) -> bool {
    &&& record.sessions@ == settle::sessions_heard(
        notify::sessions_told(sessions),
        answers.announcements,
        answers.local,
        answers.remote,
    )
    &&& record.workspaces@ == settle::workspaces_heard(
        notify::workspaces_told(reports),
        answers.announcements,
        answers.local,
        answers.remote,
    )
}

/// Whether this is what became of something that was to be stored: a display stores nothing, and says
/// why.
pub open spec fn is_fate(
    persisted: Persistence,
    came: Option<Result<(), String>>,
    role: Role,
) -> bool {
    match role {
        Role::Monitor => came is Some && persisted == match came->0 {
            Ok(_) => Persistence::Stored,
            Err(why) => Persistence::Failed(why),
        },
        Role::Display => came is None && (persisted matches Persistence::NotAttempted { because }
            && because@ == read_only_words()),
    }
}

/// Whether a snapshot is what the machine's answers come to.
pub open spec fn is_snapshot(
    snapshot: Snapshot,
    answers: Answers,
    now: SystemTime,
    thresholds: Thresholds,
    role: Role,
) -> bool {
    let found = snapshot.sessions@;
    let places = all_candidates(
        found,
        answers.evidence,
        answers.sweep,
        answers.previous.workspaces@,
    );
    let told = answers.told;
    &&& snapshot.taken_at == now
    &&& answers.observation.sees_itself()
    &&& answers.evidence.wf()
    &&& answers.evidence.records == answers.observation.records
    &&& answers.evidence.detectors == answers.detectors.detectors
    &&& memory::is_recalled(answers.stored, (answers.previous, snapshot.remembered.unusable))
    &&& notify::is_recalled(answers.recorded, (answers.told, snapshot.remembered.notified.rebuilt))
    &&& sessions::are_sessions(found, answers.evidence, answers.previous, now, thresholds)
    &&& answers.first_roots.len() == workspaces::candidates(found, answers.evidence).len()
    &&& workspaces::are_sweep_roots(answers.searched, answers.first_roots)
    &&& answers.roots.len() == places.len()
    &&& workspaces::are_workspaces(answers.homes, homes_of(places, answers.roots))
    &&& workspaces::homes_apart(answers.homes)
    &&& snapshot.workspaces@ == workspaces::reports(answers.homes, answers.facts, found)
    &&& snapshot.unlocated@ == workspaces::unlocated(
        answers.evidence.sources.names(),
        answers.evidence.resolutions@,
    )
    &&& snapshot.sweep_complete == answers.sweep.complete
    &&& notify::notices(answers.announcements) == notify::session_notices(
        found,
        told.sessions@,
    ) + notify::workspace_notices(snapshot.workspaces@, told.workspaces@)
    &&& answers.local is Some <==> answers.config.local_command is Some && is_asking(
        role,
        answers.announcements.len(),
    )
    &&& answers.remote is Some <==> answers.config.remote_url is Some && is_asking(
        role,
        answers.announcements.len(),
    )
    &&& is_left_behind(
        snapshot.remembered.memory,
        snapshot.remembered.forgotten@,
        answers,
        found,
        now,
        thresholds,
    )
    &&& is_record_left(
        snapshot.remembered.notified.record,
        answers,
        found,
        snapshot.workspaces@,
    )
    &&& is_record_left(
        snapshot.remembered.memory.announcements,
        answers,
        found,
        snapshot.workspaces@,
    )
    &&& snapshot.remembered.retention == thresholds.forget
    &&& snapshot.remembered.notify_health.config == answers.config
    &&& settle::is_health(
        snapshot.remembered.notify_health,
        answers.announcements.len(),
        answers.local,
        answers.remote,
    )
    &&& snapshot.remembered.detector_config == answers.detectors
    &&& is_fate(snapshot.remembered.persisted, answers.written, role)
    &&& is_fate(snapshot.remembered.notified.persisted, answers.noted, role)
    &&& match role {
        Role::Monitor => snapshot.remembered.notify_health.read_only is None,
        Role::Display => snapshot.remembered.notify_health.read_only matches Some(because)
            && because@ == read_only_words(),
    }
}

/// Whether this is what a collection came to, and what it asked: a snapshot of the answers; or an error,
/// where the processes could not be enumerated or whoever looked is not among them, and then nothing else
/// was asked.
pub open spec fn is_outcome(
    result: Result<Snapshot, CollectError>,
    asked: Seq<Exchange>,
    now: SystemTime,
    thresholds: Thresholds,
    role: Role,
) -> bool {
    match result {
        Ok(snapshot) => exists|answers: Answers| #[trigger]
            is_snapshot(snapshot, answers, now, thresholds, role) && asked == conversation(
                snapshot,
                answers,
            ),
        Err(CollectError::World(why)) => asked == seq![Exchange::Processes(Err(why))],
        Err(CollectError::UntrustworthySnapshot { observer_pid }) => exists|seen: ProcessSnapshot|
            !(#[trigger] seen.sees_itself()) && seen.observer_pid == observer_pid && asked
                == seq![Exchange::Processes(Ok(seen))],
    }
}

/// Whether one log goes on where another ended, with these exchanges.
pub open spec fn goes_on(before: Seq<Exchange>, after: Seq<Exchange>, asked: Seq<Exchange>) -> bool {
    after == before + asked
}

/// Whether this was asked between two readings of the clock.
pub open spec fn is_timed(
    before: Seq<Exchange>,
    after: Seq<Exchange>,
    begun: Duration,
    asked: Seq<Exchange>,
    ended: Duration,
) -> bool {
    after == before.push(Exchange::Clock(begun)) + asked.push(Exchange::Clock(ended))
}

/// Asks for everything sessions are made from.
fn gather<W: World>(
    world: &mut W,
    records: Vec<ProcessRecord>,
    detectors: Vec<Detector>,
) -> (evidence: Evidence)
    ensures
        evidence.wf(),
        evidence.records == records,
        evidence.detectors == detectors,
        final(world).log() == old(world).log() + evidence_asked(evidence),
        forall|begun: W| #[trigger]
            old(world).grew_from(&begun) ==> final(world).grew_from(&begun),
{
    let ghost begun = world.log();
    let ghost first_state = *world;
    let filed_namespaces: Result<Vec<String>, WorldError> = world.recorded_namespaces();
    let codex_sessions: Result<Vec<CodexSession>, WorldError> = world.codex_sessions();
    let filing_cli: String = world.filing_cli();
    let sources = AttributionSources { filing_cli, filed_namespaces, codex_sessions };
    let ghost opening = seq![
        Exchange::Names(sources.filed_namespaces),
        Exchange::Codex(sources.codex_sessions),
        Exchange::FilingCli(sources.filing_cli),
    ];
    assert(world.log() =~= begun + opening);
    let agents: Vec<(usize, String)> = attribution::recognise(&records, &detectors);
    let (activities, resolutions) = ask_names(world, &sources);
    let ghost second = names_asked(sources.names(), activities@, resolutions@);
    let mut ledgers: Vec<Result<Resources, ResourcesUnavailable>> = Vec::new();
    let mut next: usize = 0;
    let ghost told = world.log();
    assert(agents@.take(0) =~= Seq::empty());
    assert(told + Seq::<Exchange>::empty() =~= told);
    while next < agents.len()
        invariant
            next <= agents@.len(),
            ledgers@.len() == next,
            forall|i: int| 0 <= i < agents@.len() ==> (#[trigger] agents@[i]).0 < records@.len(),
            world.log() == told + ledgers_asked(agents@.take(next as int), records@, ledgers@),
            forall|begun: W| #[trigger]
                first_state.grew_from(&begun) ==> world.grew_from(&begun),
        decreases agents@.len() - next,
    {
        let ghost known = ledgers@;
        assert(agents@[next as int].0 < records@.len());
        ledgers.push(world.resources(records[agents[next].0].pid));
        proof {
            assert(agents@.take(next + 1).drop_last() =~= agents@.take(next as int));
            lemma_ledgers_of_prefix(agents@.take(next as int), records@, known, ledgers@);
        }
        next += 1;
        assert(world.log() =~= told + ledgers_asked(
            agents@.take(next as int),
            records@,
            ledgers@,
        ));
    }
    assert(agents@.take(agents@.len() as int) =~= agents@);
    let evidence = Evidence {
        records,
        detectors,
        sources,
        agents,
        ledgers,
        activities,
        resolutions,
    };
    assert(world.log() =~= begun + evidence_asked(evidence));
    evidence
}

proof fn lemma_ledgers_of_prefix(
    agents: Seq<(usize, String)>,
    records: Seq<ProcessRecord>,
    some: Seq<Result<Resources, ResourcesUnavailable>>,
    more: Seq<Result<Resources, ResourcesUnavailable>>,
)
    requires
        agents.len() <= some.len() <= more.len(),
        forall|i: int| 0 <= i < some.len() ==> some[i] == more[i],
    ensures
        ledgers_asked(agents, records, some) == ledgers_asked(agents, records, more),
    decreases agents.len(),
{
    if agents.len() > 0 {
        lemma_ledgers_of_prefix(agents.drop_last(), records, some, more);
    }
}

proof fn lemma_names_of_prefix(
    names: Seq<String>,
    activities: Seq<Result<SystemTime, ActivityUnavailable>>,
    more_activities: Seq<Result<SystemTime, ActivityUnavailable>>,
    resolutions: Seq<NamespaceResolution>,
    more_resolutions: Seq<NamespaceResolution>,
)
    requires
        names.len() <= activities.len() <= more_activities.len(),
        names.len() <= resolutions.len() <= more_resolutions.len(),
        forall|i: int| 0 <= i < activities.len() ==> activities[i] == more_activities[i],
        forall|i: int| 0 <= i < resolutions.len() ==> resolutions[i] == more_resolutions[i],
    ensures
        names_asked(names, activities, resolutions) == names_asked(
            names,
            more_activities,
            more_resolutions,
        ),
    decreases names.len(),
{
    if names.len() > 0 {
        lemma_names_of_prefix(
            names.drop_last(),
            activities,
            more_activities,
            resolutions,
            more_resolutions,
        );
    }
}

/// Asks when the transcript of each recorded name changed, and what is behind the name.
fn ask_names<W: World>(world: &mut W, sources: &AttributionSources) -> (answers: (
    Vec<Result<SystemTime, ActivityUnavailable>>,
    Vec<NamespaceResolution>,
))
    ensures
        answers.0@.len() == sources.names().len(),
        answers.1@.len() == sources.names().len(),
        final(world).log() == old(world).log() + names_asked(
            sources.names(),
            answers.0@,
            answers.1@,
        ),
        forall|begun: W| #[trigger]
            old(world).grew_from(&begun) ==> final(world).grew_from(&begun),
{
    let ghost told = world.log();
    let ghost first_state = *world;
    let mut activities: Vec<Result<SystemTime, ActivityUnavailable>> = Vec::new();
    let mut resolutions: Vec<NamespaceResolution> = Vec::new();
    assert(told + Seq::<Exchange>::empty() =~= told);
    if let Ok(names) = &sources.filed_namespaces {
        let mut next: usize = 0;
        assert(names@.take(0) =~= Seq::empty());
        while next < names.len()
            invariant
                next <= names@.len(),
                activities@.len() == next,
                resolutions@.len() == next,
                world.log() == told + names_asked(
                    names@.take(next as int),
                    activities@,
                    resolutions@,
                ),
                forall|begun: W| #[trigger]
                    first_state.grew_from(&begun) ==> world.grew_from(&begun),
            decreases names@.len() - next,
        {
            let ghost (known, found) = (activities@, resolutions@);
            activities.push(world.namespace_activity(names[next].as_str()));
            resolutions.push(world.resolve_namespace(names[next].as_str()));
            proof {
                assert(names@.take(next + 1).drop_last() =~= names@.take(next as int));
                lemma_names_of_prefix(
                    names@.take(next as int),
                    known,
                    activities@,
                    found,
                    resolutions@,
                );
            }
            next += 1;
            assert(world.log() =~= told + names_asked(
                names@.take(next as int),
                activities@,
                resolutions@,
            ));
        }
        assert(names@.take(names@.len() as int) =~= names@);
    }
    (activities, resolutions)
}

proof fn lemma_roots_of_prefix(
    paths: Seq<String>,
    some: Seq<Option<(String, bool)>>,
    more: Seq<Option<(String, bool)>>,
)
    requires
        paths.len() <= some.len() <= more.len(),
        forall|i: int| 0 <= i < some.len() ==> some[i] == more[i],
    ensures
        roots_asked(paths, some) == roots_asked(paths, more),
    decreases paths.len(),
{
    if paths.len() > 0 {
        lemma_roots_of_prefix(paths.drop_last(), some, more);
    }
}

/// Asks which repository each path lies in.
fn ask_roots<W: World>(world: &mut W, paths: &Vec<String>) -> (roots: Vec<Option<(String, bool)>>)
    ensures
        roots@.len() == paths@.len(),
        final(world).log() == old(world).log() + roots_asked(paths@, roots@),
        forall|begun: W| #[trigger]
            old(world).grew_from(&begun) ==> final(world).grew_from(&begun),
{
    let ghost told = world.log();
    let ghost first_state = *world;
    let mut roots: Vec<Option<(String, bool)>> = Vec::new();
    let mut next: usize = 0;
    assert(paths@.take(0) =~= Seq::empty());
    assert(told + Seq::<Exchange>::empty() =~= told);
    while next < paths.len()
        invariant
            next <= paths@.len(),
            roots@.len() == next,
            world.log() == told + roots_asked(paths@.take(next as int), roots@),
            forall|begun: W| #[trigger]
                first_state.grew_from(&begun) ==> world.grew_from(&begun),
        decreases paths@.len() - next,
    {
        let ghost known = roots@;
        roots.push(world.repository_root(paths[next].as_str()));
        proof {
            assert(paths@.take(next + 1).drop_last() =~= paths@.take(next as int));
            lemma_roots_of_prefix(paths@.take(next as int), known, roots@);
        }
        next += 1;
        assert(world.log() =~= told + roots_asked(paths@.take(next as int), roots@));
    }
    assert(paths@.take(paths@.len() as int) =~= paths@);
    roots
}

fn find_homes(paths: Vec<String>, roots: Vec<Option<(String, bool)>>) -> (homes: Vec<
    (String, bool),
>)
    requires
        roots@.len() == paths@.len(),
    ensures
        homes@ == homes_of(paths@, roots@),
{
    let ghost all = homes_of(paths@, roots@);
    let mut homes: Vec<(String, bool)> = Vec::new();
    let mut next: usize = 0;
    while next < paths.len()
        invariant
            next <= paths@.len(),
            roots@.len() == paths@.len(),
            all == homes_of(paths@, roots@),
            homes@ == all.take(next as int),
        decreases paths@.len() - next,
    {
        homes.push(
            match &roots[next] {
                Some(found) => (found.0.clone(), found.1),
                None => (paths[next].clone(), false),
            },
        );
        next += 1;
        assert(homes@ =~= all.take(next as int));
    }
    assert(homes@ =~= all);
    homes
}

/// Adds what a search found and what is remembered to where workspaces may be.
fn widen(paths: Vec<String>, sweep: &Sweep, known: &Vec<RememberedWorkspace>) -> (all: Vec<String>)
    ensures
        all@ == paths@ + workspaces::home_paths(sweep.repositories@) + remembered_paths(known@),
{
    let mut all: Vec<String> = paths;
    let ghost first = all@;
    let ghost found = workspaces::home_paths(sweep.repositories@);
    let mut next: usize = 0;
    while next < sweep.repositories.len()
        invariant
            next <= sweep.repositories@.len(),
            found == workspaces::home_paths(sweep.repositories@),
            all@ == first + found.take(next as int),
        decreases sweep.repositories@.len() - next,
    {
        all.push(sweep.repositories[next].0.clone());
        next += 1;
        assert(all@ =~= first + found.take(next as int));
    }
    assert(all@ =~= first + found);
    let ghost second = all@;
    let ghost remembered = remembered_paths(known@);
    let mut next: usize = 0;
    while next < known.len()
        invariant
            next <= known@.len(),
            remembered == remembered_paths(known@),
            all@ == second + remembered.take(next as int),
        decreases known@.len() - next,
    {
        all.push(known[next].path.clone());
        next += 1;
        assert(all@ =~= second + remembered.take(next as int));
    }
    assert(all@ =~= second + remembered);
    all
}

/// The words of several announcements.
fn payloads_of(announcements: &Vec<Announcement>) -> (payloads: Vec<String>)
    ensures
        text::texts(payloads@) == words_of(announcements@),
{
    let mut payloads: Vec<String> = Vec::new();
    let mut next: usize = 0;
    while next < announcements.len()
        invariant
            next <= announcements@.len(),
            payloads@.len() == next,
            forall|i: int|
                0 <= i < payloads@.len() ==> (#[trigger] payloads@[i])@
                    == announcements@[i]@.words(),
        decreases announcements@.len() - next,
    {
        payloads.push(announcements[next].payload());
        next += 1;
    }
    assert(text::texts(payloads@) =~= words_of(announcements@));
    payloads
}

/// Whether a channel that is there is asked.
pub open spec fn is_asking(role: Role, alerts: nat) -> bool {
    role == Role::Monitor && alerts > 0
}

/// Hands the alerts to the channels that there are; a display hands over nothing.
fn alert<W: World>(
    world: &mut W,
    config: &NotifyConfig,
    announcements: &Vec<Announcement>,
    role: Role,
) -> (reports: (Option<DeliveryReport>, Option<DeliveryReport>))
    ensures
        reports.0 is Some <==> config.local_command is Some && is_asking(
            role,
            announcements@.len(),
        ),
        reports.1 is Some <==> config.remote_url is Some && is_asking(role, announcements@.len()),
        final(world).log() == old(world).log() + given_to_channels(
            *config,
            announcements@,
            reports.0,
            reports.1,
        ),
        forall|begun: W| #[trigger]
            old(world).grew_from(&begun) ==> final(world).grew_from(&begun),
{
    let ghost told = world.log();
    let payloads: Vec<String> = payloads_of(announcements);
    assert(payloads@.len() == text::texts(payloads@).len());
    let asking: bool = match role {
        Role::Monitor => payloads.len() > 0,
        Role::Display => false,
    };
    let local: Option<DeliveryReport> = match &config.local_command {
        Some(command) => if asking {
            Some(world.notify_local_batch(command.as_str(), &payloads))
        } else {
            None
        },
        None => None,
    };
    let remote: Option<DeliveryReport> = match &config.remote_url {
        Some(url) => if asking {
            Some(world.notify_remote_batch(url.as_str(), &payloads))
        } else {
            None
        },
        None => None,
    };
    assert(world.log() =~= told + given_to_channels(*config, announcements@, local, remote));
    (local, remote)
}

fn paths_of(homes: &Vec<(String, bool)>) -> (paths: Vec<String>)
    ensures
        paths@ == workspaces::home_paths(homes@),
{
    let mut paths: Vec<String> = Vec::new();
    let mut next: usize = 0;
    while next < homes.len()
        invariant
            next <= homes@.len(),
            paths@ == workspaces::home_paths(homes@).take(next as int),
        decreases homes@.len() - next,
    {
        paths.push(homes[next].0.clone());
        next += 1;
        assert(paths@ =~= workspaces::home_paths(homes@).take(next as int));
    }
    assert(paths@ =~= workspaces::home_paths(homes@));
    paths
}

/// What became of something that was to be stored, and of what was never going to be.
fn fate_of(came: Option<Result<(), String>>) -> (persisted: Persistence)
    ensures
        is_fate(
            persisted,
            came,
            if came is Some {
                Role::Monitor
            } else {
                Role::Display
            },
        ),
{
    match came {
        Some(Ok(_)) => Persistence::Stored,
        Some(Err(why)) => Persistence::Failed(why),
        None => Persistence::NotAttempted {
            because: String::from_str("this display is read-only"),
        },
    }
}

/// Collects once. There is a snapshot unless the processes could not be enumerated or whoever looked
/// is not among them, and whatever the machine answered, the snapshot is what its answers come to. A
/// display asks no channel for anything and stores nothing.
pub fn collect_as<W: World>(
    world: &mut W,
    now: SystemTime,
    thresholds: &Thresholds,
    role: Role,
) -> (result: Result<Snapshot, CollectError>)
    ensures
        exists|asked: Seq<Exchange>| #[trigger]
            goes_on(old(world).log(), final(world).log(), asked) && is_outcome(
                result,
                asked,
                now,
                *thresholds,
                role,
            ),
        forall|begun: W| #[trigger]
            old(world).grew_from(&begun) ==> final(world).grew_from(&begun),
{
    let ghost begun_log = world.log();
    let observation: ProcessSnapshot = match world.process_snapshot() {
        Ok(observation) => observation,
        Err(why) => {
            let ghost asked = seq![Exchange::Processes(Err(why))];
            assert(world.log() =~= begun_log + asked);
            assert(goes_on(begun_log, world.log(), asked));
            return Err(CollectError::World(why));
        },
    };
    let ghost seen_processes = observation;
    if !observation.contains_observer() {
        let ghost asked = seq![Exchange::Processes(Ok(seen_processes))];
        assert(world.log() =~= begun_log + asked);
        assert(goes_on(begun_log, world.log(), asked));
        assert(!seen_processes.sees_itself());
        return Err(
            CollectError::UntrustworthySnapshot { observer_pid: observation.observer_pid },
        );
    }
    let stored: MemoryRead = world.read_state();
    let ghost read = stored;
    let (previous, unusable) = memory::recall(stored);
    let ghost begun = previous;
    let recorded: NotifiedRead = world.read_notified();
    let ghost read_record = recorded;
    let (told, rebuilt) = notify::recall(recorded);
    let recognising: DetectorConfig = world.read_detector_config();
    let ghost recognised_by = recognising;
    let DetectorConfig { detectors, unusable: detectors_unusable } = recognising;
    let ghost opening = seq![
        Exchange::Processes(Ok(seen_processes)),
        Exchange::Stored(read),
        Exchange::Recorded(read_record),
        Exchange::Detectors(recognised_by),
    ];
    assert(world.log() =~= begun_log + opening);
    let evidence: Evidence = gather(world, observation.records, detectors);
    let sessions: Vec<Session> = sessions::sessions_of(&evidence, &previous, now, thresholds);
    let candidates: Vec<String> = workspaces::candidate_paths(&sessions, &evidence);
    let roots: Vec<Option<(String, bool)>> = ask_roots(world, &candidates);
    let ghost first_roots = roots@;
    let ghost first_questions = roots_asked(candidates@, first_roots);
    let parents: Vec<String> = workspaces::sweep_roots(&roots);
    let sweep: Sweep = world.sweep_for_repositories(&parents);
    let places: Vec<String> = workspaces::unique_candidates(
        widen(candidates, &sweep, &previous.workspaces),
    );
    let roots: Vec<Option<(String, bool)>> = ask_roots(world, &places);
    let ghost place_roots = roots@;
    let ghost found_so_far = opening + evidence_asked(evidence) + first_questions + seq![
        Exchange::Swept(parents@, sweep),
    ] + roots_asked(places@, place_roots);
    assert(world.log() =~= begun_log + found_so_far);
    let homes: Vec<(String, bool)> = workspaces::unique_workspaces(find_homes(places, roots));
    let facts: Vec<Result<VcsFacts, Unreadable>> = world.vcs_facts_batch(&paths_of(&homes));
    let (reports, seen) = workspaces::workspace_reports(&homes, &facts, &sessions);
    let remembered: Memory = memory::remember(previous, &seen, &sessions, now);
    let (left, forgotten) = memory::forget(remembered, now, thresholds.forget);
    let Memory { workspaces: known, sessions: known_sessions, .. } = left;
    let config: NotifyConfig = world.read_notify_config();
    let ghost through = config;
    let ghost asked_of_disk = found_so_far + seq![
        Exchange::Facts(workspaces::home_paths(homes@), facts@),
        Exchange::Channels(config),
    ];
    assert(world.log() =~= begun_log + asked_of_disk);
    let (announcements, updated) = notify::decide(&sessions, &reports, &told);
    let (local, remote) = alert(world, &config, &announcements, role);
    let heard: AnnouncementRecord = settle::heard_of(updated, &announcements, &local, &remote);
    let read_only: Option<String> = match role {
        Role::Monitor => None,
        Role::Display => Some(String::from_str("this display is read-only")),
    };
    let health: NotifyHealth = settle::health_of(
        config,
        announcements.len(),
        &local,
        &remote,
        read_only,
    );
    let file: StateFile = memory::serialise(
        Memory { workspaces: known, sessions: known_sessions, announcements: heard.clone() },
    );
    let note: NotifiedFile = notify::serialise(heard);
    let (noted, written): (Option<Result<(), String>>, Option<Result<(), String>>) = match role {
        Role::Monitor => {
            let noted: Result<(), String> = world.write_notified(&note);
            (Some(noted), Some(world.write_state(&file)))
        },
        Role::Display => (None, None),
    };
    let ghost answers = Answers {
        observation: seen_processes,
        detectors: recognised_by,
        evidence,
        stored: read,
        previous: begun,
        recorded: read_record,
        told,
        first_roots,
        searched: parents@,
        sweep,
        roots: place_roots,
        facts: facts@,
        config: through,
        local,
        remote,
        announcements: announcements@,
        homes: homes@,
        noted,
        written,
    };
    let Evidence { detectors, sources, resolutions, .. } = evidence;
    let unlocated: Vec<(String, NamespaceResolution)> = match &sources.filed_namespaces {
        Ok(names) => workspaces::unlocated_names(names, resolutions),
        Err(_) => Vec::new(),
    };
    let notified = Notified { rebuilt, record: note.record, persisted: fate_of(noted) };
    let snapshot = Snapshot {
        taken_at: now,
        sessions,
        workspaces: reports,
        unlocated,
        sweep_complete: sweep.complete,
        remembered: Remembered {
            memory: file.memory,
            unusable,
            persisted: fate_of(written),
            forgotten,
            retention: thresholds.forget,
            notify_health: health,
            detector_config: DetectorConfig { detectors, unusable: detectors_unusable },
            notified,
        },
    };
    assert(is_snapshot(snapshot, answers, now, *thresholds, role));
    assert(world.log() =~= begun_log + conversation(snapshot, answers));
    assert(goes_on(begun_log, world.log(), conversation(snapshot, answers)));
    Ok(snapshot)
}

/// Collects once for the monitor.
pub fn collect<W: World>(world: &mut W, now: SystemTime, thresholds: &Thresholds) -> (result:
    Result<Snapshot, CollectError>)
    ensures
        exists|asked: Seq<Exchange>| #[trigger]
            goes_on(old(world).log(), final(world).log(), asked) && is_outcome(
                result,
                asked,
                now,
                *thresholds,
                Role::Monitor,
            ),
        forall|begun: W| #[trigger]
            old(world).grew_from(&begun) ==> final(world).grew_from(&begun),
{
    collect_as(world, now, thresholds, Role::Monitor)
}

// --- What holds of every collection --------------------------------------------------------------

proof fn lemma_reported_apart(
    snapshot: Snapshot,
    answers: Answers,
    now: SystemTime,
    thresholds: Thresholds,
    role: Role,
)
    requires
        is_snapshot(snapshot, answers, now, thresholds, role),
    ensures
        notify::paths_differ(snapshot.workspaces@),
{
    let reports = snapshot.workspaces@;
    assert forall|i: int, j: int| 0 <= i < j < reports.len() implies !text::same_but_case(
        (#[trigger] reports[i]).path@,
        (#[trigger] reports[j]).path@,
    ) by {
        assert(reports[i].path == answers.homes[i].0);
        assert(reports[j].path == answers.homes[j].0);
    }
}

/// Where every alert of one collection reached somebody, a later one that reads the record it left
/// announces none of those conditions that still hold. It is asked for nothing but that record, so a
/// restart between the two changes nothing, nor does the loss of everything else that was stored.
pub proof fn law_what_was_heard_is_not_announced_again(
    first: Snapshot,
    heard: Answers,
    second: Snapshot,
    answers: Answers,
    then: SystemTime,
    now: SystemTime,
    thresholds: Thresholds,
    role: Role,
)
    requires
        is_snapshot(first, heard, then, thresholds, role),
        is_snapshot(second, answers, now, thresholds, role),
        forall|i: int|
            0 <= i < heard.announcements.len() ==> #[trigger] settle::reached(
                heard.local,
                heard.remote,
                i,
            ),
        answers.recorded == NotifiedRead::Found(
            Ok(
                NotifiedFile {
                    version: notify::NOTIFIED_SCHEMA_VERSION,
                    record: first.remembered.notified.record,
                },
            ),
        ),
    ensures
        second.remembered.notified.rebuilt is None,
        forall|i: int, j: int|
            0 <= i < first.sessions@.len() && 0 <= j < second.sessions@.len()
                && is_same_condition(#[trigger] first.sessions@[i], #[trigger] second.sessions@[j])
                ==> notify::session_notice(second.sessions@[j], answers.told.sessions@) is None,
        forall|i: int, j: int|
            0 <= i < first.workspaces@.len() && 0 <= j < second.workspaces@.len()
                && is_same_risk(#[trigger] first.workspaces@[i], #[trigger] second.workspaces@[j])
                ==> notify::workspace_notice(second.workspaces@[j], answers.told.workspaces@)
                is None,
{
    let sessions = notify::sessions_told(first.sessions@);
    let reports = notify::workspaces_told(first.workspaces@);
    settle::lemma_what_all_heard_is_kept(
        sessions,
        reports,
        heard.announcements,
        heard.local,
        heard.remote,
    );
    assert forall|i: int, j: int|
        0 <= i < first.sessions@.len() && 0 <= j < second.sessions@.len() && is_same_condition(
            #[trigger] first.sessions@[i],
            #[trigger] second.sessions@[j],
        ) implies notify::session_notice(second.sessions@[j], answers.told.sessions@) is None by {
        if notify::notable_session(second.sessions@[j]) is Some && memory::recorded_name(
            second.sessions@[j],
        ) is Some {
            notify::lemma_every_waiting_session_is_told(first.sessions@, i);
        }
    }
    lemma_reported_apart(first, heard, then, thresholds, role);
    assert forall|i: int, j: int|
        0 <= i < first.workspaces@.len() && 0 <= j < second.workspaces@.len() && is_same_risk(
            #[trigger] first.workspaces@[i],
            #[trigger] second.workspaces@[j],
        ) implies notify::workspace_notice(
        second.workspaces@[j],
        answers.told.workspaces@,
    ) is None by {
        if notify::notable_workspace(second.workspaces@[j]) is Some {
            notify::lemma_every_risk_is_told(first.workspaces@, i);
            assert(notify::about_workspace(first.workspaces@[i].path@) =~= notify::about_workspace(
                second.workspaces@[j].path@,
            ));
        }
    }
}

/// Whether two collections found the same session in the same state.
pub open spec fn is_same_condition(then: Session, now: Session) -> bool {
    &&& then.cli@ == now.cli@
    &&& match (memory::recorded_name(then), memory::recorded_name(now)) {
        (Some(one), Some(other)) => one@ == other@,
        _ => false,
    }
    &&& then.liveness.state == now.liveness.state
}

/// Whether two collections found the same workspace, case aside, at the same risk.
pub open spec fn is_same_risk(then: WorkspaceReport, now: WorkspaceReport) -> bool {
    &&& text::same_but_case(then.path@, now.path@)
    &&& notify::notable_workspace(then) == notify::notable_workspace(now)
}

/// A collection that finds no record it can use suppresses nothing: it announces every workspace at
/// risk and every session that waits and can be named.
pub proof fn law_without_a_record_everything_is_announced(
    snapshot: Snapshot,
    answers: Answers,
    now: SystemTime,
    thresholds: Thresholds,
    role: Role,
)
    requires
        is_snapshot(snapshot, answers, now, thresholds, role),
        snapshot.remembered.notified.rebuilt is Some,
    ensures
        forall|i: int|
            0 <= i < snapshot.sessions@.len() && notify::notable_session(
                #[trigger] snapshot.sessions@[i],
            ) is Some && memory::recorded_name(snapshot.sessions@[i]) is Some ==> notify::session_notice(
                snapshot.sessions@[i],
                answers.told.sessions@,
            ) is Some,
        forall|i: int|
            0 <= i < snapshot.workspaces@.len() && (#[trigger] snapshot.workspaces@[i]).state.risky()
                ==> notify::workspace_notice(
                snapshot.workspaces@[i],
                answers.told.workspaces@,
            ) is Some,
{
}

/// A history that cannot be used does not cost the record of announcements, nor the other way round:
/// each is begun anew for a reason of its own.
pub proof fn law_history_and_record_fail_apart(
    snapshot: Snapshot,
    answers: Answers,
    now: SystemTime,
    thresholds: Thresholds,
    role: Role,
)
    requires
        is_snapshot(snapshot, answers, now, thresholds, role),
    ensures
        snapshot.remembered.notified.rebuilt is None <==> (answers.recorded matches NotifiedRead::Found(
            Ok(file),
        ) && file.version == notify::NOTIFIED_SCHEMA_VERSION),
        snapshot.remembered.notified.rebuilt is None ==> answers.told
            == answers.recorded->Found_0->Ok_0.record,
        snapshot.remembered.unusable is None <==> (answers.stored is Absent || (
        answers.stored matches MemoryRead::Found(Ok(file)) && file.version
            == memory::SCHEMA_VERSION)),
{
}

/// Whatever a collection reports at risk was either announced before in that state or is announced
/// by it.
pub proof fn law_no_risk_goes_unannounced(
    snapshot: Snapshot,
    answers: Answers,
    now: SystemTime,
    thresholds: Thresholds,
    role: Role,
    at: int,
)
    requires
        is_snapshot(snapshot, answers, now, thresholds, role),
        0 <= at < snapshot.workspaces@.len(),
        snapshot.workspaces@[at].state.risky(),
    ensures
        notify::told_of_workspace(
            answers.told.workspaces@,
            snapshot.workspaces@[at].path@,
        ) == notify::notable_workspace(snapshot.workspaces@[at]) || notify::notices(
            answers.announcements,
        ).contains(
            notify::workspace_notice(
                snapshot.workspaces@[at],
                answers.told.workspaces@,
            )->0,
        ),
{
    let told = answers.told.workspaces@;
    let report = snapshot.workspaces@[at];
    if notify::told_of_workspace(told, report.path@) != notify::notable_workspace(report) {
        let first = notify::session_notices(
            snapshot.sessions@,
            answers.told.sessions@,
        );
        let second = notify::workspace_notices(snapshot.workspaces@, told);
        lemma_notice_is_given(snapshot.workspaces@, told, at);
        let i = choose|i: int|
            0 <= i < second.len() && second[i] == notify::workspace_notice(report, told)->0;
        assert((first + second)[first.len() + i] == second[i]);
    }
}

proof fn lemma_notice_is_given(
    reports: Seq<WorkspaceReport>,
    told: Seq<(String, notify::AnnouncedWorkspaceState)>,
    at: int,
)
    requires
        0 <= at < reports.len(),
        notify::workspace_notice(reports[at], told) is Some,
    ensures
        notify::workspace_notices(reports, told).contains(
            notify::workspace_notice(reports[at], told)->0,
        ),
    decreases reports.len(),
{
    let before = notify::workspace_notices(reports.drop_last(), told);
    let after = notify::workspace_notices(reports, told);
    if at == reports.len() - 1 {
        assert(after[before.len() as int] == notify::workspace_notice(reports[at], told)->0);
    } else {
        lemma_notice_is_given(reports.drop_last(), told, at);
        assert(reports.drop_last()[at] == reports[at]);
        let i = choose|i: int|
            0 <= i < before.len() && before[i] == notify::workspace_notice(reports[at], told)->0;
        assert(after[i] == before[i]);
    }
}

/// Whether a question changes anything: whether it hands an alert to anybody, or stores anything.
pub open spec fn changes_something(exchange: Exchange) -> bool {
    exchange is Local || exchange is Remote || exchange is Noted || exchange is Wrote
}

/// A display changes nothing: of all that it asks, nothing alerts anybody and nothing is stored.
pub proof fn law_a_display_is_read_only(
    result: Result<Snapshot, CollectError>,
    asked: Seq<Exchange>,
    now: SystemTime,
    thresholds: Thresholds,
    at: int,
)
    requires
        is_outcome(result, asked, now, thresholds, Role::Display),
        0 <= at < asked.len(),
    ensures
        !changes_something(asked[at]),
        result matches Ok(snapshot) ==> {
            &&& snapshot.remembered.persisted is NotAttempted
            &&& snapshot.remembered.notified.persisted is NotAttempted
            &&& snapshot.remembered.notify_health.local_delivered == 0
            &&& snapshot.remembered.notify_health.remote_delivered == 0
        },
{
    if let Ok(snapshot) = result {
        let answers = choose|answers: Answers| #[trigger]
            is_snapshot(snapshot, answers, now, thresholds, Role::Display) && asked == conversation(
                snapshot,
                answers,
            );
        lemma_unasked_delivers_nothing(answers.announcements.len());
        let evidence = answers.evidence;
        lemma_names_change_nothing(
            evidence.sources.names(),
            evidence.activities@,
            evidence.resolutions@,
        );
        lemma_ledgers_change_nothing(evidence.agents@, evidence.records@, evidence.ledgers@);
        lemma_roots_change_nothing(
            workspaces::candidates(snapshot.sessions@, evidence),
            answers.first_roots,
        );
        lemma_roots_change_nothing(
            all_candidates(
                snapshot.sessions@,
                evidence,
                answers.sweep,
                answers.previous.workspaces@,
            ),
            answers.roots,
        );
    }
}

/// Whether none of some questions changes anything.
spec fn all_harmless(asked: Seq<Exchange>) -> bool {
    forall|i: int| 0 <= i < asked.len() ==> !changes_something(#[trigger] asked[i])
}

proof fn lemma_names_change_nothing(
    names: Seq<String>,
    activities: Seq<Result<SystemTime, ActivityUnavailable>>,
    resolutions: Seq<NamespaceResolution>,
)
    ensures
        all_harmless(names_asked(names, activities, resolutions)),
    decreases names.len(),
{
    if names.len() > 0 {
        lemma_names_change_nothing(names.drop_last(), activities, resolutions);
    }
}

proof fn lemma_ledgers_change_nothing(
    agents: Seq<(usize, String)>,
    records: Seq<ProcessRecord>,
    ledgers: Seq<Result<Resources, ResourcesUnavailable>>,
)
    ensures
        all_harmless(ledgers_asked(agents, records, ledgers)),
    decreases agents.len(),
{
    if agents.len() > 0 {
        lemma_ledgers_change_nothing(agents.drop_last(), records, ledgers);
    }
}

proof fn lemma_roots_change_nothing(paths: Seq<String>, roots: Seq<Option<(String, bool)>>)
    ensures
        all_harmless(roots_asked(paths, roots)),
    decreases paths.len(),
{
    if paths.len() > 0 {
        lemma_roots_change_nothing(paths.drop_last(), roots);
    }
}

proof fn lemma_unasked_delivers_nothing(alerts: nat)
    ensures
        settle::tally(None, alerts as int, settle::Fate::Delivered) == 0,
    decreases alerts,
{
    if alerts > 0 {
        lemma_unasked_delivers_nothing((alerts - 1) as nat);
    }
}

} // verus!
