//! What the machine answers when it is asked, as plain values.
//!
//! Asking is somebody else's business: `collect::World` names the questions. Here are the answers,
//! every one of which can also be a reason why there is none.

use crate::detect::Detector;
use crate::text;
use crate::time::{Duration, SystemTime};
use vstd::prelude::*;

verus! {

/// Who measured a process's resources.
#[derive(Debug, Clone, Copy, PartialEq, Eq, Structural)]
pub enum ResourceSource {
    /// The kernel's own ledger.
    Rusage,
    /// `ps`, which sees neither children nor peaks nor writes.
    Ps,
}

impl ResourceSource {
    /// What the reader is called.
    pub open spec fn word(self) -> Seq<char> {
        match self {
            ResourceSource::Rusage => "proc_pid_rusage"@,
            ResourceSource::Ps => "ps"@,
        }
    }

    /// What the reader is called.
    pub fn to_text(&self) -> (word: &'static str)
        ensures
            word@ == self.word(),
    {
        match self {
            ResourceSource::Rusage => "proc_pid_rusage",
            ResourceSource::Ps => "ps",
        }
    }
}

/// Why one figure of a measurement is missing.
#[derive(Debug, Clone, Copy, PartialEq, Eq, Structural)]
pub enum Unmeasured {
    NotReportedBy(ResourceSource),
}

impl Unmeasured {
    /// The reason, short enough for a column.
    pub open spec fn words(self) -> Seq<char> {
        match self {
            Unmeasured::NotReportedBy(ResourceSource::Ps) => "ps-blind"@,
            Unmeasured::NotReportedBy(ResourceSource::Rusage) => "no-ledger"@,
        }
    }

    /// The reason, short enough for a column.
    pub fn to_text(&self) -> (words: &'static str)
        ensures
            words@ == self.words(),
    {
        match self {
            Unmeasured::NotReportedBy(ResourceSource::Ps) => "ps-blind",
            Unmeasured::NotReportedBy(ResourceSource::Rusage) => "no-ledger",
        }
    }
}

/// What a process has used so far.
#[derive(Debug, Clone, Copy, PartialEq, Eq)]
pub struct Resources {
    pub source: ResourceSource,
    pub own_cpu: Result<Duration, Unmeasured>,
    pub children_cpu: Result<Duration, Unmeasured>,
    pub current_memory: Result<u64, Unmeasured>,
    pub peak_memory: Result<u64, Unmeasured>,
    pub bytes_written: Result<u64, Unmeasured>,
}

/// Why nothing at all is known of what a process has used.
#[derive(Debug, PartialEq, Eq)]
pub enum ResourcesUnavailable {
    ProcessExited,
    AllReadersFailed(String),
}

impl Clone for ResourcesUnavailable {
    fn clone(&self) -> (copy: ResourcesUnavailable)
        ensures
            copy == *self,
    {
        match self {
            ResourcesUnavailable::ProcessExited => ResourcesUnavailable::ProcessExited,
            ResourcesUnavailable::AllReadersFailed(why) => ResourcesUnavailable::AllReadersFailed(
                why.clone(),
            ),
        }
    }
}

impl ResourcesUnavailable {
    /// The reason, short enough for a column.
    pub open spec fn words(self) -> Seq<char> {
        match self {
            ResourcesUnavailable::ProcessExited => "exited"@,
            ResourcesUnavailable::AllReadersFailed(_) => "unread"@,
        }
    }

    /// The reason, short enough for a column.
    pub fn to_text(&self) -> (words: &'static str)
        ensures
            words@ == self.words(),
    {
        match self {
            ResourcesUnavailable::ProcessExited => "exited",
            ResourcesUnavailable::AllReadersFailed(_) => "unread",
        }
    }
}

/// Why a path of a process could not be read.
#[derive(Debug, Clone, Copy, PartialEq, Eq, Structural)]
pub enum PathUnavailable {
    PermissionDenied,
    ProcessExited,
}

/// Why a session's workspace is not known.
#[derive(Debug, Clone, Copy, PartialEq, Eq, Structural)]
pub enum WorkspaceUnknown {
    PermissionDenied,
    ProcessExited,
    Ambiguous { candidates: usize },
    WorkspaceGone,
    SearchIncomplete,
}

impl WorkspaceUnknown {
    /// A path that could not be read leaves the workspace unknown for the same reason.
    pub open spec fn because_of(why: PathUnavailable) -> WorkspaceUnknown {
        match why {
            PathUnavailable::PermissionDenied => WorkspaceUnknown::PermissionDenied,
            PathUnavailable::ProcessExited => WorkspaceUnknown::ProcessExited,
        }
    }

    /// A path that could not be read leaves the workspace unknown for the same reason.
    pub fn of(why: &PathUnavailable) -> (unknown: WorkspaceUnknown)
        ensures
            unknown == WorkspaceUnknown::because_of(*why),
    {
        match why {
            PathUnavailable::PermissionDenied => WorkspaceUnknown::PermissionDenied,
            PathUnavailable::ProcessExited => WorkspaceUnknown::ProcessExited,
        }
    }

    /// The reason, short enough for a column.
    pub open spec fn words(self) -> Seq<char> {
        match self {
            WorkspaceUnknown::PermissionDenied => "unknown: no-perm"@,
            WorkspaceUnknown::ProcessExited => "unknown: exited"@,
            WorkspaceUnknown::Ambiguous { candidates } => "ambiguous ("@ + text::decimal(
                candidates as nat,
            ) + ")"@,
            WorkspaceUnknown::WorkspaceGone => "gone"@,
            WorkspaceUnknown::SearchIncomplete => "search cut short"@,
        }
    }

    /// The reason, short enough for a column.
    pub fn to_text(&self) -> (words: String)
        ensures
            words@ == self.words(),
    {
        match self {
            WorkspaceUnknown::PermissionDenied => String::from_str("unknown: no-perm"),
            WorkspaceUnknown::ProcessExited => String::from_str("unknown: exited"),
            WorkspaceUnknown::Ambiguous { candidates } => String::from_str("ambiguous (").concat(
                text::count_of(*candidates).as_str(),
            ).concat(")"),
            WorkspaceUnknown::WorkspaceGone => String::from_str("gone"),
            WorkspaceUnknown::SearchIncomplete => String::from_str("search cut short"),
        }
    }
}

/// Why a workspace has no transcript to its name.
#[derive(Debug, PartialEq, Eq)]
pub enum NamespaceUnmatched {
    /// None is recorded under the name that the workspace maps to.
    NotRecorded { mapped: String },
    /// The records could not be listed.
    ListingFailed(WorldError),
    /// Nobody knows where this CLI keeps any.
    UnknownCli(String),
}

impl Clone for NamespaceUnmatched {
    fn clone(&self) -> (copy: NamespaceUnmatched)
        ensures
            copy == *self,
    {
        match self {
            NamespaceUnmatched::NotRecorded { mapped } => NamespaceUnmatched::NotRecorded {
                mapped: mapped.clone(),
            },
            NamespaceUnmatched::ListingFailed(why) => NamespaceUnmatched::ListingFailed(
                why.clone(),
            ),
            NamespaceUnmatched::UnknownCli(cli) => NamespaceUnmatched::UnknownCli(cli.clone()),
        }
    }
}

impl NamespaceUnmatched {
    /// The reason in words.
    pub open spec fn words(self) -> Seq<char> {
        match self {
            NamespaceUnmatched::NotRecorded { mapped } => "no transcript is recorded under "@
                + mapped@,
            NamespaceUnmatched::ListingFailed(why) => "the transcripts could not be listed: "@
                + why.words(),
            NamespaceUnmatched::UnknownCli(cli) => "no transcript store is known for "@ + cli@,
        }
    }

    /// The reason in words.
    pub fn to_text(&self) -> (words: String)
        ensures
            words@ == self.words(),
    {
        match self {
            NamespaceUnmatched::NotRecorded { mapped } => String::from_str(
                "no transcript is recorded under ",
            ).concat(mapped.as_str()),
            NamespaceUnmatched::ListingFailed(why) => String::from_str(
                "the transcripts could not be listed: ",
            ).concat(why.to_text().as_str()),
            NamespaceUnmatched::UnknownCli(cli) => String::from_str(
                "no transcript store is known for ",
            ).concat(cli.as_str()),
        }
    }
}

/// Where a session works, and the name its transcript is recorded under.
#[derive(Debug, PartialEq, Eq)]
pub struct Workspace {
    pub path: String,
    pub namespace: Result<String, NamespaceUnmatched>,
}

/// What came of looking for the directory behind a recorded name.
#[derive(Debug, PartialEq, Eq)]
pub enum NamespaceResolution {
    Resolved(String),
    Ambiguous(Vec<String>),
    NoLongerExists,
    SearchExhausted,
}

impl NamespaceResolution {
    /// Whether two resolutions say the same.
    pub open spec fn agrees(self, other: NamespaceResolution) -> bool {
        match (self, other) {
            (NamespaceResolution::Resolved(one), NamespaceResolution::Resolved(two)) => one == two,
            (NamespaceResolution::Ambiguous(one), NamespaceResolution::Ambiguous(two)) => one@ == two@,
            (NamespaceResolution::NoLongerExists, NamespaceResolution::NoLongerExists) => true,
            (NamespaceResolution::SearchExhausted, NamespaceResolution::SearchExhausted) => true,
            _ => false,
        }
    }

    /// The resolution once more.
    pub fn again(&self) -> (copy: NamespaceResolution)
        ensures
            copy.agrees(*self),
    {
        match self {
            NamespaceResolution::Resolved(path) => NamespaceResolution::Resolved(path.clone()),
            NamespaceResolution::Ambiguous(candidates) => NamespaceResolution::Ambiguous(
                text::copies(candidates),
            ),
            NamespaceResolution::NoLongerExists => NamespaceResolution::NoLongerExists,
            NamespaceResolution::SearchExhausted => NamespaceResolution::SearchExhausted,
        }
    }

    /// The resolution in words.
    pub open spec fn words(self) -> Seq<char> {
        match self {
            NamespaceResolution::Resolved(path) => path@,
            NamespaceResolution::Ambiguous(candidates) => "ambiguous ("@ + text::decimal(
                candidates@.len(),
            ) + ")"@,
            NamespaceResolution::NoLongerExists => "no longer exists"@,
            NamespaceResolution::SearchExhausted => "search incomplete"@,
        }
    }

    /// The resolution in words.
    pub fn to_text(&self) -> (words: String)
        ensures
            words@ == self.words(),
    {
        match self {
            NamespaceResolution::Resolved(path) => path.clone(),
            NamespaceResolution::Ambiguous(candidates) => String::from_str("ambiguous (").concat(
                text::count_of(candidates.len()).as_str(),
            ).concat(")"),
            NamespaceResolution::NoLongerExists => String::from_str("no longer exists"),
            NamespaceResolution::SearchExhausted => String::from_str("search incomplete"),
        }
    }
}

/// A session that Codex's own index names.
#[derive(Debug, PartialEq, Eq)]
pub struct CodexSession {
    pub id: String,
    pub workspace: String,
    pub last_activity: SystemTime,
}

impl Clone for CodexSession {
    fn clone(&self) -> (copy: CodexSession)
        ensures
            copy == *self,
    {
        CodexSession {
            id: self.id.clone(),
            workspace: self.workspace.clone(),
            last_activity: self.last_activity,
        }
    }
}

/// One process, read in one moment.
#[derive(Debug, PartialEq, Eq)]
pub struct ProcessRecord {
    pub pid: i32,
    pub exe_path: Result<String, PathUnavailable>,
    pub cwd: Result<String, PathUnavailable>,
    /// The name that a transcript of work in `cwd` would be recorded under, and nothing where `cwd` is
    /// not known.
    pub filed_under: String,
}

impl Clone for ProcessRecord {
    fn clone(&self) -> (copy: ProcessRecord)
        ensures
            copy == *self,
    {
        ProcessRecord {
            pid: self.pid,
            exe_path: match &self.exe_path {
                Ok(path) => Ok(path.clone()),
                Err(why) => Err(*why),
            },
            cwd: match &self.cwd {
                Ok(path) => Ok(path.clone()),
                Err(why) => Err(*why),
            },
            filed_under: self.filed_under.clone(),
        }
    }
}

/// Every process there was, and which of them was looking.
#[derive(Debug, PartialEq, Eq)]
pub struct ProcessSnapshot {
    pub records: Vec<ProcessRecord>,
    pub observer_pid: i32,
}

impl ProcessSnapshot {
    /// Whether two snapshots show the same.
    pub open spec fn shows(self, other: ProcessSnapshot) -> bool {
        self.records@ == other.records@ && self.observer_pid == other.observer_pid
    }

    /// The snapshot once more.
    pub fn again(&self) -> (copy: ProcessSnapshot)
        ensures
            copy.shows(*self),
    {
        let mut records: Vec<ProcessRecord> = Vec::new();
        let mut next: usize = 0;
        while next < self.records.len()
            invariant
                next <= self.records@.len(),
                records@ == self.records@.take(next as int),
            decreases self.records@.len() - next,
        {
            records.push(self.records[next].clone());
            next += 1;
            assert(records@ =~= self.records@.take(next as int));
        }
        assert(records@ =~= self.records@);
        ProcessSnapshot { records, observer_pid: self.observer_pid }
    }

    /// Whether whoever looked is in what it saw.
    pub open spec fn sees_itself(self) -> bool {
        exists|i: int|
            0 <= i < self.records@.len() && (#[trigger] self.records@[i]).pid == self.observer_pid
    }

    /// Whether whoever looked is in what it saw.
    pub fn contains_observer(&self) -> (found: bool)
        ensures
            found == self.sees_itself(),
    {
        let mut next: usize = 0;
        while next < self.records.len()
            invariant
                next <= self.records@.len(),
                forall|i: int|
                    0 <= i < next ==> (#[trigger] self.records@[i]).pid != self.observer_pid,
            decreases self.records@.len() - next,
        {
            if self.records[next].pid == self.observer_pid {
                return true;
            }
            next += 1;
        }
        false
    }
}

/// What a bounded search for repositories found.
#[derive(Debug, PartialEq, Eq)]
pub struct Sweep {
    /// Each repository, and whether it is a linked worktree.
    pub repositories: Vec<(String, bool)>,
    /// Whether the search ended because there was nothing left to search.
    pub complete: bool,
    pub directories_visited: usize,
}

impl Sweep {
    /// Whether two searches found the same.
    pub open spec fn finds(self, other: Sweep) -> bool {
        self.repositories@ == other.repositories@ && self.complete == other.complete
            && self.directories_visited == other.directories_visited
    }

    /// The search once more.
    pub fn again(&self) -> (copy: Sweep)
        ensures
            copy.finds(*self),
    {
        let mut repositories: Vec<(String, bool)> = Vec::new();
        let mut next: usize = 0;
        while next < self.repositories.len()
            invariant
                next <= self.repositories@.len(),
                repositories@ == self.repositories@.take(next as int),
            decreases self.repositories@.len() - next,
        {
            repositories.push((self.repositories[next].0.clone(), self.repositories[next].1));
            next += 1;
            assert(repositories@ =~= self.repositories@.take(next as int));
        }
        assert(repositories@ =~= self.repositories@);
        Sweep {
            repositories,
            complete: self.complete,
            directories_visited: self.directories_visited,
        }
    }
}

/// The machine's load, in hundredths.
#[derive(Debug, Clone, Copy, PartialEq, Eq, Structural)]
pub struct LoadAverage {
    pub one_minute: u64,
    pub five_minutes: u64,
    pub fifteen_minutes: u64,
}

/// Which question to the machine went unanswered, and why.
#[derive(Debug, PartialEq, Eq)]
pub enum WorldError {
    ProcessEnumeration(String),
    NamespaceListing(String),
    CodexIndex(String),
}

impl Clone for WorldError {
    fn clone(&self) -> (copy: WorldError)
        ensures
            copy == *self,
    {
        match self {
            WorldError::ProcessEnumeration(why) => WorldError::ProcessEnumeration(why.clone()),
            WorldError::NamespaceListing(why) => WorldError::NamespaceListing(why.clone()),
            WorldError::CodexIndex(why) => WorldError::CodexIndex(why.clone()),
        }
    }
}

impl WorldError {
    /// The error in words.
    pub open spec fn words(self) -> Seq<char> {
        match self {
            WorldError::ProcessEnumeration(why) => "processes could not be enumerated: "@ + why@,
            WorldError::NamespaceListing(why) => "transcript namespaces could not be listed: "@
                + why@,
            WorldError::CodexIndex(why) => "the Codex index could not be read: "@ + why@,
        }
    }

    /// The error in words.
    pub fn to_text(&self) -> (words: String)
        ensures
            words@ == self.words(),
    {
        match self {
            WorldError::ProcessEnumeration(why) => String::from_str(
                "processes could not be enumerated: ",
            ).concat(why.as_str()),
            WorldError::NamespaceListing(why) => String::from_str(
                "transcript namespaces could not be listed: ",
            ).concat(why.as_str()),
            WorldError::CodexIndex(why) => String::from_str(
                "the Codex index could not be read: ",
            ).concat(why.as_str()),
        }
    }
}

/// Why it is not known when a transcript last changed.
#[derive(Debug, PartialEq, Eq)]
pub enum ActivityUnavailable {
    NotRecorded,
    NoTranscripts,
    Unreadable(String),
}

impl Clone for ActivityUnavailable {
    fn clone(&self) -> (copy: ActivityUnavailable)
        ensures
            copy == *self,
    {
        match self {
            ActivityUnavailable::NotRecorded => ActivityUnavailable::NotRecorded,
            ActivityUnavailable::NoTranscripts => ActivityUnavailable::NoTranscripts,
            ActivityUnavailable::Unreadable(why) => ActivityUnavailable::Unreadable(why.clone()),
        }
    }
}

/// What a file that may be missing gave.
#[derive(Debug, PartialEq, Eq)]
pub enum StateRead {
    Found(String),
    Absent,
    Unreadable(String),
}

/// What became of one alert on one channel.
#[derive(Debug, PartialEq, Eq)]
pub enum NotifyOutcome {
    Delivered,
    Failed(String),
    NotAttempted(String),
    NoChannelConfigured,
}

impl Clone for NotifyOutcome {
    fn clone(&self) -> (copy: NotifyOutcome)
        ensures
            copy == *self,
    {
        match self {
            NotifyOutcome::Delivered => NotifyOutcome::Delivered,
            NotifyOutcome::Failed(why) => NotifyOutcome::Failed(why.clone()),
            NotifyOutcome::NotAttempted(why) => NotifyOutcome::NotAttempted(why.clone()),
            NotifyOutcome::NoChannelConfigured => NotifyOutcome::NoChannelConfigured,
        }
    }
}

/// Where alerts go.
#[derive(Debug, PartialEq, Eq)]
pub struct NotifyConfig {
    pub local_command: Option<String>,
    pub remote_url: Option<String>,
    /// Why the configuration could not be understood, where it could not.
    pub unusable: Option<String>,
}

impl NotifyConfig {
    /// No alerting, and nothing wrong with that.
    pub fn none() -> (config: NotifyConfig)
        ensures
            config.local_command is None,
            config.remote_url is None,
            config.unusable is None,
    {
        NotifyConfig { local_command: None, remote_url: None, unusable: None }
    }

    /// No alerting, because the configuration could not be understood.
    pub fn unusable(why: String) -> (config: NotifyConfig)
        ensures
            config.local_command is None,
            config.remote_url is None,
            config.unusable == Some(why),
    {
        NotifyConfig { local_command: None, remote_url: None, unusable: Some(why) }
    }

    /// Whether there is a channel at all.
    pub open spec fn reaches_anyone(self) -> bool {
        self.local_command is Some || self.remote_url is Some
    }

    /// Whether there is a channel at all.
    pub fn has_any(&self) -> (any: bool)
        ensures
            any == self.reaches_anyone(),
    {
        self.local_command.is_some() || self.remote_url.is_some()
    }

    /// A setting that names nothing but white space names nothing.
    pub open spec fn named(setting: Option<String>) -> Option<String> {
        if setting is Some && text::trimmed(setting->0@).len() > 0 {
            setting
        } else {
            None
        }
    }

    fn unless_blank(setting: Option<String>) -> (kept: Option<String>)
        ensures
            kept == NotifyConfig::named(setting),
    {
        match setting {
            Some(given) => if text::trim(&text::characters(given.as_str())).len() > 0 {
                Some(given)
            } else {
                None
            },
            None => None,
        }
    }

    /// The channels that two settings name.
    pub fn from_settings(local_command: Option<String>, remote_url: Option<String>) -> (config:
        NotifyConfig)
        ensures
            config.local_command == NotifyConfig::named(local_command),
            config.remote_url == NotifyConfig::named(remote_url),
            config.unusable is None,
    {
        NotifyConfig {
            local_command: NotifyConfig::unless_blank(local_command),
            remote_url: NotifyConfig::unless_blank(remote_url),
            unusable: None,
        }
    }
}

/// How agents are recognised.
#[derive(Debug, PartialEq, Eq)]
pub struct DetectorConfig {
    pub detectors: Vec<Detector>,
    /// Why the user's own could not be used, where they could not.
    pub unusable: Option<String>,
}

impl DetectorConfig {
    /// The detectors that come with the tool, and no complaint.
    pub fn embedded_only(embedded: Vec<Detector>) -> (config: DetectorConfig)
        ensures
            config.detectors == embedded,
            config.unusable is None,
    {
        DetectorConfig { detectors: embedded, unusable: None }
    }

    /// The detectors that come with the tool, because the user's own could not be used.
    pub fn unusable(embedded: Vec<Detector>, why: String) -> (config: DetectorConfig)
        ensures
            config.detectors == embedded,
            config.unusable == Some(why),
    {
        DetectorConfig { detectors: embedded, unusable: Some(why) }
    }
}

} // verus!
