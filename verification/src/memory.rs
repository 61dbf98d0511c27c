//! What is carried from one run to the next.

use crate::collect::{Identity, Session};
use crate::liveness;
use crate::notify::AnnouncementRecord;
use crate::order;
use crate::text;
use crate::time::{Duration, SystemTime};
use crate::vcs::{Unreadable, WorkspaceState};
use crate::world::Resources;
use vstd::prelude::*;

verus! {

/// The environment variable for how long a settled workspace is remembered.
pub const FORGET_VARIABLE: &'static str = "ACMON_FORGET_SECONDS";

/// Seven days.
pub open spec fn forget_by_default() -> Duration {
    Duration { nanos: 604_800_000_000_000 }
}

/// Seven days.
pub fn default_forget() -> (span: Duration)
    ensures
        span == forget_by_default(),
{
    Duration { nanos: 604_800_000_000_000 }
}

/// Whether this is how long a setting says that a settled workspace is remembered.
pub open spec fn is_retention(span: Result<Duration, String>, value: Option<&str>) -> bool {
    match span {
        Ok(found) => liveness::seconds_setting(liveness::given(value), forget_by_default())
            == Ok::<Duration, text::NumberFault>(found),
        Err(why) => value is Some && exists|fault: text::NumberFault|
            liveness::seconds_setting(liveness::given(value), forget_by_default()) == Err::<
                Duration,
                text::NumberFault,
            >(fault) && why@ == #[trigger] liveness::not_seconds(
                "ACMON_FORGET_SECONDS"@,
                value->0@,
                fault,
            ),
    }
}

/// How long a settled workspace is remembered, from a setting.
pub fn retention_from_value(value: Option<&str>) -> (span: Result<Duration, String>)
    ensures
        is_retention(span, value),
{
    liveness::read_seconds(value, "ACMON_FORGET_SECONDS", default_forget())
}

// --- What is remembered ------------------------------------------------------------------------

/// A workspace that was seen.
#[derive(Debug, PartialEq, Eq)]
pub struct RememberedWorkspace {
    pub path: String,
    pub first_seen: SystemTime,
    pub last_seen: SystemTime,
    /// Since when nothing in it was at risk and nobody drove it, while that lasts.
    pub settled_since: Option<SystemTime>,
}

/// What a process had used at an instant.
#[derive(Debug, Clone, Copy, PartialEq, Eq)]
pub struct Reading {
    pub resources: Resources,
    pub taken_at: SystemTime,
}

/// A session that was seen.
#[derive(Debug, PartialEq, Eq)]
pub struct RememberedSession {
    pub cli: String,
    pub recorded_as: String,
    pub first_seen: SystemTime,
    pub last_seen: SystemTime,
    pub last_reading: Option<Reading>,
}

/// Everything that is carried from one run to the next.
#[derive(Debug, PartialEq, Eq)]
pub struct Memory {
    pub workspaces: Vec<RememberedWorkspace>,
    pub sessions: Vec<RememberedSession>,
    /// What had been announced by then. It is kept with the rest for whoever reads the history; what a
    /// run need not announce again it reads from the record, which stands in a file of its own.
    pub announcements: AnnouncementRecord,
}

/// Whether a remembered session is the one of a CLI and a name.
pub open spec fn is_session(cli: Seq<char>, recorded_as: Seq<char>) -> spec_fn(
    RememberedSession,
) -> bool {
    |known: RememberedSession| known.cli@ == cli && known.recorded_as@ == recorded_as
}

/// Whether a remembered workspace is the one at a path, case aside.
pub open spec fn is_workspace(path: Seq<char>) -> spec_fn(RememberedWorkspace) -> bool {
    |known: RememberedWorkspace| text::same_but_case(known.path@, path)
}

/// Where a session is remembered.
pub open spec fn session_at(
    known: Seq<RememberedSession>,
    cli: Seq<char>,
    recorded_as: Seq<char>,
) -> Option<int> {
    order::first_where(known, is_session(cli, recorded_as))
}

/// Where a workspace is remembered.
pub open spec fn workspace_at(known: Seq<RememberedWorkspace>, path: Seq<char>) -> Option<int> {
    order::first_where(known, is_workspace(path))
}

fn find_session(known: &Vec<RememberedSession>, cli: &str, recorded_as: &str) -> (at: Option<usize>)
    ensures
        match at {
            Some(found) => found < known@.len() && session_at(known@, cli@, recorded_as@) == Some(
                found as int,
            ),
            None => session_at(known@, cli@, recorded_as@) is None,
        },
{
    let ghost wanted = is_session(cli@, recorded_as@);
    let mut next: usize = 0;
    while next < known.len()
        invariant
            next <= known@.len(),
            wanted == is_session(cli@, recorded_as@),
            forall|i: int| 0 <= i < next ==> !wanted(#[trigger] known@[i]),
        decreases known@.len() - next,
    {
        if text::same(known[next].cli.as_str(), cli) && text::same(
            known[next].recorded_as.as_str(),
            recorded_as,
        ) {
            proof {
                order::lemma_is_first(known@, wanted, next as int);
            }
            return Some(next);
        }
        next += 1;
    }
    proof {
        order::lemma_is_nowhere(known@, wanted);
    }
    None
}

fn find_workspace(known: &Vec<RememberedWorkspace>, path: &str) -> (at: Option<usize>)
    ensures
        match at {
            Some(found) => found < known@.len() && workspace_at(known@, path@) == Some(
                found as int,
            ),
            None => workspace_at(known@, path@) is None,
        },
{
    let ghost wanted = is_workspace(path@);
    let mut next: usize = 0;
    while next < known.len()
        invariant
            next <= known@.len(),
            wanted == is_workspace(path@),
            forall|i: int| 0 <= i < next ==> !wanted(#[trigger] known@[i]),
        decreases known@.len() - next,
    {
        if text::same_ignoring_case(known[next].path.as_str(), path) {
            proof {
                order::lemma_is_first(known@, wanted, next as int);
            }
            return Some(next);
        }
        next += 1;
    }
    proof {
        order::lemma_is_nowhere(known@, wanted);
    }
    None
}

impl Memory {
    /// Nothing is remembered.
    pub fn empty() -> (memory: Memory)
        ensures
            memory.workspaces@.len() == 0,
            memory.sessions@.len() == 0,
            memory.announcements.sessions@.len() == 0,
            memory.announcements.workspaces@.len() == 0,
    {
        Memory {
            workspaces: Vec::new(),
            sessions: Vec::new(),
            announcements: AnnouncementRecord::empty(),
        }
    }

    /// Whether no workspace and no session is remembered.
    pub fn is_empty(&self) -> (none: bool)
        ensures
            none == (self.workspaces@.len() == 0 && self.sessions@.len() == 0),
    {
        self.workspaces.len() == 0 && self.sessions.len() == 0
    }

    /// The last reading of a session.
    pub open spec fn recalled(self, cli: Seq<char>, recorded_as: Seq<char>) -> Option<Reading> {
        match session_at(self.sessions@, cli, recorded_as) {
            Some(at) => self.sessions@[at].last_reading,
            None => None,
        }
    }

    /// The last reading of a session.
    pub fn reading_for(&self, cli: &str, recorded_as: &str) -> (reading: Option<Reading>)
        ensures
            reading == self.recalled(cli@, recorded_as@),
    {
        match find_session(&self.sessions, cli, recorded_as) {
            Some(at) => self.sessions[at].last_reading,
            None => None,
        }
    }

    /// What is remembered of the workspace at a path, case aside.
    pub fn workspace(&self, path: &str) -> (known: Option<&RememberedWorkspace>)
        ensures
            match workspace_at(self.workspaces@, path@) {
                Some(at) => known == Some(&self.workspaces@[at]),
                None => known is None,
            },
    {
        match find_workspace(&self.workspaces, path) {
            Some(at) => Some(&self.workspaces[at]),
            None => None,
        }
    }
}

impl Default for Memory {
    fn default() -> (memory: Memory)
        ensures
            memory.workspaces@.len() == 0,
            memory.sessions@.len() == 0,
            memory.announcements.sessions@.len() == 0,
            memory.announcements.workspaces@.len() == 0,
    {
        Memory::empty()
    }
}

// --- Reading it back ---------------------------------------------------------------------------

/// The version of the form that is written, and the only one that is understood.
pub const SCHEMA_VERSION: u32 = 1;

/// Why a run began without what earlier ones knew.
#[derive(Debug, PartialEq, Eq)]
pub enum Degraded {
    Unreadable(String),
    Unparsable(String),
    UnknownVersion { found: u32, understood: u32 },
}

impl Degraded {
    /// The reason in words.
    pub open spec fn words(self) -> Seq<char> {
        match self {
            Degraded::Unreadable(why) => "remembered state could not be read ("@ + why@ + ")"@,
            Degraded::Unparsable(why) => "remembered state could not be understood ("@ + why@
                + ")"@,
            Degraded::UnknownVersion { found, understood } =>
                "remembered state is schema version "@ + text::decimal(found as nat)
                + ", and this acmon understands "@ + text::decimal(understood as nat),
        }
    }

    /// The reason in words.
    pub fn to_text(&self) -> (words: String)
        ensures
            words@ == self.words(),
    {
        match self {
            Degraded::Unreadable(why) => String::from_str(
                "remembered state could not be read (",
            ).concat(why.as_str()).concat(")"),
            Degraded::Unparsable(why) => String::from_str(
                "remembered state could not be understood (",
            ).concat(why.as_str()).concat(")"),
            Degraded::UnknownVersion { found, understood } => String::from_str(
                "remembered state is schema version ",
            ).concat(text::decimal_of(*found as u128).as_str()).concat(
                ", and this acmon understands ",
            ).concat(text::decimal_of(*understood as u128).as_str()),
        }
    }
}

/// What is remembered, as it is stored.
#[derive(Debug, PartialEq, Eq)]
pub struct StateFile {
    pub version: u32,
    pub memory: Memory,
}

/// What is remembered, with the version it is written in.
pub fn serialise(memory: Memory) -> (file: StateFile)
    ensures
        file == (StateFile { version: SCHEMA_VERSION, memory }),
{
    StateFile { version: SCHEMA_VERSION, memory }
}

/// Whether nothing is remembered, and nothing has been announced.
pub open spec fn blank(memory: Memory) -> bool {
    &&& memory.workspaces@.len() == 0
    &&& memory.sessions@.len() == 0
    &&& memory.announcements.sessions@.len() == 0
    &&& memory.announcements.workspaces@.len() == 0
}

/// What a file that was decoded holds, or nothing and the reason: it could not be decoded, or it is
/// of a version nobody here understands.
pub open spec fn is_parsed(
    decoded: Result<StateFile, String>,
    read: (Memory, Option<Degraded>),
) -> bool {
    match decoded {
        Ok(file) => if file.version == SCHEMA_VERSION {
            read == (file.memory, None::<Degraded>)
        } else {
            blank(read.0) && read.1 == Some(
                Degraded::UnknownVersion { found: file.version, understood: SCHEMA_VERSION },
            )
        },
        Err(why) => blank(read.0) && read.1 == Some(Degraded::Unparsable(why)),
    }
}

/// What a file that was decoded holds, or nothing and the reason.
pub fn parse(decoded: Result<StateFile, String>) -> (read: (Memory, Option<Degraded>))
    ensures
        is_parsed(decoded, read),
{
    match decoded {
        Ok(file) => if file.version != SCHEMA_VERSION {
            (
                Memory::empty(),
                Some(Degraded::UnknownVersion { found: file.version, understood: SCHEMA_VERSION }),
            )
        } else {
            (file.memory, None)
        },
        Err(why) => (Memory::empty(), Some(Degraded::Unparsable(why))),
    }
}

/// What came of reading what earlier runs stored.
#[derive(Debug, PartialEq, Eq)]
pub enum MemoryRead {
    /// A file was there, and this came of decoding it.
    Found(Result<StateFile, String>),
    Absent,
    Unreadable(String),
}

/// Whether a run begins with what it read: nothing, and no complaint, where nothing was stored yet.
pub open spec fn is_recalled(read: MemoryRead, begun: (Memory, Option<Degraded>)) -> bool {
    match read {
        MemoryRead::Found(decoded) => is_parsed(decoded, begun),
        MemoryRead::Absent => blank(begun.0) && begun.1 is None,
        MemoryRead::Unreadable(why) => blank(begun.0) && begun.1 == Some(Degraded::Unreadable(why)),
    }
}

/// What a run begins with.
pub fn recall(read: MemoryRead) -> (begun: (Memory, Option<Degraded>))
    ensures
        is_recalled(read, begun),
{
    match read {
        MemoryRead::Found(decoded) => parse(decoded),
        MemoryRead::Absent => (Memory::empty(), None),
        MemoryRead::Unreadable(why) => (Memory::empty(), Some(Degraded::Unreadable(why))),
    }
}

/// What was stored is what is read.
pub proof fn law_what_is_stored_reads_back(memory: Memory, read: (Memory, Option<Degraded>))
    requires
        is_parsed(Ok(StateFile { version: SCHEMA_VERSION, memory }), read),
    ensures
        read == (memory, None::<Degraded>),
{
}

// --- Remembering -------------------------------------------------------------------------------

/// A workspace that was seen in this run.
#[derive(Debug, PartialEq, Eq)]
pub struct Sighting {
    pub path: String,
    /// Whether nothing in it is at risk and nobody drives it.
    pub settled: bool,
}

impl Sighting {
    /// A sighting is settled where the state is neither at risk nor dirty, somebody has looked, and no
    /// session drives it.
    pub open spec fn is_settled(state: WorkspaceState, driven: bool) -> bool {
        !state.risky() && !(state is DirtyDriven) && state != WorkspaceState::Unknown(
            Unreadable::NotYetRead,
        ) && !driven
    }

    /// What is seen of a workspace in a state.
    pub fn of(path: String, state: &WorkspaceState, driven: bool) -> (sighting: Sighting)
        ensures
            sighting == (Sighting { path, settled: Sighting::is_settled(*state, driven) }),
    {
        let open: bool = match state {
            WorkspaceState::DirtyDriven | WorkspaceState::Unknown(Unreadable::NotYetRead) => true,
            _ => false,
        };
        let settled: bool = !state.at_risk() && !open && !driven;
        Sighting { path, settled }
    }
}

/// A workspace nobody can tell about is not settled, so that it is never forgotten: of those that are
/// unknown, only one under no version control and one that is gone are.
pub proof fn law_what_cannot_be_told_is_not_settled(why: Unreadable, driven: bool)
    ensures
        Sighting::is_settled(WorkspaceState::Unknown(why), driven) ==> why
            == Unreadable::NotVersionControlled || why == Unreadable::PathGone,
{
}

/// The name a session is recorded under, if it has one: a transcript's own, and for a process the
/// one of its workspace.
pub open spec fn recorded_name(session: Session) -> Option<String> {
    match session.identity {
        Identity::Transcript { recorded_as } => Some(recorded_as),
        Identity::Process { .. } => match session.workspace {
            Ok(workspace) => match workspace.namespace {
                Ok(namespace) => Some(namespace),
                Err(_) => None,
            },
            Err(_) => None,
        },
    }
}

/// The name a session is recorded under, if it has one.
pub fn recorded_under(session: &Session) -> (name: Option<&String>)
    ensures
        match recorded_name(*session) {
            Some(found) => name == Some(&found),
            None => name is None,
        },
{
    match &session.identity {
        Identity::Transcript { recorded_as } => Some(recorded_as),
        Identity::Process { .. } => match &session.workspace {
            Ok(workspace) => match &workspace.namespace {
                Ok(namespace) => Some(namespace),
                Err(_) => None,
            },
            Err(_) => None,
        },
    }
}

/// The CLI and the name by which a session is known from run to run.
pub fn identity_of(session: &Session) -> (identity: Option<(&str, &str)>)
    ensures
        match recorded_name(*session) {
            Some(found) => identity matches Some(pair) && pair.0@ == session.cli@ && pair.1@
                == found@,
            None => identity is None,
        },
{
    match recorded_under(session) {
        Some(name) => Some((session.cli.as_str(), name.as_str())),
        None => None,
    }
}

/// A sighting as it is remembered: first seen when it first was, settled since it first was without
/// a break.
pub open spec fn sighted(
    sighting: Sighting,
    known: Seq<RememberedWorkspace>,
    now: SystemTime,
) -> RememberedWorkspace {
    let at = workspace_at(known, sighting.path@);
    RememberedWorkspace {
        path: sighting.path,
        first_seen: match at {
            Some(i) => known[i].first_seen,
            None => now,
        },
        last_seen: now,
        settled_since: if !sighting.settled {
            None
        } else {
            match at {
                Some(i) => match known[i].settled_since {
                    Some(since) => Some(since),
                    None => Some(now),
                },
                None => Some(now),
            }
        },
    }
}

/// Sightings as they are remembered.
pub open spec fn all_sighted(
    sightings: Seq<Sighting>,
    known: Seq<RememberedWorkspace>,
    now: SystemTime,
) -> Seq<RememberedWorkspace> {
    sightings.map_values(|one: Sighting| sighted(one, known, now))
}

/// Workspaces with those added that were known and are not among them.
pub open spec fn with_unseen(
    seen: Seq<RememberedWorkspace>,
    known: Seq<RememberedWorkspace>,
) -> Seq<RememberedWorkspace>
    decreases known.len(),
{
    if known.len() == 0 {
        seen
    } else {
        let so_far = with_unseen(seen, known.drop_last());
        if workspace_at(so_far, known.last().path@) is Some {
            so_far
        } else {
            so_far.push(known.last())
        }
    }
}

/// A session as it is remembered: first seen when it first was, with the reading of now or else the
/// one it had.
pub open spec fn session_seen(
    session: Session,
    name: String,
    known: Seq<RememberedSession>,
    now: SystemTime,
) -> RememberedSession {
    let at = session_at(known, session.cli@, name@);
    RememberedSession {
        cli: session.cli,
        recorded_as: name,
        first_seen: match at {
            Some(i) => known[i].first_seen,
            None => now,
        },
        last_seen: now,
        last_reading: match session.resources {
            Ok(resources) => Some(Reading { resources, taken_at: now }),
            Err(_) => match at {
                Some(i) => known[i].last_reading,
                None => None,
            },
        },
    }
}

/// The sessions that can be named, as they are remembered.
pub open spec fn sessions_seen(
    sessions: Seq<Session>,
    known: Seq<RememberedSession>,
    now: SystemTime,
) -> Seq<RememberedSession>
    decreases sessions.len(),
{
    if sessions.len() == 0 {
        Seq::empty()
    } else {
        let before = sessions_seen(sessions.drop_last(), known, now);
        match recorded_name(sessions.last()) {
            Some(name) => before.push(session_seen(sessions.last(), name, known, now)),
            None => before,
        }
    }
}

/// Whether this is what is remembered once a run has seen this.
pub open spec fn has_remembered(
    memory: Memory,
    previous: Memory,
    sightings: Seq<Sighting>,
    sessions: Seq<Session>,
    now: SystemTime,
) -> bool {
    &&& memory.workspaces@ == with_unseen(
        all_sighted(sightings, previous.workspaces@, now),
        previous.workspaces@,
    )
    &&& memory.sessions@ == sessions_seen(sessions, previous.sessions@, now)
    &&& memory.announcements == previous.announcements
}

/// What is remembered after a run that saw workspaces and sessions: every workspace it saw and every
/// one it did not, and of the sessions those it saw.
pub fn remember(
    previous: Memory,
    sightings: &Vec<Sighting>,
    sessions: &Vec<Session>,
    now: SystemTime,
) -> (memory: Memory)
    ensures
        has_remembered(memory, previous, sightings@, sessions@, now),
{
    let Memory { workspaces: known, sessions: known_sessions, announcements } = previous;
    let ghost all = all_sighted(sightings@, known@, now);
    let mut workspaces: Vec<RememberedWorkspace> = Vec::new();
    let mut next: usize = 0;
    while next < sightings.len()
        invariant
            next <= sightings@.len(),
            all == all_sighted(sightings@, known@, now),
            workspaces@ == all.take(next as int),
        decreases sightings@.len() - next,
    {
        let sighting: &Sighting = &sightings[next];
        let at: Option<usize> = find_workspace(&known, sighting.path.as_str());
        let first_seen: SystemTime = match at {
            Some(i) => known[i].first_seen,
            None => now,
        };
        let settled_since: Option<SystemTime> = if !sighting.settled {
            None
        } else {
            match at {
                Some(i) => match known[i].settled_since {
                    Some(since) => Some(since),
                    None => Some(now),
                },
                None => Some(now),
            }
        };
        workspaces.push(
            RememberedWorkspace {
                path: sighting.path.clone(),
                first_seen,
                last_seen: now,
                settled_since,
            },
        );
        assert(workspaces@ =~= all.take(next + 1));
        next += 1;
    }
    assert(all.take(next as int) =~= all);
    let ghost known_before = known@;
    assert(known@.take(0) =~= Seq::<RememberedWorkspace>::empty());
    for remembered in walk: known
        invariant
            walk.seq() == known_before,
            workspaces@ == with_unseen(all, known_before.take(walk.index() as int)),
    {
        let ghost at = walk.index() as int;
        assert(known_before.take(at + 1).drop_last() =~= known_before.take(at));
        if find_workspace(&workspaces, remembered.path.as_str()).is_none() {
            workspaces.push(remembered);
        }
    }
    assert(known_before.take(known_before.len() as int) =~= known_before);
    let mut remembered_sessions: Vec<RememberedSession> = Vec::new();
    let mut next: usize = 0;
    assert(sessions@.take(0) =~= Seq::<Session>::empty());
    while next < sessions.len()
        invariant
            next <= sessions@.len(),
            remembered_sessions@ == sessions_seen(
                sessions@.take(next as int),
                known_sessions@,
                now,
            ),
        decreases sessions@.len() - next,
    {
        let session: &Session = &sessions[next];
        assert(sessions@.take(next + 1).drop_last() =~= sessions@.take(next as int));
        if let Some(name) = recorded_under(session) {
            let at: Option<usize> = find_session(
                &known_sessions,
                session.cli.as_str(),
                name.as_str(),
            );
            let first_seen: SystemTime = match at {
                Some(i) => known_sessions[i].first_seen,
                None => now,
            };
            let last_reading: Option<Reading> = match &session.resources {
                Ok(resources) => Some(Reading { resources: *resources, taken_at: now }),
                Err(_) => match at {
                    Some(i) => known_sessions[i].last_reading,
                    None => None,
                },
            };
            remembered_sessions.push(
                RememberedSession {
                    cli: session.cli.clone(),
                    recorded_as: name.clone(),
                    first_seen,
                    last_seen: now,
                    last_reading,
                },
            );
        }
        next += 1;
    }
    assert(sessions@.take(next as int) =~= sessions@);
    Memory { workspaces, sessions: remembered_sessions, announcements }
}

// --- Forgetting --------------------------------------------------------------------------------

/// A workspace that is no longer remembered.
#[derive(Debug, PartialEq, Eq)]
pub struct Forgotten {
    pub path: String,
    pub settled_for: Duration,
}

/// How long a workspace has been settled: not at all where it is not, and no time where the clock
/// says it settled in the future.
pub open spec fn settled_for(workspace: RememberedWorkspace, now: SystemTime) -> Option<Duration> {
    match workspace.settled_since {
        None => None,
        Some(since) => match now.since(since) {
            Some(span) => Some(span),
            None => Some(Duration { nanos: 0 }),
        },
    }
}

/// Whether a workspace has been settled for longer than it is remembered.
pub open spec fn outlived(
    workspace: RememberedWorkspace,
    now: SystemTime,
    retention: Duration,
) -> bool {
    settled_for(workspace, now) matches Some(span) && span.nanos > retention.nanos
}

/// The workspaces that are still remembered.
pub open spec fn still_known(
    workspaces: Seq<RememberedWorkspace>,
    now: SystemTime,
    retention: Duration,
) -> Seq<RememberedWorkspace>
    decreases workspaces.len(),
{
    if workspaces.len() == 0 {
        Seq::empty()
    } else {
        let before = still_known(workspaces.drop_last(), now, retention);
        if outlived(workspaces.last(), now, retention) {
            before
        } else {
            before.push(workspaces.last())
        }
    }
}

/// The workspaces that no longer are.
pub open spec fn let_go(
    workspaces: Seq<RememberedWorkspace>,
    now: SystemTime,
    retention: Duration,
) -> Seq<Forgotten>
    decreases workspaces.len(),
{
    if workspaces.len() == 0 {
        Seq::empty()
    } else {
        let before = let_go(workspaces.drop_last(), now, retention);
        if outlived(workspaces.last(), now, retention) {
            before.push(
                Forgotten {
                    path: workspaces.last().path,
                    settled_for: settled_for(workspaces.last(), now)->0,
                },
            )
        } else {
            before
        }
    }
}

/// Whether this is what is left of a memory, and what was forgotten of it.
pub open spec fn has_forgotten(
    left: Memory,
    forgotten: Seq<Forgotten>,
    memory: Memory,
    now: SystemTime,
    retention: Duration,
) -> bool {
    &&& left.workspaces@ == still_known(memory.workspaces@, now, retention)
    &&& forgotten == let_go(memory.workspaces@, now, retention)
    &&& left.sessions == memory.sessions
    &&& left.announcements == memory.announcements
}

/// Lets go of the workspaces that have been settled for longer than they are remembered, and says
/// which those are.
pub fn forget(memory: Memory, now: SystemTime, retention: Duration) -> (left: (
    Memory,
    Vec<Forgotten>,
))
    ensures
        has_forgotten(left.0, left.1@, memory, now, retention),
{
    let Memory { workspaces, sessions, announcements } = memory;
    let ghost all = workspaces@;
    let mut kept: Vec<RememberedWorkspace> = Vec::new();
    let mut forgotten: Vec<Forgotten> = Vec::new();
    assert(all.take(0) =~= Seq::<RememberedWorkspace>::empty());
    for workspace in walk: workspaces
        invariant
            walk.seq() == all,
            kept@ == still_known(all.take(walk.index() as int), now, retention),
            forgotten@ == let_go(all.take(walk.index() as int), now, retention),
    {
        let ghost at = walk.index() as int;
        assert(all.take(at + 1).drop_last() =~= all.take(at));
        let span: Option<Duration> = match workspace.settled_since {
            None => None,
            Some(since) => match now.duration_since(since) {
                Some(span) => Some(span),
                None => Some(Duration { nanos: 0 }),
            },
        };
        match span {
            Some(settled) => {
                if settled.nanos > retention.nanos {
                    forgotten.push(Forgotten { path: workspace.path, settled_for: settled });
                } else {
                    kept.push(workspace);
                }
            },
            None => {
                kept.push(workspace);
            },
        }
    }
    assert(all.take(all.len() as int) =~= all);
    (Memory { workspaces: kept, sessions, announcements }, forgotten)
}

// --- What holds of remembering and forgetting ----------------------------------------------------

/// A workspace keeps the instant it was first seen at, and is settled since the first run of an
/// unbroken series that found it settled.
pub proof fn law_a_workspace_keeps_its_history(
    sighting: Sighting,
    known: Seq<RememberedWorkspace>,
    now: SystemTime,
)
    ensures
        ({
            let after = sighted(sighting, known, now);
            &&& after.last_seen == now
            &&& after.settled_since is Some <==> sighting.settled
            &&& workspace_at(known, sighting.path@) matches Some(i) ==> after.first_seen
                == known[i].first_seen && (sighting.settled && known[i].settled_since is Some
                ==> after.settled_since == known[i].settled_since)
            &&& workspace_at(known, sighting.path@) is None ==> after.first_seen == now
        }),
{
}

proof fn lemma_seen_stays(seen: Seq<RememberedWorkspace>, known: Seq<RememberedWorkspace>)
    ensures
        with_unseen(seen, known).len() >= seen.len(),
        forall|i: int|
            0 <= i < seen.len() ==> #[trigger] with_unseen(seen, known)[i] == seen[i],
    decreases known.len(),
{
    if known.len() > 0 {
        lemma_seen_stays(seen, known.drop_last());
        let so_far = with_unseen(seen, known.drop_last());
        assert forall|i: int| 0 <= i < seen.len() implies #[trigger] with_unseen(seen, known)[i]
            == seen[i] by {
            assert(so_far[i] == seen[i]);
        }
    }
}

/// No workspace drops out of memory by not being seen: whatever was known is still found by its
/// path.
pub proof fn law_a_workspace_nobody_saw_is_still_known(
    seen: Seq<RememberedWorkspace>,
    known: Seq<RememberedWorkspace>,
    at: int,
)
    requires
        0 <= at < known.len(),
    ensures
        workspace_at(with_unseen(seen, known), known[at].path@) is Some,
    decreases known.len(),
{
    let path = known[at].path@;
    let wanted = is_workspace(path);
    let so_far = with_unseen(seen, known.drop_last());
    let after = with_unseen(seen, known);
    if at == known.len() - 1 {
        order::lemma_first_where(after, wanted);
        if workspace_at(so_far, path) is None {
            assert(wanted(after[so_far.len() as int]));
        }
    } else {
        law_a_workspace_nobody_saw_is_still_known(seen, known.drop_last(), at);
        assert(known.drop_last()[at] == known[at]);
        order::lemma_first_where(so_far, wanted);
        order::lemma_first_where(after, wanted);
        let found = order::first_where(so_far, wanted)->0;
        assert(after[found] == so_far[found]);
        assert(wanted(after[found]));
    }
}

/// Forgetting divides what was known: each workspace is either kept or named as forgotten.
pub proof fn law_forgetting_loses_nothing_silently(
    workspaces: Seq<RememberedWorkspace>,
    now: SystemTime,
    retention: Duration,
)
    ensures
        still_known(workspaces, now, retention).len() + let_go(workspaces, now, retention).len()
            == workspaces.len(),
    decreases workspaces.len(),
{
    if workspaces.len() > 0 {
        law_forgetting_loses_nothing_silently(workspaces.drop_last(), now, retention);
    }
}

/// A workspace that is not settled is never forgotten, however long ago it was seen.
pub proof fn law_what_is_not_settled_is_never_forgotten(
    workspaces: Seq<RememberedWorkspace>,
    now: SystemTime,
    retention: Duration,
    at: int,
)
    requires
        0 <= at < workspaces.len(),
        workspaces[at].settled_since is None,
    ensures
        still_known(workspaces, now, retention).contains(workspaces[at]),
    decreases workspaces.len(),
{
    let before = still_known(workspaces.drop_last(), now, retention);
    let after = still_known(workspaces, now, retention);
    if at == workspaces.len() - 1 {
        assert(after[before.len() as int] == workspaces[at]);
    } else {
        law_what_is_not_settled_is_never_forgotten(workspaces.drop_last(), now, retention, at);
        let i = choose|i: int| 0 <= i < before.len() && before[i] == workspaces[at];
        assert(after[i] == workspaces[at]);
    }
}

/// A workspace that this run found settled for the first time is not forgotten by it.
pub proof fn law_settling_starts_the_clock(
    sighting: Sighting,
    known: Seq<RememberedWorkspace>,
    now: SystemTime,
    retention: Duration,
)
    requires
        workspace_at(known, sighting.path@) matches Some(i) ==> known[i].settled_since is None,
    ensures
        !outlived(sighted(sighting, known, now), now, retention),
{
}

} // verus!
