//! Which conditions somebody has to hear of, and which they have heard of already.

use crate::collect::{Session, WorkspaceReport};
use crate::liveness::State;
use crate::memory;
use crate::order;
use crate::text;
use crate::vcs::{Unreadable, WorkspaceState};
use vstd::prelude::*;

verus! {

/// The session states that are announced.
#[derive(Debug, Clone, Copy, PartialEq, Eq, Structural)]
pub enum AnnouncedSessionState {
    Waiting,
}

/// The workspace states that are announced.
#[derive(Debug, Clone, Copy, PartialEq, Eq, Structural)]
pub enum AnnouncedWorkspaceState {
    DirtyStranded,
    UnknownAtRisk,
}

/// A session that was announced, and in which state.
#[derive(Debug, PartialEq, Eq)]
pub struct AnnouncedSession {
    pub cli: String,
    pub recorded_as: String,
    pub state: AnnouncedSessionState,
}

impl Clone for AnnouncedSession {
    fn clone(&self) -> (copy: AnnouncedSession)
        ensures
            copy == *self,
    {
        AnnouncedSession {
            cli: self.cli.clone(),
            recorded_as: self.recorded_as.clone(),
            state: self.state,
        }
    }
}

/// What has been announced and still holds.
#[derive(Debug, PartialEq, Eq)]
pub struct AnnouncementRecord {
    pub sessions: Vec<AnnouncedSession>,
    pub workspaces: Vec<(String, AnnouncedWorkspaceState)>,
}

impl AnnouncementRecord {
    /// Nothing has been announced.
    pub fn empty() -> (record: AnnouncementRecord)
        ensures
            unwritten(record),
    {
        AnnouncementRecord { sessions: Vec::new(), workspaces: Vec::new() }
    }

    /// Whether nothing has been announced.
    pub fn is_empty(&self) -> (none: bool)
        ensures
            none == unwritten(*self),
    {
        self.sessions.len() == 0 && self.workspaces.len() == 0
    }
}

impl Clone for AnnouncementRecord {
    fn clone(&self) -> (copy: AnnouncementRecord)
        ensures
            copy.sessions@ == self.sessions@,
            copy.workspaces@ == self.workspaces@,
    {
        let mut sessions: Vec<AnnouncedSession> = Vec::new();
        let mut next: usize = 0;
        while next < self.sessions.len()
            invariant
                next <= self.sessions@.len(),
                sessions@ == self.sessions@.take(next as int),
            decreases self.sessions@.len() - next,
        {
            sessions.push(self.sessions[next].clone());
            next += 1;
            assert(sessions@ =~= self.sessions@.take(next as int));
        }
        assert(sessions@ =~= self.sessions@);
        let mut workspaces: Vec<(String, AnnouncedWorkspaceState)> = Vec::new();
        next = 0;
        while next < self.workspaces.len()
            invariant
                next <= self.workspaces@.len(),
                workspaces@ == self.workspaces@.take(next as int),
            decreases self.workspaces@.len() - next,
        {
            workspaces.push((self.workspaces[next].0.clone(), self.workspaces[next].1));
            next += 1;
            assert(workspaces@ =~= self.workspaces@.take(next as int));
        }
        assert(workspaces@ =~= self.workspaces@);
        AnnouncementRecord { sessions, workspaces }
    }
}

impl Default for AnnouncementRecord {
    fn default() -> (record: AnnouncementRecord)
        ensures
            unwritten(record),
    {
        AnnouncementRecord::empty()
    }
}

/// The version of the record's form that is written, and the only one that is understood.
pub const NOTIFIED_SCHEMA_VERSION: u32 = 1;

/// Why a run began with an empty record.
#[derive(Debug, PartialEq, Eq)]
pub enum Rebuilt {
    NothingRecorded,
    Unreadable(String),
    Unparsable(String),
    UnknownVersion { found: u32, understood: u32 },
}

impl Rebuilt {
    /// The reason in words.
    pub open spec fn words(self) -> Seq<char> {
        match self {
            Rebuilt::NothingRecorded =>
                "no record of what has already been announced was found, so this run started with an empty one"@,
            Rebuilt::Unreadable(why) =>
                "the record of what has already been announced could not be read ("@ + why@ + ")"@,
            Rebuilt::Unparsable(why) =>
                "the record of what has already been announced could not be understood ("@ + why@
                + ")"@,
            Rebuilt::UnknownVersion { found, understood } =>
                "the record of what has already been announced is schema version "@ + text::decimal(
                found as nat,
            ) + ", and this acmon understands "@ + text::decimal(understood as nat),
        }
    }

    /// The reason in words.
    pub fn to_text(&self) -> (words: String)
        ensures
            words@ == self.words(),
    {
        match self {
            Rebuilt::NothingRecorded => String::from_str(
                "no record of what has already been announced was found, so this run started with an empty one",
            ),
            Rebuilt::Unreadable(why) => String::from_str(
                "the record of what has already been announced could not be read (",
            ).concat(why.as_str()).concat(")"),
            Rebuilt::Unparsable(why) => String::from_str(
                "the record of what has already been announced could not be understood (",
            ).concat(why.as_str()).concat(")"),
            Rebuilt::UnknownVersion { found, understood } => String::from_str(
                "the record of what has already been announced is schema version ",
            ).concat(text::decimal_of(*found as u128).as_str()).concat(
                ", and this acmon understands ",
            ).concat(text::decimal_of(*understood as u128).as_str()),
        }
    }
}

/// The record as it is stored.
#[derive(Debug, PartialEq, Eq)]
pub struct NotifiedFile {
    pub version: u32,
    pub record: AnnouncementRecord,
}

/// The record with the version it is written in.
pub fn serialise(record: AnnouncementRecord) -> (file: NotifiedFile)
    ensures
        file == (NotifiedFile { version: NOTIFIED_SCHEMA_VERSION, record }),
{
    NotifiedFile { version: NOTIFIED_SCHEMA_VERSION, record }
}

/// Whether nothing is on record.
pub open spec fn unwritten(record: AnnouncementRecord) -> bool {
    record.sessions@.len() == 0 && record.workspaces@.len() == 0
}

/// The record in a file that was decoded, or an empty one and the reason: it could not be decoded,
/// or it is of a version nobody here understands.
pub open spec fn is_parsed(
    decoded: Result<NotifiedFile, String>,
    read: (AnnouncementRecord, Option<Rebuilt>),
) -> bool {
    match decoded {
        Ok(file) => if file.version == NOTIFIED_SCHEMA_VERSION {
            read == (file.record, None::<Rebuilt>)
        } else {
            unwritten(read.0) && read.1 == Some(
                Rebuilt::UnknownVersion {
                    found: file.version,
                    understood: NOTIFIED_SCHEMA_VERSION,
                },
            )
        },
        Err(why) => unwritten(read.0) && read.1 == Some(Rebuilt::Unparsable(why)),
    }
}

/// The record in a file that was decoded, or an empty one and the reason.
pub fn parse(decoded: Result<NotifiedFile, String>) -> (read: (
    AnnouncementRecord,
    Option<Rebuilt>,
))
    ensures
        is_parsed(decoded, read),
{
    match decoded {
        Ok(file) => if file.version != NOTIFIED_SCHEMA_VERSION {
            (
                AnnouncementRecord::empty(),
                Some(
                    Rebuilt::UnknownVersion {
                        found: file.version,
                        understood: NOTIFIED_SCHEMA_VERSION,
                    },
                ),
            )
        } else {
            (file.record, None)
        },
        Err(why) => (AnnouncementRecord::empty(), Some(Rebuilt::Unparsable(why))),
    }
}

/// What came of reading the record that earlier runs left.
#[derive(Debug, PartialEq, Eq)]
pub enum NotifiedRead {
    /// A file was there, and this came of decoding it.
    Found(Result<NotifiedFile, String>),
    Absent,
    Unreadable(String),
}

/// Whether a run begins with the record that it read. Where there is none that can be used it begins
/// with an empty one and gives the reason, be it only that nothing was recorded yet.
pub open spec fn is_recalled(
    read: NotifiedRead,
    begun: (AnnouncementRecord, Option<Rebuilt>),
) -> bool {
    match read {
        NotifiedRead::Found(decoded) => is_parsed(decoded, begun),
        NotifiedRead::Absent => unwritten(begun.0) && begun.1 == Some(Rebuilt::NothingRecorded),
        NotifiedRead::Unreadable(why) => unwritten(begun.0) && begun.1 == Some(
            Rebuilt::Unreadable(why),
        ),
    }
}

/// The record that a run begins with.
pub fn recall(read: NotifiedRead) -> (begun: (AnnouncementRecord, Option<Rebuilt>))
    ensures
        is_recalled(read, begun),
{
    match read {
        NotifiedRead::Found(decoded) => parse(decoded),
        NotifiedRead::Absent => (AnnouncementRecord::empty(), Some(Rebuilt::NothingRecorded)),
        NotifiedRead::Unreadable(why) => (
            AnnouncementRecord::empty(),
            Some(Rebuilt::Unreadable(why)),
        ),
    }
}

/// A record that was written is the record that is read.
pub proof fn law_a_written_record_reads_back(
    record: AnnouncementRecord,
    read: (AnnouncementRecord, Option<Rebuilt>),
)
    requires
        is_parsed(Ok(NotifiedFile { version: NOTIFIED_SCHEMA_VERSION, record }), read),
    ensures
        read == (record, None::<Rebuilt>),
{
}

/// Something to tell somebody.
#[derive(Debug, PartialEq, Eq)]
pub enum Announcement {
    SessionWaiting { cli: String, recorded_as: String, workspace_path: Option<String> },
    WorkspaceStranded { path: String, uncommitted_entries: Option<usize> },
    WorkspaceUnknownAtRisk { path: String, reason: String },
}

/// What an announcement says.
pub enum Notice {
    SessionWaiting {
        cli: Seq<char>,
        recorded_as: Seq<char>,
        workspace_path: Option<Seq<char>>,
    },
    WorkspaceStranded { path: Seq<char>, uncommitted_entries: Option<usize> },
    WorkspaceUnknownAtRisk { path: Seq<char>, reason: Seq<char> },
}

impl View for Announcement {
    type V = Notice;

    open spec fn view(&self) -> Notice {
        match *self {
            Announcement::SessionWaiting { cli, recorded_as, workspace_path } => {
                Notice::SessionWaiting {
                    cli: cli@,
                    recorded_as: recorded_as@,
                    workspace_path: match workspace_path {
                        Some(path) => Some(path@),
                        None => None,
                    },
                }
            },
            Announcement::WorkspaceStranded { path, uncommitted_entries } => {
                Notice::WorkspaceStranded { path: path@, uncommitted_entries }
            },
            Announcement::WorkspaceUnknownAtRisk { path, reason } => {
                Notice::WorkspaceUnknownAtRisk { path: path@, reason: reason@ }
            },
        }
    }
}

impl Notice {
    /// The words that are sent.
    pub open spec fn words(self) -> Seq<char> {
        match self {
            Notice::SessionWaiting { cli, recorded_as, workspace_path } => {
                let waiting = "Session "@ + cli + " "@ + recorded_as + " is WAITING"@;
                match workspace_path {
                    Some(path) => waiting + " in "@ + path,
                    None => waiting,
                }
            },
            Notice::WorkspaceStranded { path, uncommitted_entries } => match uncommitted_entries {
                Some(count) => "Workspace "@ + path + " is STRANDED with "@ + text::decimal(
                    count as nat,
                ) + " uncommitted entries"@,
                None => "Workspace "@ + path
                    + " is STRANDED, and how many entries are uncommitted could not be read"@,
            },
            Notice::WorkspaceUnknownAtRisk { path, reason } => "Workspace "@ + path
                + " is at risk (version control: "@ + reason + ")"@,
        }
    }
}

impl Announcement {
    /// The words that are sent.
    pub fn payload(&self) -> (words: String)
        ensures
            words@ == self@.words(),
    {
        match self {
            Announcement::SessionWaiting { cli, recorded_as, workspace_path } => {
                let waiting = String::from_str("Session ").concat(cli.as_str()).concat(" ").concat(
                    recorded_as.as_str(),
                ).concat(" is WAITING");
                match workspace_path {
                    Some(path) => waiting.concat(" in ").concat(path.as_str()),
                    None => waiting,
                }
            },
            Announcement::WorkspaceStranded { path, uncommitted_entries } => {
                match uncommitted_entries {
                    Some(count) => String::from_str("Workspace ").concat(path.as_str()).concat(
                        " is STRANDED with ",
                    ).concat(text::count_of(*count).as_str()).concat(" uncommitted entries"),
                    None => String::from_str("Workspace ").concat(path.as_str()).concat(
                        " is STRANDED, and how many entries are uncommitted could not be read",
                    ),
                }
            },
            Announcement::WorkspaceUnknownAtRisk { path, reason } => String::from_str(
                "Workspace ",
            ).concat(path.as_str()).concat(" is at risk (version control: ").concat(
                reason.as_str(),
            ).concat(")"),
        }
    }
}

// --- What is worth announcing ------------------------------------------------------------------

/// The state a session is announced in, if it is.
pub open spec fn notable_session(session: Session) -> Option<AnnouncedSessionState> {
    if session.liveness.state == State::Waiting {
        Some(AnnouncedSessionState::Waiting)
    } else {
        None
    }
}

/// The state a workspace is announced in, if it is.
pub open spec fn notable_workspace(workspace: WorkspaceReport) -> Option<AnnouncedWorkspaceState> {
    match workspace.state {
        WorkspaceState::DirtyStranded => Some(AnnouncedWorkspaceState::DirtyStranded),
        WorkspaceState::Unknown(Unreadable::QueryFailed(_)) => Some(
            AnnouncedWorkspaceState::UnknownAtRisk,
        ),
        WorkspaceState::Unknown(Unreadable::TimedOut) => Some(
            AnnouncedWorkspaceState::UnknownAtRisk,
        ),
        _ => None,
    }
}

/// A workspace is announced exactly if it is at risk.
pub proof fn law_what_is_at_risk_is_announced(workspace: WorkspaceReport)
    ensures
        notable_workspace(workspace) is Some <==> workspace.state.risky(),
{
}

fn notable_session_state(session: &Session) -> (state: Option<AnnouncedSessionState>)
    ensures
        state == notable_session(*session),
{
    match session.liveness.state {
        State::Waiting => Some(AnnouncedSessionState::Waiting),
        _ => None,
    }
}

fn notable_workspace_state(workspace: &WorkspaceReport) -> (state: Option<AnnouncedWorkspaceState>)
    ensures
        state == notable_workspace(*workspace),
{
    match &workspace.state {
        WorkspaceState::DirtyStranded => Some(AnnouncedWorkspaceState::DirtyStranded),
        WorkspaceState::Unknown(Unreadable::QueryFailed(_)) => Some(
            AnnouncedWorkspaceState::UnknownAtRisk,
        ),
        WorkspaceState::Unknown(Unreadable::TimedOut) => Some(
            AnnouncedWorkspaceState::UnknownAtRisk,
        ),
        _ => None,
    }
}

// --- What has been announced already -----------------------------------------------------------

/// Whether an entry is about a session.
pub open spec fn about_session(cli: Seq<char>, recorded_as: Seq<char>) -> spec_fn(
    AnnouncedSession,
) -> bool {
    |entry: AnnouncedSession| entry.cli@ == cli && entry.recorded_as@ == recorded_as
}

/// Whether an entry is about a workspace, the case of its path aside.
pub open spec fn about_workspace(path: Seq<char>) -> spec_fn(
    (String, AnnouncedWorkspaceState),
) -> bool {
    |entry: (String, AnnouncedWorkspaceState)| text::same_but_case(entry.0@, path)
}

/// The state a session was last announced in.
pub open spec fn told_of_session(
    record: Seq<AnnouncedSession>,
    cli: Seq<char>,
    recorded_as: Seq<char>,
) -> Option<AnnouncedSessionState> {
    match order::first_where(record, about_session(cli, recorded_as)) {
        Some(at) => Some(record[at].state),
        None => None,
    }
}

/// The state a workspace was last announced in.
pub open spec fn told_of_workspace(
    record: Seq<(String, AnnouncedWorkspaceState)>,
    path: Seq<char>,
) -> Option<AnnouncedWorkspaceState> {
    match order::first_where(record, about_workspace(path)) {
        Some(at) => Some(record[at].1),
        None => None,
    }
}

fn announced_session(record: &Vec<AnnouncedSession>, cli: &str, recorded_as: &str) -> (state:
    Option<AnnouncedSessionState>)
    ensures
        state == told_of_session(record@, cli@, recorded_as@),
{
    let ghost wanted = about_session(cli@, recorded_as@);
    let mut next: usize = 0;
    while next < record.len()
        invariant
            next <= record@.len(),
            wanted == about_session(cli@, recorded_as@),
            forall|i: int| 0 <= i < next ==> !wanted(#[trigger] record@[i]),
        decreases record@.len() - next,
    {
        if text::same(record[next].cli.as_str(), cli) && text::same(
            record[next].recorded_as.as_str(),
            recorded_as,
        ) {
            proof {
                order::lemma_is_first(record@, wanted, next as int);
            }
            return Some(record[next].state);
        }
        next += 1;
    }
    proof {
        order::lemma_is_nowhere(record@, wanted);
    }
    None
}

fn announced_workspace(record: &Vec<(String, AnnouncedWorkspaceState)>, path: &str) -> (state:
    Option<AnnouncedWorkspaceState>)
    ensures
        state == told_of_workspace(record@, path@),
{
    let ghost wanted = about_workspace(path@);
    let mut next: usize = 0;
    while next < record.len()
        invariant
            next <= record@.len(),
            wanted == about_workspace(path@),
            forall|i: int| 0 <= i < next ==> !wanted(#[trigger] record@[i]),
        decreases record@.len() - next,
    {
        if text::same_ignoring_case(record[next].0.as_str(), path) {
            proof {
                order::lemma_is_first(record@, wanted, next as int);
            }
            return Some(record[next].1);
        }
        next += 1;
    }
    proof {
        order::lemma_is_nowhere(record@, wanted);
    }
    None
}

// --- The decision ------------------------------------------------------------------------------

/// What has to be said of a session: it is waiting, it can be named, and nobody was told.
pub open spec fn session_notice(session: Session, told: Seq<AnnouncedSession>) -> Option<Notice> {
    match (memory::recorded_name(session), notable_session(session)) {
        (Some(recorded_as), Some(state)) => if told_of_session(
            told,
            session.cli@,
            recorded_as@,
        ) != Some(state) {
            Some(
                Notice::SessionWaiting {
                    cli: session.cli@,
                    recorded_as: recorded_as@,
                    workspace_path: match session.workspace {
                        Ok(workspace) => Some(workspace.path@),
                        Err(_) => None,
                    },
                },
            )
        } else {
            None
        },
        _ => None,
    }
}

/// What has to be said of a workspace: it is at risk in a way nobody was told.
pub open spec fn workspace_notice(
    workspace: WorkspaceReport,
    told: Seq<(String, AnnouncedWorkspaceState)>,
) -> Option<Notice> {
    match notable_workspace(workspace) {
        Some(state) => if told_of_workspace(told, workspace.path@) == Some(state) {
            None
        } else if state == AnnouncedWorkspaceState::DirtyStranded {
            Some(
                Notice::WorkspaceStranded {
                    path: workspace.path@,
                    uncommitted_entries: workspace.uncommitted_entries,
                },
            )
        } else {
            Some(
                Notice::WorkspaceUnknownAtRisk {
                    path: workspace.path@,
                    reason: match workspace.state {
                        WorkspaceState::Unknown(why) => why.words(),
                        _ => "unknown"@,
                    },
                },
            )
        },
        None => None,
    }
}

/// The notices of several sessions, in their order.
pub open spec fn session_notices(sessions: Seq<Session>, told: Seq<AnnouncedSession>) -> Seq<Notice>
    decreases sessions.len(),
{
    if sessions.len() == 0 {
        Seq::empty()
    } else {
        let before = session_notices(sessions.drop_last(), told);
        match session_notice(sessions.last(), told) {
            Some(notice) => before.push(notice),
            None => before,
        }
    }
}

/// The notices of several workspaces, in their order.
pub open spec fn workspace_notices(
    workspaces: Seq<WorkspaceReport>,
    told: Seq<(String, AnnouncedWorkspaceState)>,
) -> Seq<Notice>
    decreases workspaces.len(),
{
    if workspaces.len() == 0 {
        Seq::empty()
    } else {
        let before = workspace_notices(workspaces.drop_last(), told);
        match workspace_notice(workspaces.last(), told) {
            Some(notice) => before.push(notice),
            None => before,
        }
    }
}

/// Every session that is worth announcing, announced now or before.
pub open spec fn sessions_told(sessions: Seq<Session>) -> Seq<AnnouncedSession>
    decreases sessions.len(),
{
    if sessions.len() == 0 {
        Seq::empty()
    } else {
        let before = sessions_told(sessions.drop_last());
        match (memory::recorded_name(sessions.last()), notable_session(sessions.last())) {
            (Some(recorded_as), Some(state)) => before.push(
                AnnouncedSession { cli: sessions.last().cli, recorded_as, state },
            ),
            _ => before,
        }
    }
}

/// Every workspace that is worth announcing, announced now or before.
pub open spec fn workspaces_told(workspaces: Seq<WorkspaceReport>) -> Seq<
    (String, AnnouncedWorkspaceState),
>
    decreases workspaces.len(),
{
    if workspaces.len() == 0 {
        Seq::empty()
    } else {
        let before = workspaces_told(workspaces.drop_last());
        match notable_workspace(workspaces.last()) {
            Some(state) => before.push((workspaces.last().path, state)),
            None => before,
        }
    }
}

/// What several announcements say.
pub open spec fn notices(announcements: Seq<Announcement>) -> Seq<Notice> {
    announcements.map_values(|one: Announcement| one@)
}

/// Whether this is what is announced, and what is then on record as announced.
pub open spec fn is_decision(
    announced: Seq<Announcement>,
    record: AnnouncementRecord,
    sessions: Seq<Session>,
    workspaces: Seq<WorkspaceReport>,
    previous: AnnouncementRecord,
) -> bool {
    &&& notices(announced) == session_notices(sessions, previous.sessions@) + workspace_notices(
        workspaces,
        previous.workspaces@,
    )
    &&& record.sessions@ == sessions_told(sessions)
    &&& record.workspaces@ == workspaces_told(workspaces)
}

/// Decides what to announce, and what will then have been announced: every condition that holds now
/// and is worth announcing, and nothing that no longer holds.
pub fn decide(
    sessions: &Vec<Session>,
    workspaces: &Vec<WorkspaceReport>,
    previous: &AnnouncementRecord,
) -> (decided: (Vec<Announcement>, AnnouncementRecord))
    ensures
        is_decision(decided.0@, decided.1, sessions@, workspaces@, *previous),
{
    let mut announcements: Vec<Announcement> = Vec::new();
    let mut updated_sessions: Vec<AnnouncedSession> = Vec::new();
    let mut updated_workspaces: Vec<(String, AnnouncedWorkspaceState)> = Vec::new();
    let mut next: usize = 0;
    assert(sessions@.take(0) =~= Seq::<Session>::empty());
    assert(notices(announcements@) =~= Seq::<Notice>::empty());
    while next < sessions.len()
        invariant
            next <= sessions@.len(),
            notices(announcements@) == session_notices(
                sessions@.take(next as int),
                previous.sessions@,
            ),
            updated_sessions@ == sessions_told(sessions@.take(next as int)),
        decreases sessions@.len() - next,
    {
        let session: &Session = &sessions[next];
        let ghost before = notices(announcements@);
        assert(sessions@.take(next + 1).drop_last() =~= sessions@.take(next as int));
        assert(sessions@.take(next + 1).last() == *session);
        match (memory::recorded_under(session), notable_session_state(session)) {
            (Some(recorded_as), Some(state)) => {
                let told = announced_session(
                    &previous.sessions,
                    session.cli.as_str(),
                    recorded_as.as_str(),
                );
                let known: bool = match told {
                    Some(earlier) => earlier == state,
                    None => false,
                };
                if !known {
                    let announcement = Announcement::SessionWaiting {
                        cli: session.cli.clone(),
                        recorded_as: recorded_as.clone(),
                        workspace_path: match &session.workspace {
                            Ok(workspace) => Some(workspace.path.clone()),
                            Err(_) => None,
                        },
                    };
                    let ghost notice = announcement@;
                    announcements.push(announcement);
                    assert(notices(announcements@) =~= before.push(notice));
                }
                updated_sessions.push(
                    AnnouncedSession {
                        cli: session.cli.clone(),
                        recorded_as: recorded_as.clone(),
                        state,
                    },
                );
            },
            _ => {},
        }
        next += 1;
    }
    assert(sessions@.take(next as int) =~= sessions@);
    let ghost of_sessions = session_notices(sessions@, previous.sessions@);
    let mut next: usize = 0;
    assert(workspaces@.take(0) =~= Seq::<WorkspaceReport>::empty());
    assert(of_sessions + Seq::<Notice>::empty() =~= of_sessions);
    while next < workspaces.len()
        invariant
            next <= workspaces@.len(),
            notices(announcements@) == of_sessions + workspace_notices(
                workspaces@.take(next as int),
                previous.workspaces@,
            ),
            updated_workspaces@ == workspaces_told(workspaces@.take(next as int)),
        decreases workspaces@.len() - next,
    {
        let workspace: &WorkspaceReport = &workspaces[next];
        let ghost before = notices(announcements@);
        let ghost earlier = workspace_notices(
            workspaces@.take(next as int),
            previous.workspaces@,
        );
        assert(workspaces@.take(next + 1).drop_last() =~= workspaces@.take(next as int));
        assert(workspaces@.take(next + 1).last() == *workspace);
        if let Some(state) = notable_workspace_state(workspace) {
            let told = announced_workspace(&previous.workspaces, workspace.path.as_str());
            let known: bool = match told {
                Some(earlier) => earlier == state,
                None => false,
            };
            if !known {
                let announcement = match state {
                    AnnouncedWorkspaceState::DirtyStranded => Announcement::WorkspaceStranded {
                        path: workspace.path.clone(),
                        uncommitted_entries: workspace.uncommitted_entries,
                    },
                    AnnouncedWorkspaceState::UnknownAtRisk => {
                        Announcement::WorkspaceUnknownAtRisk {
                            path: workspace.path.clone(),
                            reason: match &workspace.state {
                                WorkspaceState::Unknown(why) => String::from_str(why.to_text()),
                                _ => String::from_str("unknown"),
                            },
                        }
                    },
                };
                let ghost notice = announcement@;
                announcements.push(announcement);
                assert(notices(announcements@) =~= before.push(notice));
                assert(before.push(notice) =~= of_sessions + earlier.push(notice));
            }
            updated_workspaces.push((workspace.path.clone(), state));
        }
        next += 1;
    }
    assert(workspaces@.take(next as int) =~= workspaces@);
    (announcements, AnnouncementRecord { sessions: updated_sessions, workspaces: updated_workspaces })
}

// --- What holds of announcing over several runs --------------------------------------------------

/// A session that waits and can be named stands on the record that is made of it.
pub proof fn lemma_every_waiting_session_is_told(sessions: Seq<Session>, at: int)
    requires
        0 <= at < sessions.len(),
        memory::recorded_name(sessions[at]) is Some,
        notable_session(sessions[at]) is Some,
    ensures
        told_of_session(
            sessions_told(sessions),
            sessions[at].cli@,
            memory::recorded_name(sessions[at])->0@,
        ) == notable_session(sessions[at]),
    decreases sessions.len(),
{
    let cli = sessions[at].cli@;
    let name = memory::recorded_name(sessions[at])->0@;
    let wanted = about_session(cli, name);
    let all = sessions_told(sessions);
    assert(exists|i: int| 0 <= i < all.len() && wanted(#[trigger] all[i])) by {
        lemma_told_at(sessions, at);
    }
    order::lemma_first_where(all, wanted);
}

proof fn lemma_told_at(sessions: Seq<Session>, at: int)
    requires
        0 <= at < sessions.len(),
        memory::recorded_name(sessions[at]) is Some,
        notable_session(sessions[at]) is Some,
    ensures
        exists|i: int|
            0 <= i < sessions_told(sessions).len() && (#[trigger] sessions_told(sessions)[i]).cli@
                == sessions[at].cli@ && sessions_told(sessions)[i].recorded_as@
                == memory::recorded_name(sessions[at])->0@,
    decreases sessions.len(),
{
    let before = sessions_told(sessions.drop_last());
    let all = sessions_told(sessions);
    if at == sessions.len() - 1 {
        assert(all[before.len() as int].cli@ == sessions[at].cli@);
    } else {
        lemma_told_at(sessions.drop_last(), at);
        let i = choose|i: int|
            0 <= i < before.len() && (#[trigger] before[i]).cli@ == sessions[at].cli@
                && before[i].recorded_as@ == memory::recorded_name(sessions[at])->0@;
        assert(all[i] == before[i]);
    }
}

proof fn lemma_told_workspaces(workspaces: Seq<WorkspaceReport>, i: int)
    requires
        0 <= i < workspaces_told(workspaces).len(),
    ensures
        exists|k: int|
            0 <= k < workspaces.len() && (#[trigger] workspaces[k]).path
                == workspaces_told(workspaces)[i].0 && notable_workspace(workspaces[k]) == Some(
                workspaces_told(workspaces)[i].1,
            ),
    decreases workspaces.len(),
{
    let before = workspaces_told(workspaces.drop_last());
    if i < before.len() {
        lemma_told_workspaces(workspaces.drop_last(), i);
        let k = choose|k: int|
            0 <= k < workspaces.drop_last().len() && (#[trigger] workspaces.drop_last()[k]).path
                == before[i].0 && notable_workspace(workspaces.drop_last()[k]) == Some(before[i].1);
        assert(workspaces[k].path == workspaces_told(workspaces)[i].0);
    } else {
        let k = workspaces.len() - 1;
        assert(workspaces[k].path == workspaces_told(workspaces)[i].0);
    }
}

proof fn lemma_workspace_told_at(workspaces: Seq<WorkspaceReport>, at: int)
    requires
        0 <= at < workspaces.len(),
        notable_workspace(workspaces[at]) is Some,
    ensures
        exists|i: int|
            0 <= i < workspaces_told(workspaces).len() && (
            #[trigger] workspaces_told(workspaces)[i]).0 == workspaces[at].path,
    decreases workspaces.len(),
{
    let before = workspaces_told(workspaces.drop_last());
    let all = workspaces_told(workspaces);
    if at == workspaces.len() - 1 {
        assert(all[before.len() as int].0 == workspaces[at].path);
    } else {
        lemma_workspace_told_at(workspaces.drop_last(), at);
        let i = choose|i: int| 0 <= i < before.len() && (#[trigger] before[i]).0 == workspaces[at].path;
        assert(all[i] == before[i]);
    }
}

/// Whether no two workspaces have the same path, case aside.
pub open spec fn paths_differ(workspaces: Seq<WorkspaceReport>) -> bool {
    forall|i: int, j: int|
        0 <= i < j < workspaces.len() ==> !text::same_but_case(
            (#[trigger] workspaces[i]).path@,
            (#[trigger] workspaces[j]).path@,
        )
}

/// A workspace at risk stands on the record that is made of it.
pub proof fn lemma_every_risk_is_told(workspaces: Seq<WorkspaceReport>, at: int)
    requires
        0 <= at < workspaces.len(),
        notable_workspace(workspaces[at]) is Some,
        paths_differ(workspaces),
    ensures
        told_of_workspace(workspaces_told(workspaces), workspaces[at].path@) == notable_workspace(
            workspaces[at],
        ),
{
    let all = workspaces_told(workspaces);
    let wanted = about_workspace(workspaces[at].path@);
    lemma_workspace_told_at(workspaces, at);
    let i = choose|i: int| 0 <= i < all.len() && (#[trigger] all[i]).0 == workspaces[at].path;
    assert(wanted(all[i]));
    order::lemma_first_where(all, wanted);
    let first = order::first_where(all, wanted)->0;
    lemma_told_workspaces(workspaces, first);
    let k = choose|k: int|
        0 <= k < workspaces.len() && (#[trigger] workspaces[k]).path == all[first].0
            && notable_workspace(workspaces[k]) == Some(all[first].1);
    if k < at {
        assert(!text::same_but_case(workspaces[k].path@, workspaces[at].path@));
    } else if at < k {
        assert(!text::same_but_case(workspaces[at].path@, workspaces[k].path@));
    }
}

proof fn lemma_no_session_notices(sessions: Seq<Session>, told: Seq<AnnouncedSession>)
    requires
        forall|i: int| 0 <= i < sessions.len() ==> session_notice(#[trigger] sessions[i], told) is None,
    ensures
        session_notices(sessions, told).len() == 0,
    decreases sessions.len(),
{
    if sessions.len() > 0 {
        assert(session_notice(sessions[sessions.len() - 1], told) is None);
        assert forall|i: int| 0 <= i < sessions.drop_last().len() implies session_notice(
            #[trigger] sessions.drop_last()[i],
            told,
        ) is None by {
            assert(sessions.drop_last()[i] == sessions[i]);
        }
        lemma_no_session_notices(sessions.drop_last(), told);
    }
}

proof fn lemma_no_workspace_notices(
    workspaces: Seq<WorkspaceReport>,
    told: Seq<(String, AnnouncedWorkspaceState)>,
)
    requires
        forall|i: int|
            0 <= i < workspaces.len() ==> workspace_notice(#[trigger] workspaces[i], told) is None,
    ensures
        workspace_notices(workspaces, told).len() == 0,
    decreases workspaces.len(),
{
    if workspaces.len() > 0 {
        assert(workspace_notice(workspaces[workspaces.len() - 1], told) is None);
        assert forall|i: int| 0 <= i < workspaces.drop_last().len() implies workspace_notice(
            #[trigger] workspaces.drop_last()[i],
            told,
        ) is None by {
            assert(workspaces.drop_last()[i] == workspaces[i]);
        }
        lemma_no_workspace_notices(workspaces.drop_last(), told);
    }
}

/// A condition that was announced and has not changed is not announced again.
pub proof fn law_nothing_is_announced_twice(
    sessions: Seq<Session>,
    workspaces: Seq<WorkspaceReport>,
)
    requires
        paths_differ(workspaces),
    ensures
        session_notices(sessions, sessions_told(sessions)).len() == 0,
        workspace_notices(workspaces, workspaces_told(workspaces)).len() == 0,
{
    let told = sessions_told(sessions);
    assert forall|i: int| 0 <= i < sessions.len() implies session_notice(
        #[trigger] sessions[i],
        told,
    ) is None by {
        if memory::recorded_name(sessions[i]) is Some && notable_session(sessions[i]) is Some {
            lemma_every_waiting_session_is_told(sessions, i);
        }
    }
    lemma_no_session_notices(sessions, told);
    let told = workspaces_told(workspaces);
    assert forall|i: int| 0 <= i < workspaces.len() implies workspace_notice(
        #[trigger] workspaces[i],
        told,
    ) is None by {
        if notable_workspace(workspaces[i]) is Some {
            lemma_every_risk_is_told(workspaces, i);
        }
    }
    lemma_no_workspace_notices(workspaces, told);
}

/// A condition that went away leaves the record, so that it is announced again when it comes back:
/// whatever the record holds is a condition that held in that run.
pub proof fn law_a_condition_that_comes_back_is_announced_again(
    then: Seq<WorkspaceReport>,
    back: WorkspaceReport,
)
    requires
        notable_workspace(back) is Some,
        forall|i: int|
            0 <= i < then.len() ==> notable_workspace(#[trigger] then[i]) is None
                || !text::same_but_case(then[i].path@, back.path@),
    ensures
        workspace_notice(back, workspaces_told(then)) is Some,
{
    let all = workspaces_told(then);
    let wanted = about_workspace(back.path@);
    assert forall|i: int| 0 <= i < all.len() implies !wanted(#[trigger] all[i]) by {
        lemma_told_workspaces(then, i);
        let k = choose|k: int|
            0 <= k < then.len() && (#[trigger] then[k]).path == all[i].0 && notable_workspace(
                then[k],
            ) == Some(all[i].1);
        assert(notable_workspace(then[k]) is Some);
    }
    order::lemma_is_nowhere(all, wanted);
}

} // verus!
