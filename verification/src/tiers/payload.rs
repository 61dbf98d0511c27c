//! What each tier publishes for the display, and what the display makes of it.

use crate::collect::{Identity, Role, Session, Snapshot, WorkspaceReport};
use crate::isotime;
use crate::meter;
use crate::meter::{Measured, PassReport, SelfReport, Share};
use crate::order;
use crate::schedule::{Budgets, Coverage};
use crate::starts::{Launch, StartRecord};
use crate::state::{Tier, TieredState};
use crate::text;
use crate::tiers::{Observed, Pass, ReadVcs};
use crate::tiers::machine;
use crate::time::{Duration, SystemTime};
use crate::vcs::WorkspaceState;
use crate::world::{LoadAverage, Resources, Unmeasured};
use vstd::prelude::*;

verus! {

// --- What is published -------------------------------------------------------------------------

/// What every tier publishes of its pass.
#[derive(Debug, PartialEq, Eq)]
pub struct PassEnvelope {
    pub tier: String,
    pub sequence: u64,
    pub started_at: String,
    pub took_ms: u128,
    pub budget_ms: u128,
    pub overran: Option<String>,
    pub load: Measured<LoadAverage>,
    pub every_tier_has_run: bool,
    pub announcing: bool,
}

/// A session, as it is published.
#[derive(Debug, PartialEq, Eq)]
pub struct SessionRow {
    pub pid: Option<i32>,
    pub recorded_as: Option<String>,
    pub cli: String,
    pub state: String,
    pub method: String,
    pub inferred: bool,
    pub unknown_why: Option<String>,
    pub unknown_is_structural: bool,
    pub workspace: Measured<String>,
    pub own_cpu_ms: Measured<u128>,
    pub children_cpu_ms: Measured<u128>,
    pub current_memory_bytes: Measured<u64>,
    pub peak_memory_bytes: Measured<u64>,
    pub bytes_written: Measured<u64>,
    /// Which reader answered.
    pub source: Measured<String>,
    /// When the figures were taken, where they are an earlier run's.
    pub remembered_at: Option<String>,
}

/// A workspace, as it is published.
#[derive(Debug, PartialEq, Eq)]
pub struct WorkspaceRow {
    pub path: String,
    pub state: String,
    pub at_risk: bool,
    pub unknown_why: Option<String>,
    pub uncommitted_entries: Option<usize>,
    pub linked_worktree: bool,
    /// When it was read, where it ever was.
    pub observed_at: Option<String>,
}

/// What came of announcing, as it is published.
#[derive(Debug, PartialEq, Eq)]
pub struct NotifyRow {
    pub notable: usize,
    pub delivered: usize,
    pub failed: usize,
    pub not_attempted: usize,
    pub reason: Option<String>,
    pub read_only: Option<String>,
}

/// What the fast tier publishes.
#[derive(Debug, PartialEq, Eq)]
pub struct FastPayload {
    pub pass: PassEnvelope,
    pub sessions: Vec<SessionRow>,
    pub monitor: SelfReport,
    pub launch: StartRecord,
    pub launch_not_recorded: Option<String>,
    pub notify: NotifyRow,
    pub silence_read_by: String,
}

/// What the medium tier publishes.
#[derive(Debug, PartialEq, Eq)]
pub struct MediumPayload {
    pub pass: PassEnvelope,
    pub directories_visited: usize,
    pub sweep_complete: bool,
    pub repositories_found: usize,
    pub unlocated: Vec<(String, String)>,
}

/// What the slow tier publishes.
#[derive(Debug, PartialEq, Eq)]
pub struct SlowPayload {
    pub pass: PassEnvelope,
    pub workspaces: Vec<WorkspaceRow>,
    pub at_risk: usize,
    pub read_this_pass: usize,
    pub never_read: usize,
    pub next_slice: usize,
}

// --- The envelope ------------------------------------------------------------------------------

/// Whether this is the envelope of a pass.
pub open spec fn is_envelope(
    envelope: PassEnvelope,
    pass: Pass,
    sequence: u64,
    observed: Observed,
) -> bool {
    &&& envelope.tier@ == meter::tier_word(pass.tier)
    &&& envelope.sequence == sequence
    &&& isotime::is_stamp(envelope.started_at@, isotime::whole_seconds(pass.observed_at))
    &&& envelope.took_ms == pass.took.millis()
    &&& envelope.budget_ms == Budgets::usual().allows(pass.tier).millis()
    &&& match envelope.overran {
        Some(words) => pass.completion.reason() == Some(words@),
        None => pass.completion.reason() is None,
    }
    &&& envelope.load == Measured::of(pass.load)
    &&& envelope.every_tier_has_run == observed.is_whole()
    &&& envelope.announcing == (pass.role is Monitor)
}

/// The envelope of a pass.
pub fn envelope(pass: &Pass, sequence: u64, observed: &Observed) -> (envelope: PassEnvelope)
    ensures
        is_envelope(envelope, *pass, sequence, *observed),
{
    PassEnvelope {
        tier: String::from_str(meter::tier_name(pass.tier)),
        sequence,
        started_at: isotime::timestamp(pass.observed_at),
        took_ms: pass.took.as_millis(),
        budget_ms: Budgets::standard().budget(pass.tier).as_millis(),
        overran: pass.completion.why(),
        load: match &pass.load {
            Ok(load) => Measured::known(*load),
            Err(why) => Measured::unavailable(why.clone()),
        },
        every_tier_has_run: observed.every_tier_has_run(),
        announcing: match pass.role {
            Role::Monitor => true,
            Role::Display => false,
        },
    }
}

// --- The fast tier -----------------------------------------------------------------------------

/// The figures of a session: this run's where it has any, an earlier run's where only that has.
pub open spec fn ledger(session: Session) -> Result<Resources, Seq<char>> {
    match session.resources {
        Ok(resources) => Ok(resources),
        Err(why) => match session.last_reading {
            Some(reading) => Ok(reading.resources),
            None => Err(why.words()),
        },
    }
}

/// When the figures of a session were taken, where they are an earlier run's.
pub open spec fn taken_earlier(session: Session) -> Option<SystemTime> {
    match (session.resources, session.last_reading) {
        (Err(_), Some(reading)) => Some(reading.taken_at),
        _ => None,
    }
}

/// One figure of a ledger, or why it is missing.
pub open spec fn figure<T>(
    ledger: Result<Resources, Seq<char>>,
    pick: spec_fn(Resources) -> Result<T, Unmeasured>,
) -> Result<T, Seq<char>> {
    match ledger {
        Ok(resources) => match pick(resources) {
            Ok(value) => Ok(value),
            Err(why) => Err(why.words()),
        },
        Err(why) => Err(why),
    }
}

/// A figure of time in whole milliseconds.
pub open spec fn in_millis(spent: Result<Duration, Unmeasured>) -> Result<u128, Unmeasured> {
    match spent {
        Ok(span) => Ok(span.millis() as u128),
        Err(why) => Err(why),
    }
}

/// Whether this is the row of a session.
pub open spec fn is_session_row(row: SessionRow, session: Session) -> bool {
    let figures = ledger(session);
    &&& match session.identity {
        Identity::Process { pid } => row.pid == Some(pid) && row.recorded_as is None,
        Identity::Transcript { recorded_as } => row.pid is None && row.recorded_as == Some(
            recorded_as,
        ),
    }
    &&& row.cli == session.cli
    &&& row.state@ == session.liveness.state.word()
    &&& row.method@ == session.liveness.method.words()
    &&& row.inferred == (session.liveness.method is ProcessResidentButSilent
        || session.liveness.method is WorkRunningInWorkspace)
    &&& match row.unknown_why {
        Some(words) => session.doubt() == Some((row.unknown_is_structural, words@)),
        None => session.doubt() is None && !row.unknown_is_structural,
    }
    &&& match session.workspace {
        Ok(workspace) => row.workspace.says(Ok(workspace.path)),
        Err(why) => row.workspace.says(Err(why.words())),
    }
    &&& row.own_cpu_ms.says(figure(figures, |r: Resources| in_millis(r.own_cpu)))
    &&& row.children_cpu_ms.says(figure(figures, |r: Resources| in_millis(r.children_cpu)))
    &&& row.current_memory_bytes.says(figure(figures, |r: Resources| r.current_memory))
    &&& row.peak_memory_bytes.says(figure(figures, |r: Resources| r.peak_memory))
    &&& row.bytes_written.says(figure(figures, |r: Resources| r.bytes_written))
    &&& match figures {
        Ok(resources) => row.source.value matches Some(source) && source@ == resources.source.word()
            && row.source.unavailable is None,
        Err(why) => row.source.says(Err(why)),
    }
    &&& match row.remembered_at {
        Some(stamp) => taken_earlier(session) is Some && isotime::is_stamp(
            stamp@,
            isotime::whole_seconds(taken_earlier(session)->0),
        ),
        None => taken_earlier(session) is None,
    }
}

fn millis_figure(spent: &Result<Duration, Unmeasured>) -> (measured: Measured<u128>)
    ensures
        match in_millis(*spent) {
            Ok(millis) => measured.says(Ok(millis)),
            Err(why) => measured.says(Err(why.words())),
        },
{
    match spent {
        Ok(span) => Measured::known(span.as_millis()),
        Err(why) => Measured::unavailable(String::from_str(why.to_text())),
    }
}

fn bytes_figure(bytes: &Result<u64, Unmeasured>) -> (measured: Measured<u64>)
    ensures
        match *bytes {
            Ok(count) => measured.says(Ok(count)),
            Err(why) => measured.says(Err(why.words())),
        },
{
    match bytes {
        Ok(count) => Measured::known(*count),
        Err(why) => Measured::unavailable(String::from_str(why.to_text())),
    }
}

/// The figures of a ledger, each a figure or a reason.
struct Figures {
    own_cpu: Measured<u128>,
    children_cpu: Measured<u128>,
    current_memory: Measured<u64>,
    peak_memory: Measured<u64>,
    bytes_written: Measured<u64>,
    source: Measured<String>,
}

fn figures_of(ledger: Result<Resources, String>) -> (figures: Figures)
    ensures
        match ledger {
            Ok(resources) => {
                &&& match in_millis(resources.own_cpu) {
                    Ok(millis) => figures.own_cpu.says(Ok(millis)),
                    Err(why) => figures.own_cpu.says(Err(why.words())),
                }
                &&& match in_millis(resources.children_cpu) {
                    Ok(millis) => figures.children_cpu.says(Ok(millis)),
                    Err(why) => figures.children_cpu.says(Err(why.words())),
                }
                &&& match resources.current_memory {
                    Ok(bytes) => figures.current_memory.says(Ok(bytes)),
                    Err(why) => figures.current_memory.says(Err(why.words())),
                }
                &&& match resources.peak_memory {
                    Ok(bytes) => figures.peak_memory.says(Ok(bytes)),
                    Err(why) => figures.peak_memory.says(Err(why.words())),
                }
                &&& match resources.bytes_written {
                    Ok(bytes) => figures.bytes_written.says(Ok(bytes)),
                    Err(why) => figures.bytes_written.says(Err(why.words())),
                }
                &&& figures.source.value matches Some(source) && source@ == resources.source.word()
                &&& figures.source.unavailable is None
            },
            Err(why) => {
                &&& figures.own_cpu.says(Err(why@))
                &&& figures.children_cpu.says(Err(why@))
                &&& figures.current_memory.says(Err(why@))
                &&& figures.peak_memory.says(Err(why@))
                &&& figures.bytes_written.says(Err(why@))
                &&& figures.source.says(Err(why@))
            },
        },
{
    match ledger {
        Ok(resources) => Figures {
            own_cpu: millis_figure(&resources.own_cpu),
            children_cpu: millis_figure(&resources.children_cpu),
            current_memory: bytes_figure(&resources.current_memory),
            peak_memory: bytes_figure(&resources.peak_memory),
            bytes_written: bytes_figure(&resources.bytes_written),
            source: Measured::known(String::from_str(resources.source.to_text())),
        },
        Err(why) => Figures {
            own_cpu: Measured::unavailable(why.clone()),
            children_cpu: Measured::unavailable(why.clone()),
            current_memory: Measured::unavailable(why.clone()),
            peak_memory: Measured::unavailable(why.clone()),
            bytes_written: Measured::unavailable(why.clone()),
            source: Measured::unavailable(why),
        },
    }
}

/// The row of a session.
pub fn session_row(session: &Session) -> (row: SessionRow)
    ensures
        is_session_row(row, *session),
{
    let (pid, recorded_as): (Option<i32>, Option<String>) = match &session.identity {
        Identity::Process { pid } => (Some(*pid), None),
        Identity::Transcript { recorded_as } => (None, Some(recorded_as.clone())),
    };
    let (unknown_why, unknown_is_structural): (Option<String>, bool) =
        match session.liveness_unknown() {
        Some(why) => (Some(why.to_text()), why.is_structural()),
        None => (None, false),
    };
    let (ledger, remembered_at): (Result<Resources, String>, Option<String>) = match (
        &session.resources,
        &session.last_reading,
    ) {
        (Ok(resources), _) => (Ok(*resources), None),
        (Err(_), Some(reading)) => (
            Ok(reading.resources),
            Some(isotime::timestamp(reading.taken_at)),
        ),
        (Err(why), None) => (Err(String::from_str(why.to_text())), None),
    };
    let workspace: Measured<String> = match &session.workspace {
        Ok(workspace) => Measured::known(workspace.path.clone()),
        Err(why) => Measured::unavailable(why.to_text()),
    };
    let figures: Figures = figures_of(ledger);
    SessionRow {
        pid,
        recorded_as,
        cli: session.cli.clone(),
        state: String::from_str(session.liveness.state.label()),
        method: String::from_str(session.liveness.method.to_text()),
        inferred: session.liveness.method.is_inferred(),
        unknown_why,
        unknown_is_structural,
        workspace,
        own_cpu_ms: figures.own_cpu,
        children_cpu_ms: figures.children_cpu,
        current_memory_bytes: figures.current_memory,
        peak_memory_bytes: figures.peak_memory,
        bytes_written: figures.bytes_written,
        source: figures.source,
        remembered_at,
    }
}

/// A figure that an earlier run took says so.
pub proof fn law_borrowed_figures_are_dated(row: SessionRow, session: Session)
    requires
        is_session_row(row, session),
    ensures
        row.remembered_at is Some <==> session.resources is Err && session.last_reading is Some,
        session.resources is Err && session.last_reading is None ==> row.own_cpu_ms.value is None
            && row.current_memory_bytes.value is None && row.peak_memory_bytes.value is None,
{
}

/// Whether what came of announcing can be added up.
pub open spec fn adds_up(snapshot: Snapshot) -> bool {
    let health = snapshot.remembered.notify_health;
    &&& health.local_delivered + health.remote_delivered <= usize::MAX
    &&& health.local_failed + health.remote_failed <= usize::MAX
    &&& health.local_not_attempted + health.remote_not_attempted <= usize::MAX
}

/// Whether what came of announcing can be added up.
pub fn can_be_added(snapshot: &Snapshot) -> (can: bool)
    ensures
        can == adds_up(*snapshot),
{
    let health = &snapshot.remembered.notify_health;
    health.local_delivered <= usize::MAX - health.remote_delivered && health.local_failed
        <= usize::MAX - health.remote_failed && health.local_not_attempted <= usize::MAX
        - health.remote_not_attempted
}

/// Whether this is what came of announcing.
pub open spec fn is_notify_row(row: NotifyRow, snapshot: Snapshot) -> bool {
    let health = snapshot.remembered.notify_health;
    &&& row.notable == health.notable
    &&& row.delivered == health.local_delivered + health.remote_delivered
    &&& row.failed == health.local_failed + health.remote_failed
    &&& row.not_attempted == health.local_not_attempted + health.remote_not_attempted
    &&& row.reason == health.not_attempted_reason
    &&& row.read_only == health.read_only
}

fn option_again(text: &Option<String>) -> (copy: Option<String>)
    ensures
        copy == *text,
{
    match text {
        Some(found) => Some(found.clone()),
        None => None,
    }
}

/// What came of announcing, over both channels.
pub fn notify_row(snapshot: &Snapshot) -> (row: NotifyRow)
    requires
        adds_up(*snapshot),
    ensures
        is_notify_row(row, *snapshot),
{
    let health = &snapshot.remembered.notify_health;
    NotifyRow {
        notable: health.notable,
        delivered: health.local_delivered + health.remote_delivered,
        failed: health.local_failed + health.remote_failed,
        not_attempted: health.not_attempted(),
        reason: option_again(&health.not_attempted_reason),
        read_only: option_again(&health.read_only),
    }
}

/// Whether these are the rows of the sessions.
pub open spec fn are_session_rows(rows: Seq<SessionRow>, sessions: Seq<Session>) -> bool {
    &&& rows.len() == sessions.len()
    &&& forall|i: int| 0 <= i < rows.len() ==> is_session_row(#[trigger] rows[i], sessions[i])
}

fn session_rows(sessions: &Vec<Session>) -> (rows: Vec<SessionRow>)
    ensures
        are_session_rows(rows@, sessions@),
{
    let mut rows: Vec<SessionRow> = Vec::new();
    let mut next: usize = 0;
    while next < sessions.len()
        invariant
            next <= sessions@.len(),
            rows@.len() == next,
            forall|i: int|
                0 <= i < rows@.len() ==> is_session_row(#[trigger] rows@[i], sessions@[i]),
        decreases sessions@.len() - next,
    {
        rows.push(session_row(&sessions[next]));
        next += 1;
    }
    rows
}

/// Whether this is what the fast tier publishes of a pass.
pub open spec fn is_fast_payload(
    payload: FastPayload,
    pass: Pass,
    sequence: u64,
    observed: Observed,
    monitor: SelfReport,
    launch: Launch,
) -> bool {
    &&& is_envelope(payload.pass, pass, sequence, observed)
    &&& payload.monitor == monitor
    &&& payload.launch == launch.record
    &&& payload.launch_not_recorded == launch.not_recorded
    &&& payload.silence_read_by@ == meter::tier_word(Tier::Medium)
    &&& match pass.snapshot {
        Ok(snapshot) => are_session_rows(payload.sessions@, snapshot.sessions@)
            && is_notify_row(payload.notify, snapshot),
        Err(_) => {
            &&& payload.sessions@.len() == 0
            &&& payload.notify.notable == 0
            &&& payload.notify.delivered == 0
            &&& payload.notify.failed == 0
            &&& payload.notify.not_attempted == 0
            &&& payload.notify.reason matches Some(why) && why@
                == "the collection failed, so nothing was decided or delivered"@
            &&& payload.notify.read_only is None
        },
    }
}

/// What the fast tier publishes: every session, what the monitor costs, how it was launched, and what
/// came of announcing. A collection that failed publishes no session and says why nothing was
/// announced.
pub fn fast_payload(
    pass: &Pass,
    sequence: u64,
    observed: &Observed,
    monitor: SelfReport,
    launch: &Launch,
) -> (payload: FastPayload)
    requires
        pass.snapshot matches Ok(snapshot) ==> adds_up(snapshot),
    ensures
        is_fast_payload(payload, *pass, sequence, *observed, monitor, *launch),
{
    let (sessions, notify): (Vec<SessionRow>, NotifyRow) = match &pass.snapshot {
        Ok(snapshot) => (session_rows(&snapshot.sessions), notify_row(snapshot)),
        Err(_) => (
            Vec::new(),
            NotifyRow {
                notable: 0,
                delivered: 0,
                failed: 0,
                not_attempted: 0,
                reason: Some(
                    String::from_str(
                        "the collection failed, so nothing was decided or delivered",
                    ),
                ),
                read_only: None,
            },
        ),
    };
    FastPayload {
        pass: envelope(pass, sequence, observed),
        sessions,
        monitor,
        launch: launch.record.clone(),
        launch_not_recorded: option_again(&launch.not_recorded),
        notify,
        silence_read_by: String::from_str(meter::tier_name(Tier::Medium)),
    }
}

// --- The medium tier ---------------------------------------------------------------------------

/// Whether this is what the medium tier publishes of a pass.
pub open spec fn is_medium_payload(
    payload: MediumPayload,
    pass: Pass,
    sequence: u64,
    observed: Observed,
) -> bool {
    &&& is_envelope(payload.pass, pass, sequence, observed)
    &&& if observed.medium is Some && observed.medium->0.facts.sweep is Some {
        let sweep = (observed.medium->0.facts.sweep->0).1;
        payload.directories_visited == sweep.directories_visited && payload.repositories_found
            == sweep.repositories@.len()
    } else {
        payload.directories_visited == 0 && payload.repositories_found == 0
    }
    &&& match pass.snapshot {
        Ok(snapshot) => {
            &&& payload.sweep_complete == snapshot.sweep_complete
            &&& payload.unlocated@.len() == snapshot.unlocated@.len()
            &&& forall|i: int|
                0 <= i < payload.unlocated@.len() ==> (#[trigger] payload.unlocated@[i]).0
                    == snapshot.unlocated@[i].0 && payload.unlocated@[i].1@
                    == snapshot.unlocated@[i].1.words()
        },
        Err(_) => !payload.sweep_complete && payload.unlocated@.len() == 0,
    }
}

/// What the medium tier publishes: how far its search got, and the names behind which no one directory
/// was found.
pub fn medium_payload(pass: &Pass, sequence: u64, observed: &Observed) -> (payload: MediumPayload)
    ensures
        is_medium_payload(payload, *pass, sequence, *observed),
{
    let mut directories_visited: usize = 0;
    let mut repositories_found: usize = 0;
    if let Some(medium) = &observed.medium {
        if let Some(swept) = &medium.facts.sweep {
            directories_visited = swept.1.directories_visited;
            repositories_found = swept.1.repositories.len();
        }
    }
    let mut unlocated: Vec<(String, String)> = Vec::new();
    let mut sweep_complete: bool = false;
    if let Ok(snapshot) = &pass.snapshot {
        sweep_complete = snapshot.sweep_complete;
        let mut next: usize = 0;
        while next < snapshot.unlocated.len()
            invariant
                next <= snapshot.unlocated@.len(),
                unlocated@.len() == next,
                forall|i: int|
                    0 <= i < unlocated@.len() ==> (#[trigger] unlocated@[i]).0
                        == snapshot.unlocated@[i].0 && unlocated@[i].1@
                        == snapshot.unlocated@[i].1.words(),
            decreases snapshot.unlocated@.len() - next,
        {
            unlocated.push(
                (snapshot.unlocated[next].0.clone(), snapshot.unlocated[next].1.to_text()),
            );
            next += 1;
        }
    }
    MediumPayload {
        pass: envelope(pass, sequence, observed),
        directories_visited,
        sweep_complete,
        repositories_found,
        unlocated,
    }
}

// --- The slow tier -----------------------------------------------------------------------------

/// Whether this is the row of a workspace.
pub open spec fn is_workspace_row(
    row: WorkspaceRow,
    workspace: WorkspaceReport,
    observed: Observed,
) -> bool {
    &&& row.path == workspace.path
    &&& row.state@ == workspace.state.word()
    &&& row.at_risk == workspace.state.risky()
    &&& match workspace.state {
        WorkspaceState::Unknown(why) => row.unknown_why matches Some(words) && words@ == why.words(),
        _ => row.unknown_why is None,
    }
    &&& row.uncommitted_entries == workspace.uncommitted_entries
    &&& row.linked_worktree == workspace.linked_worktree
    &&& match machine::carried(observed, workspace.path@) {
        Some(read) => row.observed_at matches Some(stamp) && isotime::is_stamp(
            stamp@,
            isotime::whole_seconds(read.observed_at),
        ),
        None => row.observed_at is None,
    }
}

/// Whether these are the rows of the workspaces.
pub open spec fn are_workspace_rows(
    rows: Seq<WorkspaceRow>,
    workspaces: Seq<WorkspaceReport>,
    observed: Observed,
) -> bool {
    &&& rows.len() == workspaces.len()
    &&& forall|i: int|
        0 <= i < rows.len() ==> is_workspace_row(#[trigger] rows[i], workspaces[i], observed)
}

/// How many workspaces are at risk.
pub open spec fn risks(workspaces: Seq<WorkspaceReport>) -> nat
    decreases workspaces.len(),
{
    if workspaces.len() == 0 {
        0
    } else {
        risks(workspaces.drop_last()) + if workspaces.last().state.risky() {
            1nat
        } else {
            0nat
        }
    }
}

fn workspace_row(workspace: &WorkspaceReport, observed: &Observed) -> (row: WorkspaceRow)
    ensures
        is_workspace_row(row, *workspace, *observed),
{
    let read: Option<ReadVcs> = machine::carried_reading(observed, workspace.path.as_str());
    WorkspaceRow {
        path: workspace.path.clone(),
        state: String::from_str(workspace.state.to_text()),
        at_risk: workspace.state.at_risk(),
        unknown_why: match &workspace.state {
            WorkspaceState::Unknown(why) => Some(String::from_str(why.to_text())),
            WorkspaceState::Clean
            | WorkspaceState::DirtyDriven
            | WorkspaceState::DirtyStranded => None,
        },
        uncommitted_entries: workspace.uncommitted_entries,
        linked_worktree: workspace.linked_worktree,
        observed_at: match read {
            Some(read) => Some(isotime::timestamp(read.observed_at)),
            None => None,
        },
    }
}

/// Whether this is what the slow tier publishes of a pass.
pub open spec fn is_slow_payload(
    payload: SlowPayload,
    pass: Pass,
    sequence: u64,
    observed: Observed,
) -> bool {
    &&& is_envelope(payload.pass, pass, sequence, observed)
    &&& match pass.snapshot {
        Ok(snapshot) => are_workspace_rows(
            payload.workspaces@,
            snapshot.workspaces@,
            observed,
        ) && payload.at_risk == risks(snapshot.workspaces@),
        Err(_) => payload.workspaces@.len() == 0 && payload.at_risk == 0,
    }
    &&& match observed.slow {
        Some(slow) => payload.read_this_pass == slow.facts.coverage.read && payload.never_read
            == slow.facts.coverage.never_read,
        None => payload.read_this_pass == 0 && payload.never_read == 0,
    }
    &&& payload.next_slice == observed.next_slice()
}

/// What the slow tier publishes: every workspace with when it was read, how many are at risk, and how
/// far the reading has got.
pub fn slow_payload(pass: &Pass, sequence: u64, observed: &Observed) -> (payload: SlowPayload)
    ensures
        is_slow_payload(payload, *pass, sequence, *observed),
{
    let mut workspaces: Vec<WorkspaceRow> = Vec::new();
    let mut at_risk: usize = 0;
    if let Ok(snapshot) = &pass.snapshot {
        let ghost all = snapshot.workspaces@;
        let mut next: usize = 0;
        assert(all.take(0) =~= Seq::empty());
        while next < snapshot.workspaces.len()
            invariant
                next <= all.len(),
                all == snapshot.workspaces@,
                workspaces@.len() == next,
                at_risk <= next,
                at_risk == risks(all.take(next as int)),
                forall|i: int|
                    0 <= i < workspaces@.len() ==> is_workspace_row(
                        #[trigger] workspaces@[i],
                        all[i],
                        *observed,
                    ),
            decreases all.len() - next,
        {
            assert(all.take(next + 1).drop_last() =~= all.take(next as int));
            let row: WorkspaceRow = workspace_row(&snapshot.workspaces[next], observed);
            if row.at_risk {
                at_risk += 1;
            }
            workspaces.push(row);
            next += 1;
        }
        assert(all.take(all.len() as int) =~= all);
    }
    let coverage: Coverage = match &observed.slow {
        Some(slow) => slow.facts.coverage,
        None => Coverage { total: 0, read: 0, never_read: 0 },
    };
    SlowPayload {
        pass: envelope(pass, sequence, observed),
        workspaces,
        at_risk,
        read_this_pass: coverage.read,
        never_read: coverage.never_read,
        next_slice: observed.slice(),
    }
}

/// When the oldest of some readings was taken.
pub open spec fn oldest(reads: Seq<ReadVcs>) -> Option<SystemTime>
    decreases reads.len(),
{
    if reads.len() == 0 {
        None
    } else {
        match oldest(reads.drop_last()) {
            Some(before) => if reads.last().observed_at.nanos < before.nanos {
                Some(reads.last().observed_at)
            } else {
                Some(before)
            },
            None => Some(reads.last().observed_at),
        }
    }
}

/// The stamp under which a tier publishes.
pub open spec fn stamp_of(tier: Tier, observed_at: SystemTime, observed: Observed) -> SystemTime {
    match (tier, observed.slow) {
        (Tier::Slow, Some(slow)) => match oldest(slow.facts.vcs.values()) {
            Some(stamp) => stamp,
            None => observed_at,
        },
        _ => observed_at,
    }
}

/// The stamp under which a pass publishes: when it ran, but for the slow tier when the oldest of its
/// readings was taken.
pub fn stamp_for(pass: &Pass, observed: &Observed) -> (stamp: SystemTime)
    ensures
        stamp == stamp_of(pass.tier, pass.observed_at, *observed),
{
    match (pass.tier, &observed.slow) {
        (Tier::Slow, Some(slow)) => {
            let ghost all = slow.facts.vcs.values();
            let mut found: Option<SystemTime> = None;
            let mut next: usize = 0;
            assert(all.take(0) =~= Seq::empty());
            while next < slow.facts.vcs.len()
                invariant
                    next <= all.len(),
                    all == slow.facts.vcs.values(),
                    found == oldest(all.take(next as int)),
                decreases all.len() - next,
            {
                assert(all.take(next + 1).drop_last() =~= all.take(next as int));
                let at: SystemTime = slow.facts.vcs.value(next).observed_at;
                found = match found {
                    Some(before) => if at.nanos < before.nanos {
                        Some(at)
                    } else {
                        Some(before)
                    },
                    None => Some(at),
                };
                next += 1;
            }
            assert(all.take(all.len() as int) =~= all);
            match found {
                Some(stamp) => stamp,
                None => pass.observed_at,
            }
        },
        _ => pass.observed_at,
    }
}

proof fn lemma_oldest_is_oldest(reads: Seq<ReadVcs>, i: int)
    requires
        0 <= i < reads.len(),
    ensures
        oldest(reads) matches Some(stamp) && stamp.nanos <= reads[i].observed_at.nanos,
    decreases reads.len(),
{
    if reads.len() > 1 {
        let before = reads.drop_last();
        if i < reads.len() - 1 {
            lemma_oldest_is_oldest(before, i);
        } else {
            lemma_oldest_is_oldest(before, 0);
        }
    }
}

/// Nothing the slow tier publishes is older than its stamp says.
pub proof fn law_no_reading_is_older_than_its_stamp(
    observed_at: SystemTime,
    observed: Observed,
    path: Seq<char>,
)
    requires
        observed.slow is Some,
        observed.slow->0.facts.vcs.wf(),
        machine::carried(observed, path) is Some,
    ensures
        stamp_of(Tier::Slow, observed_at, observed).nanos <= machine::carried(
            observed,
            path,
        )->0.observed_at.nanos,
{
    let vcs = observed.slow->0.facts.vcs;
    vcs.lemma_values();
    let name = text::lowercased(path);
    assert(vcs@.contains_key(name));
    let i = choose|i: int| 0 <= i < vcs.values().len() && vcs.values()[i] == vcs@[name];
    lemma_oldest_is_oldest(vcs.values(), i);
}

// --- What was published ------------------------------------------------------------------------

/// What a tier published.
#[derive(Debug, PartialEq, Eq)]
pub enum Published {
    Fast(FastPayload),
    Medium(MediumPayload),
    Slow(SlowPayload),
}

/// What is said of a payload that could not be read.
pub open spec fn unreadable(tier: Tier, why: Seq<char>) -> Seq<char> {
    "the "@ + meter::tier_word(tier) + " tier's payload could not be read: "@ + why
}

/// Whether this is what a tier published, and when: nothing where it published nothing.
pub open spec fn is_published<F: Fn(Tier, &serde_json::Value) -> Result<Published, String>>(
    found: Result<Option<(Published, SystemTime)>, String>,
    state: TieredState,
    tier: Tier,
    decode: F,
) -> bool {
    if state@.contains_key(tier) {
        exists|decoded: Result<Published, String>|
            {
                &&& #[trigger] call_ensures(decode, (tier, &state@[tier].data), decoded)
                &&& match decoded {
                    Ok(payload) => found == Ok::<Option<(Published, SystemTime)>, String>(
                        Some((payload, state@[tier].timestamp)),
                    ),
                    Err(why) => found matches Err(said) && said@ == unreadable(tier, why@),
                }
            }
    } else {
        found == Ok::<Option<(Published, SystemTime)>, String>(None)
    }
}

/// What a tier published, and when.
pub fn published<F: Fn(Tier, &serde_json::Value) -> Result<Published, String>>(
    state: &TieredState,
    tier: Tier,
    decode: &F,
) -> (found: Result<Option<(Published, SystemTime)>, String>)
    requires
        forall|tier: Tier, data: &serde_json::Value| #[trigger] call_requires(*decode, (tier, data)),
    ensures
        is_published(found, *state, tier, *decode),
{
    let data: &serde_json::Value = match state.tier_data(tier) {
        Some(data) => data,
        None => {
            return Ok(None);
        },
    };
    let stamp: SystemTime = match state.tier_timestamp(tier) {
        Some(stamp) => stamp,
        None => {
            return Ok(None);
        },
    };
    match decode(tier, data) {
        Ok(payload) => Ok(Some((payload, stamp))),
        Err(why) => Err(
            String::from_str("the ").concat(meter::tier_name(tier)).concat(
                " tier's payload could not be read: ",
            ).concat(why.as_str()),
        ),
    }
}

/// What the monitor costs, as the display shows it.
#[derive(Debug, PartialEq, Eq)]
pub struct PublishedMeters {
    pub overhead: Result<Duration, String>,
    pub duty_cycle: Result<Share, String>,
    pub taken_at: SystemTime,
    /// Each tier's last pass: what it took, and how long ago it was.
    pub per_tier: Vec<(String, Duration, Duration)>,
}

/// Milliseconds as a span, as far as 64 bits count them.
pub open spec fn from_millis(millis: u128) -> Duration {
    Duration { nanos: ((millis % 0x1_0000_0000_0000_0000) * 1_000_000) as u128 }
}

pub(crate) fn span_of(millis: u128) -> (span: Duration)
    ensures
        span == from_millis(millis),
{
    Duration::from_millis((millis % 0x1_0000_0000_0000_0000) as u64)
}

/// The fast tier's pass among those a monitor reports.
pub open spec fn is_fast_pass() -> spec_fn(PassReport) -> bool {
    |pass: PassReport| pass.tier@ == "fast"@
}

/// Whether this is what the monitor costs, from what its fast tier published.
pub open spec fn are_meters(meters: PublishedMeters, payload: FastPayload, stamp: SystemTime) -> bool {
    let passes = payload.monitor.last_pass@;
    &&& meters.taken_at == stamp
    &&& match order::first_where(passes, is_fast_pass()) {
        Some(at) => meters.overhead == Ok::<Duration, String>(from_millis(passes[at].took_ms)),
        None => meters.overhead matches Err(why) && why@
            == "the monitor has published no fast pass, so there is no collection overhead to show yet"@,
    }
    &&& match (payload.monitor.duty_cycle.value, payload.monitor.duty_cycle.unavailable) {
        (Some(value), _) => meters.duty_cycle == Ok::<Share, String>(value),
        (None, Some(why)) => meters.duty_cycle == Err::<Share, String>(why),
        (None, None) => meters.duty_cycle matches Err(why) && why@
            == "the monitor published neither a figure nor a reason, which is a fault in its own metering"@,
    }
    &&& meters.per_tier@.len() == passes.len()
    &&& forall|i: int|
        0 <= i < passes.len() ==> #[trigger] meters.per_tier@[i] == (
            passes[i].tier,
            from_millis(passes[i].took_ms),
            from_millis(passes[i].age_ms),
        )
}

/// What the monitor costs, from what its fast tier published: nothing where that is something else.
pub fn published_meters(found: &Option<(Published, SystemTime)>) -> (meters: Option<PublishedMeters>)
    ensures
        match *found {
            Some((Published::Fast(payload), stamp)) => meters matches Some(shown) && are_meters(
                shown,
                payload,
                stamp,
            ),
            _ => meters is None,
        },
{
    match found {
        Some((Published::Fast(payload), stamp)) => Some(meters_of(payload, *stamp)),
        _ => None,
    }
}

/// What the monitor costs, from what its fast tier published.
pub fn meters_of(payload: &FastPayload, stamp: SystemTime) -> (meters: PublishedMeters)
    ensures
        are_meters(meters, *payload, stamp),
{
    let ghost passes = payload.monitor.last_pass@;
    let ghost wanted = is_fast_pass();
    let mut fast: Option<Duration> = None;
    let mut per_tier: Vec<(String, Duration, Duration)> = Vec::new();
    let mut next: usize = 0;
    while next < payload.monitor.last_pass.len()
        invariant
            next <= passes.len(),
            passes == payload.monitor.last_pass@,
            wanted == is_fast_pass(),
            per_tier@.len() == next,
            forall|i: int|
                0 <= i < next ==> #[trigger] per_tier@[i] == (
                    passes[i].tier,
                    from_millis(passes[i].took_ms),
                    from_millis(passes[i].age_ms),
                ),
            match fast {
                Some(took) => order::first_where(passes, wanted) matches Some(at) && took
                    == from_millis(passes[at].took_ms),
                None => forall|i: int| 0 <= i < next ==> !wanted(#[trigger] passes[i]),
            },
        decreases passes.len() - next,
    {
        let pass: &PassReport = &payload.monitor.last_pass[next];
        if fast.is_none() {
            if text::same(pass.tier.as_str(), "fast") {
                proof {
                    order::lemma_is_first(passes, wanted, next as int);
                }
                fast = Some(span_of(pass.took_ms));
            }
        }
        per_tier.push((pass.tier.clone(), span_of(pass.took_ms), span_of(pass.age_ms)));
        next += 1;
    }
    proof {
        if fast is None {
            order::lemma_is_nowhere(passes, wanted);
        }
    }
    let overhead: Result<Duration, String> = match fast {
        Some(took) => Ok(took),
        None => Err(
            String::from_str(
                "the monitor has published no fast pass, so there is no collection overhead to show yet",
            ),
        ),
    };
    let duty_cycle: Result<Share, String> = match (
        &payload.monitor.duty_cycle.value,
        &payload.monitor.duty_cycle.unavailable,
    ) {
        (Some(value), _) => Ok(*value),
        (None, Some(why)) => Err(why.clone()),
        (None, None) => Err(
            String::from_str(
                "the monitor published neither a figure nor a reason, which is a fault in its own metering",
            ),
        ),
    };
    PublishedMeters { overhead, duty_cycle, taken_at: stamp, per_tier }
}

/// How many of these sessions have a process.
pub open spec fn running(sessions: Seq<Session>) -> nat
    decreases sessions.len(),
{
    if sessions.len() == 0 {
        0
    } else {
        running(sessions.drop_last()) + if sessions.last().identity is Process {
            1nat
        } else {
            0nat
        }
    }
}

/// How many sessions of a snapshot have a process.
pub fn live_sessions(snapshot: &Snapshot) -> (count: usize)
    ensures
        count == running(snapshot.sessions@),
{
    let ghost all = snapshot.sessions@;
    let mut count: usize = 0;
    let mut next: usize = 0;
    assert(all.take(0) =~= Seq::empty());
    while next < snapshot.sessions.len()
        invariant
            next <= all.len(),
            all == snapshot.sessions@,
            count <= next,
            count == running(all.take(next as int)),
        decreases all.len() - next,
    {
        assert(all.take(next + 1).drop_last() =~= all.take(next as int));
        match snapshot.sessions[next].identity {
            Identity::Process { .. } => {
                count += 1;
            },
            Identity::Transcript { .. } => {},
        }
        next += 1;
    }
    assert(all.take(all.len() as int) =~= all);
    count
}

} // verus!
