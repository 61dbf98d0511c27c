//! The sessions there are: one for each agent, and one for each transcript whose agent is gone.

use super::attribution;
use super::attribution::AttributionSources;
use super::{Identity, Session};
use crate::detect::Detector;
use crate::liveness;
use crate::liveness::{Observation, Thresholds, Verdict};
use crate::memory::{Memory, Reading};
use crate::order;
use crate::order::Ranked;
use crate::text;
use crate::time::{Duration, SystemTime};
use crate::world::{
    ActivityUnavailable, CodexSession, NamespaceResolution, ProcessRecord, Resources,
    ResourcesUnavailable, Workspace, WorkspaceUnknown,
};
use vstd::prelude::*;

verus! {

/// What the machine answered that sessions are made from.
#[derive(Debug, PartialEq, Eq)]
pub struct Evidence {
    pub records: Vec<ProcessRecord>,
    pub detectors: Vec<Detector>,
    pub sources: AttributionSources,
    /// The records that are agents, each with the id it was recognised under.
    pub agents: Vec<(usize, String)>,
    /// What each agent has used.
    pub ledgers: Vec<Result<Resources, ResourcesUnavailable>>,
    /// When the transcript of each recorded name last changed.
    pub activities: Vec<Result<SystemTime, ActivityUnavailable>>,
    /// What was found behind each recorded name.
    pub resolutions: Vec<NamespaceResolution>,
}

impl Evidence {
    /// Whether there is an answer for everything that was asked.
    pub open spec fn wf(self) -> bool {
        &&& self.agents@ == attribution::agents_in(self.records@, self.detectors@)
        &&& forall|i: int|
            0 <= i < self.agents@.len() ==> (#[trigger] self.agents@[i]).0 < self.records@.len()
        &&& self.ledgers@.len() == self.agents@.len()
        &&& self.activities@.len() == self.sources.names().len()
        &&& self.resolutions@.len() == self.sources.names().len()
    }
}

fn copy_of(ledger: &Result<Resources, ResourcesUnavailable>) -> (copy: Result<
    Resources,
    ResourcesUnavailable,
>)
    ensures
        copy == *ledger,
{
    match ledger {
        Ok(resources) => Ok(*resources),
        Err(why) => Err(why.clone()),
    }
}

/// What is seen of a session whose process is there.
pub open spec fn seen_of_process(
    evidence: Evidence,
    record: ProcessRecord,
    cli: String,
    now: SystemTime,
) -> Observation {
    let workspace = attribution::workspace_for(cli, record, evidence.sources);
    Observation {
        silence: attribution::silence_for(workspace, cli@, evidence.sources, evidence.activities@, now),
        process_resident: true,
        work_running_in_workspace: match workspace {
            Ok(found) => attribution::work_in(evidence.records@, found.path@, Some(record.pid)),
            Err(_) => false,
        },
        snapshot_trustworthy: true,
    }
}

/// The name under which a workspace's transcript is recorded, if it is.
pub open spec fn name_of(workspace: Result<Workspace, WorkspaceUnknown>) -> Option<String> {
    match workspace {
        Ok(found) => match found.namespace {
            Ok(name) => Some(name),
            Err(_) => None,
        },
        Err(_) => None,
    }
}

/// The reading an earlier run took of a session that cannot be read now.
pub open spec fn recollection(
    resources: Result<Resources, ResourcesUnavailable>,
    cli: Seq<char>,
    name: Option<String>,
    previous: Memory,
) -> Option<Reading> {
    match (resources, name) {
        (Err(_), Some(known_as)) => previous.recalled(cli, known_as@),
        _ => None,
    }
}

/// The session of one agent.
pub open spec fn process_session(
    evidence: Evidence,
    previous: Memory,
    agent: int,
    now: SystemTime,
    thresholds: Thresholds,
) -> Session {
    let cli = evidence.agents@[agent].1;
    let record = evidence.records@[evidence.agents@[agent].0 as int];
    Session {
        identity: Identity::Process { pid: record.pid },
        cli,
        resources: evidence.ledgers@[agent],
        last_reading: recollection(
            evidence.ledgers@[agent],
            cli@,
            name_of(attribution::workspace_for(cli, record, evidence.sources)),
            previous,
        ),
        workspace: attribution::workspace_for(cli, record, evidence.sources),
        liveness: liveness::verdict(seen_of_process(evidence, record, cli, now), thresholds),
    }
}

/// The sessions of all agents, in the order of the processes.
pub open spec fn process_sessions(
    evidence: Evidence,
    previous: Memory,
    now: SystemTime,
    thresholds: Thresholds,
) -> Seq<Session> {
    Seq::new(
        evidence.agents@.len(),
        |agent: int| process_session(evidence, previous, agent, now, thresholds),
    )
}

fn resident_sessions(
    evidence: &Evidence,
    previous: &Memory,
    now: SystemTime,
    thresholds: &Thresholds,
) -> (sessions: Vec<Session>)
    requires
        evidence.wf(),
    ensures
        sessions@ == process_sessions(*evidence, *previous, now, *thresholds),
{
    let mut sessions: Vec<Session> = Vec::new();
    let mut next: usize = 0;
    while next < evidence.agents.len()
        invariant
            evidence.wf(),
            next <= evidence.agents@.len(),
            sessions@ == process_sessions(*evidence, *previous, now, *thresholds).take(next as int),
        decreases evidence.agents@.len() - next,
    {
        let cli: &String = &evidence.agents[next].1;
        assert(evidence.agents@[next as int].0 < evidence.records@.len());
        let record: &ProcessRecord = &evidence.records[evidence.agents[next].0];
        let workspace: Result<Workspace, WorkspaceUnknown> = attribution::workspace_of(
            cli,
            record,
            &evidence.sources,
        );
        let silence: Option<Duration> = attribution::silence_of(
            &workspace,
            cli.as_str(),
            &evidence.sources,
            &evidence.activities,
            now,
        );
        let running: bool = match &workspace {
            Ok(found) => attribution::work_running_in(
                found.path.as_str(),
                Some(record.pid),
                &evidence.records,
            ),
            Err(_) => false,
        };
        let liveness: Verdict = liveness::classify(
            &Observation {
                silence,
                process_resident: true,
                work_running_in_workspace: running,
                snapshot_trustworthy: true,
            },
            thresholds,
        );
        let last_reading: Option<Reading> = match (&evidence.ledgers[next], &workspace) {
            (Err(_), Ok(found)) => match &found.namespace {
                Ok(name) => previous.reading_for(cli.as_str(), name.as_str()),
                Err(_) => None,
            },
            _ => None,
        };
        sessions.push(
            Session {
                identity: Identity::Process { pid: record.pid },
                cli: cli.clone(),
                resources: copy_of(&evidence.ledgers[next]),
                last_reading,
                workspace,
                liveness,
            },
        );
        assert(sessions@ =~= process_sessions(*evidence, *previous, now, *thresholds).take(next + 1));
        next += 1;
    }
    assert(sessions@ =~= process_sessions(*evidence, *previous, now, *thresholds));
    sessions
}

/// Whether a session of a CLI goes by a name.
pub open spec fn goes_by(session: Session, cli: Seq<char>, name: Seq<char>) -> bool {
    &&& session.cli@ == cli
    &&& session.workspace matches Ok(workspace) && (workspace.namespace matches Ok(own) && own@
        == name)
}

/// Whether a process has a transcript for its own.
pub open spec fn claimed(sessions: Seq<Session>, cli: Seq<char>, name: Seq<char>) -> bool {
    exists|i: int| 0 <= i < sessions.len() && goes_by(#[trigger] sessions[i], cli, name)
}

fn is_claimed(sessions: &Vec<Session>, cli: &str, name: &str) -> (found: bool)
    ensures
        found == claimed(sessions@, cli@, name@),
{
    let mut next: usize = 0;
    while next < sessions.len()
        invariant
            next <= sessions@.len(),
            forall|i: int| 0 <= i < next ==> !goes_by(#[trigger] sessions@[i], cli@, name@),
        decreases sessions@.len() - next,
    {
        if text::same(sessions[next].cli.as_str(), cli) {
            if let Ok(workspace) = &sessions[next].workspace {
                if let Ok(own) = &workspace.namespace {
                    if text::same(own.as_str(), name) {
                        assert(goes_by(sessions@[next as int], cli@, name@));
                        return true;
                    }
                }
            }
        }
        next += 1;
    }
    false
}

/// Whether a silence is short enough for a transcript without a process to be looked at: twice the
/// stall threshold.
pub open spec fn within_window(silence: Duration, thresholds: Thresholds) -> bool {
    silence.nanos <= 2 * thresholds.stall.nanos
}

fn in_window(silence: Duration, thresholds: &Thresholds) -> (inside: bool)
    ensures
        inside == within_window(silence, *thresholds),
{
    silence.nanos <= thresholds.stall.nanos || silence.nanos - thresholds.stall.nanos
        <= thresholds.stall.nanos
}

/// Where the session of a recorded name worked, as far as looking for it told.
pub open spec fn resolved_workspace(name: String, resolution: NamespaceResolution) -> Result<
    Workspace,
    WorkspaceUnknown,
> {
    match resolution {
        NamespaceResolution::Resolved(path) => Ok(Workspace { path, namespace: Ok(name) }),
        NamespaceResolution::Ambiguous(candidates) => Err(
            WorkspaceUnknown::Ambiguous { candidates: candidates@.len() as usize },
        ),
        NamespaceResolution::NoLongerExists => Err(WorkspaceUnknown::WorkspaceGone),
        NamespaceResolution::SearchExhausted => Err(WorkspaceUnknown::SearchIncomplete),
    }
}

fn workspace_behind(name: &String, resolution: &NamespaceResolution) -> (found: Result<
    Workspace,
    WorkspaceUnknown,
>)
    ensures
        found == resolved_workspace(*name, *resolution),
{
    match resolution {
        NamespaceResolution::Resolved(path) => Ok(
            Workspace { path: path.clone(), namespace: Ok(name.clone()) },
        ),
        NamespaceResolution::Ambiguous(candidates) => Err(
            WorkspaceUnknown::Ambiguous { candidates: candidates.len() },
        ),
        NamespaceResolution::NoLongerExists => Err(WorkspaceUnknown::WorkspaceGone),
        NamespaceResolution::SearchExhausted => Err(WorkspaceUnknown::SearchIncomplete),
    }
}

/// Whether a recorded name makes a session of its own: no process claims it, and its transcript
/// changed recently.
pub open spec fn stands_alone(
    evidence: Evidence,
    at: int,
    processes: Seq<Session>,
    now: SystemTime,
    thresholds: Thresholds,
) -> bool {
    &&& !claimed(processes, evidence.sources.filing_cli@, evidence.sources.names()[at]@)
    &&& evidence.activities@[at] matches Ok(then) && within_window(attribution::elapsed(now, then), thresholds)
}

/// The recorded names that make a session of their own, by position.
pub open spec fn standing_alone(
    evidence: Evidence,
    upto: int,
    processes: Seq<Session>,
    now: SystemTime,
    thresholds: Thresholds,
) -> Seq<int>
    decreases upto,
{
    if upto <= 0 {
        Seq::empty()
    } else {
        let before = standing_alone(evidence, upto - 1, processes, now, thresholds);
        if stands_alone(evidence, upto - 1, processes, now, thresholds) {
            before.push(upto - 1)
        } else {
            before
        }
    }
}

/// Whether a session is the one behind a recorded name.
pub open spec fn is_filed_transcript(
    session: Session,
    evidence: Evidence,
    previous: Memory,
    at: int,
    now: SystemTime,
    thresholds: Thresholds,
) -> bool {
    let name = evidence.sources.names()[at];
    let workspace = resolved_workspace(name, evidence.resolutions@[at]);
    &&& session.identity == (Identity::Transcript { recorded_as: name })
    &&& session.cli@ == evidence.sources.filing_cli@
    &&& session.resources == Err::<Resources, ResourcesUnavailable>(
        ResourcesUnavailable::ProcessExited,
    )
    &&& session.last_reading == previous.recalled(evidence.sources.filing_cli@, name@)
    &&& session.workspace == workspace
    &&& session.liveness == liveness::verdict(
        Observation {
            silence: Some(attribution::elapsed(now, evidence.activities@[at]->Ok_0)),
            process_resident: false,
            work_running_in_workspace: match workspace {
                Ok(found) => attribution::work_in(evidence.records@, found.path@, None),
                Err(_) => attribution::work_filed_under(evidence.records@, name@, evidence.detectors@),
            },
            snapshot_trustworthy: true,
        },
        thresholds,
    )
}

/// Whether an entry of Codex's index makes a session of its own.
pub open spec fn entry_stands_alone(
    evidence: Evidence,
    at: int,
    processes: Seq<Session>,
    now: SystemTime,
    thresholds: Thresholds,
) -> bool {
    let entry = evidence.sources.indexed()[at];
    &&& !claimed(processes, "codex"@, entry.id@)
    &&& within_window(attribution::elapsed(now, entry.last_activity), thresholds)
}

/// The entries of Codex's index that make a session of their own, by position.
pub open spec fn entries_standing_alone(
    evidence: Evidence,
    upto: int,
    processes: Seq<Session>,
    now: SystemTime,
    thresholds: Thresholds,
) -> Seq<int>
    decreases upto,
{
    if upto <= 0 {
        Seq::empty()
    } else {
        let before = entries_standing_alone(evidence, upto - 1, processes, now, thresholds);
        if entry_stands_alone(evidence, upto - 1, processes, now, thresholds) {
            before.push(upto - 1)
        } else {
            before
        }
    }
}

/// Whether a session is the one behind an entry of Codex's index.
pub open spec fn is_codex_transcript(
    session: Session,
    evidence: Evidence,
    previous: Memory,
    at: int,
    now: SystemTime,
    thresholds: Thresholds,
) -> bool {
    let entry = evidence.sources.indexed()[at];
    &&& session.identity == (Identity::Transcript { recorded_as: entry.id })
    &&& session.cli@ == "codex"@
    &&& session.resources == Err::<Resources, ResourcesUnavailable>(
        ResourcesUnavailable::ProcessExited,
    )
    &&& session.last_reading == previous.recalled("codex"@, entry.id@)
    &&& session.workspace == Ok::<Workspace, WorkspaceUnknown>(
        Workspace { path: entry.workspace, namespace: Ok(entry.id) },
    )
    &&& session.liveness == liveness::verdict(
        Observation {
            silence: Some(attribution::elapsed(now, entry.last_activity)),
            process_resident: false,
            work_running_in_workspace: attribution::work_in(evidence.records@, entry.workspace@, None),
            snapshot_trustworthy: true,
        },
        thresholds,
    )
}

/// Whether sessions are those of transcripts without a process: the recorded names first, then
/// Codex's index, each in its order.
pub open spec fn are_transcripts(
    sessions: Seq<Session>,
    evidence: Evidence,
    previous: Memory,
    processes: Seq<Session>,
    now: SystemTime,
    thresholds: Thresholds,
) -> bool {
    let names = standing_alone(
        evidence,
        evidence.sources.names().len() as int,
        processes,
        now,
        thresholds,
    );
    let entries = entries_standing_alone(
        evidence,
        evidence.sources.indexed().len() as int,
        processes,
        now,
        thresholds,
    );
    &&& sessions.len() == names.len() + entries.len()
    &&& forall|i: int|
        0 <= i < names.len() ==> is_filed_transcript(
            #[trigger] sessions[i],
            evidence,
            previous,
            names[i],
            now,
            thresholds,
        )
    &&& forall|i: int|
        names.len() <= i < sessions.len() ==> is_codex_transcript(
            #[trigger] sessions[i],
            evidence,
            previous,
            entries[i - names.len()],
            now,
            thresholds,
        )
}

fn filed_transcripts(
    evidence: &Evidence,
    names: &Vec<String>,
    previous: &Memory,
    processes: &Vec<Session>,
    now: SystemTime,
    thresholds: &Thresholds,
) -> (sessions: Vec<Session>)
    requires
        evidence.wf(),
        names@ == evidence.sources.names(),
    ensures
        sessions@.len() == standing_alone(
            *evidence,
            names@.len() as int,
            processes@,
            now,
            *thresholds,
        ).len(),
        forall|i: int|
            0 <= i < sessions@.len() ==> is_filed_transcript(
                #[trigger] sessions@[i],
                *evidence,
                *previous,
                standing_alone(*evidence, names@.len() as int, processes@, now, *thresholds)[i],
                now,
                *thresholds,
            ),
{
    let mut sessions: Vec<Session> = Vec::new();
    let mut next: usize = 0;
    while next < names.len()
        invariant
            evidence.wf(),
            names@ == evidence.sources.names(),
            next <= names@.len(),
            sessions@.len() == standing_alone(
                *evidence,
                next as int,
                processes@,
                now,
                *thresholds,
            ).len(),
            forall|i: int|
                0 <= i < sessions@.len() ==> is_filed_transcript(
                    #[trigger] sessions@[i],
                    *evidence,
                    *previous,
                    standing_alone(*evidence, next as int, processes@, now, *thresholds)[i],
                    now,
                    *thresholds,
                ),
        decreases names@.len() - next,
    {
        let name: &String = &names[next];
        let ghost before = standing_alone(*evidence, next as int, processes@, now, *thresholds);
        let ghost after = standing_alone(*evidence, next + 1, processes@, now, *thresholds);
        let then: Option<SystemTime> = match &evidence.activities[next] {
            Ok(then) => Some(*then),
            Err(_) => None,
        };
        if let Some(then) = then {
            let silence: Duration = attribution::elapsed_since(now, then);
            if !is_claimed(
                processes,
                evidence.sources.filing_cli.as_str(),
                name.as_str(),
            ) && in_window(silence, thresholds) {
                assert(stands_alone(*evidence, next as int, processes@, now, *thresholds));
                assert(after == before.push(next as int));
                let workspace: Result<Workspace, WorkspaceUnknown> = workspace_behind(
                    name,
                    &evidence.resolutions[next],
                );
                let running: bool = match &workspace {
                    Ok(found) => attribution::work_running_in(found.path.as_str(), None, &evidence.records),
                    Err(_) => attribution::work_running_in_namespace(
                        name.as_str(),
                        &evidence.records,
                        &evidence.detectors,
                    ),
                };
                let liveness: Verdict = liveness::classify(
                    &Observation {
                        silence: Some(silence),
                        process_resident: false,
                        work_running_in_workspace: running,
                        snapshot_trustworthy: true,
                    },
                    thresholds,
                );
                sessions.push(
                    Session {
                        identity: Identity::Transcript { recorded_as: name.clone() },
                        cli: evidence.sources.filing_cli.clone(),
                        resources: Err(ResourcesUnavailable::ProcessExited),
                        last_reading: previous.reading_for(evidence.sources.filing_cli.as_str(), name.as_str()),
                        workspace,
                        liveness,
                    },
                );
            } else {
                assert(!stands_alone(*evidence, next as int, processes@, now, *thresholds));
                assert(after == before);
            }
        } else {
            assert(!stands_alone(*evidence, next as int, processes@, now, *thresholds));
            assert(after == before);
        }
        next += 1;
    }
    sessions
}

fn codex_transcripts(
    evidence: &Evidence,
    entries: &Vec<CodexSession>,
    previous: &Memory,
    processes: &Vec<Session>,
    now: SystemTime,
    thresholds: &Thresholds,
) -> (sessions: Vec<Session>)
    requires
        entries@ == evidence.sources.indexed(),
    ensures
        sessions@.len() == entries_standing_alone(
            *evidence,
            entries@.len() as int,
            processes@,
            now,
            *thresholds,
        ).len(),
        forall|i: int|
            0 <= i < sessions@.len() ==> is_codex_transcript(
                #[trigger] sessions@[i],
                *evidence,
                *previous,
                entries_standing_alone(
                    *evidence,
                    entries@.len() as int,
                    processes@,
                    now,
                    *thresholds,
                )[i],
                now,
                *thresholds,
            ),
{
    let mut sessions: Vec<Session> = Vec::new();
    let mut next: usize = 0;
    while next < entries.len()
        invariant
            entries@ == evidence.sources.indexed(),
            next <= entries@.len(),
            sessions@.len() == entries_standing_alone(
                *evidence,
                next as int,
                processes@,
                now,
                *thresholds,
            ).len(),
            forall|i: int|
                0 <= i < sessions@.len() ==> is_codex_transcript(
                    #[trigger] sessions@[i],
                    *evidence,
                    *previous,
                    entries_standing_alone(
                        *evidence,
                        next as int,
                        processes@,
                        now,
                        *thresholds,
                    )[i],
                    now,
                    *thresholds,
                ),
        decreases entries@.len() - next,
    {
        let entry: &CodexSession = &entries[next];
        let ghost before = entries_standing_alone(
            *evidence,
            next as int,
            processes@,
            now,
            *thresholds,
        );
        let ghost after = entries_standing_alone(
            *evidence,
            next + 1,
            processes@,
            now,
            *thresholds,
        );
        let silence: Duration = attribution::elapsed_since(now, entry.last_activity);
        if !is_claimed(processes, "codex", entry.id.as_str()) && in_window(silence, thresholds) {
            assert(after == before.push(next as int));
            let running: bool = attribution::work_running_in(entry.workspace.as_str(), None, &evidence.records);
            let liveness: Verdict = liveness::classify(
                &Observation {
                    silence: Some(silence),
                    process_resident: false,
                    work_running_in_workspace: running,
                    snapshot_trustworthy: true,
                },
                thresholds,
            );
            sessions.push(
                Session {
                    identity: Identity::Transcript { recorded_as: entry.id.clone() },
                    cli: String::from_str("codex"),
                    resources: Err(ResourcesUnavailable::ProcessExited),
                    last_reading: previous.reading_for("codex", entry.id.as_str()),
                    workspace: Ok(
                        Workspace {
                            path: entry.workspace.clone(),
                            namespace: Ok(entry.id.clone()),
                        },
                    ),
                    liveness,
                },
            );
        } else {
            assert(after == before);
        }
        next += 1;
    }
    sessions
}

/// The sessions of transcripts without a process.
pub fn transcript_derived_sessions(
    evidence: &Evidence,
    previous: &Memory,
    processes: &Vec<Session>,
    now: SystemTime,
    thresholds: &Thresholds,
) -> (sessions: Vec<Session>)
    requires
        evidence.wf(),
    ensures
        are_transcripts(sessions@, *evidence, *previous, processes@, now, *thresholds),
{
    let mut sessions: Vec<Session> = match &evidence.sources.filed_namespaces {
        Ok(names) => filed_transcripts(evidence, names, previous, processes, now, thresholds),
        Err(_) => Vec::new(),
    };
    let mut behind: Vec<Session> = match &evidence.sources.codex_sessions {
        Ok(entries) => codex_transcripts(evidence, entries, previous, processes, now, thresholds),
        Err(_) => Vec::new(),
    };
    let ghost first = sessions@;
    let ghost second = behind@;
    sessions.append(&mut behind);
    assert(forall|i: int| first.len() <= i < sessions@.len() ==> sessions@[i] == second[i - first.len()]);
    sessions
}

impl Ranked for Identity {
    /// Processes by pid, then transcripts by name.
    open spec fn ranks_before(&self, other: &Identity) -> bool {
        match (*self, *other) {
            (Identity::Process { pid: mine }, Identity::Process { pid: theirs }) => mine < theirs,
            (
                Identity::Transcript { recorded_as: mine },
                Identity::Transcript { recorded_as: theirs },
            ) => text::comes_before(mine@, theirs@),
            (Identity::Process { .. }, Identity::Transcript { .. }) => true,
            (Identity::Transcript { .. }, Identity::Process { .. }) => false,
        }
    }

    fn precedes(&self, other: &Identity) -> (before: bool) {
        match (self, other) {
            (Identity::Process { pid: mine }, Identity::Process { pid: theirs }) => *mine < *theirs,
            (
                Identity::Transcript { recorded_as: mine },
                Identity::Transcript { recorded_as: theirs },
            ) => text::before(mine.as_str(), theirs.as_str()),
            (Identity::Process { .. }, Identity::Transcript { .. }) => true,
            (Identity::Transcript { .. }, Identity::Process { .. }) => false,
        }
    }

    proof fn ranks_are_ordered(first: Identity, second: Identity, third: Identity) {
        if let (
            Identity::Transcript { recorded_as: a },
            Identity::Transcript { recorded_as: b },
        ) = (first, second) {
            text::lemma_text_order_total(a@, b@);
            if let Identity::Transcript { recorded_as: c } = third {
                text::lemma_text_order_total(b@, c@);
                text::lemma_text_order_total(a@, c@);
                if text::comes_before(a@, b@) && text::comes_before(b@, c@) {
                    text::lemma_text_order_transitive(a@, b@, c@);
                }
                if text::comes_before(a@, c@) && text::comes_before(c@, b@) {
                    text::lemma_text_order_transitive(a@, c@, b@);
                }
                if text::comes_before(b@, a@) && text::comes_before(a@, c@) {
                    text::lemma_text_order_transitive(b@, a@, c@);
                }
            }
        }
    }
}

/// The identities of sessions.
pub open spec fn identities(sessions: Seq<Session>) -> Seq<Identity> {
    sessions.map_values(|session: Session| session.identity)
}

/// Whether sessions are what there is to find: one for each agent and one for each transcript
/// without a process, in the order of their identities.
pub open spec fn are_sessions(
    sessions: Seq<Session>,
    evidence: Evidence,
    previous: Memory,
    now: SystemTime,
    thresholds: Thresholds,
) -> bool {
    let processes = process_sessions(evidence, previous, now, thresholds);
    exists|transcripts: Seq<Session>, order: Seq<usize>|
        {
            &&& #[trigger] are_transcripts(
                transcripts,
                evidence,
                previous,
                processes,
                now,
                thresholds,
            )
            &&& #[trigger] order::is_stable_order(identities(processes + transcripts), order)
            &&& sessions == order::arranged(processes + transcripts, order)
        }
}

/// The sessions there are, in the order of their identities.
pub fn sessions_of(
    evidence: &Evidence,
    previous: &Memory,
    now: SystemTime,
    thresholds: &Thresholds,
) -> (sessions: Vec<Session>)
    requires
        evidence.wf(),
    ensures
        are_sessions(sessions@, *evidence, *previous, now, *thresholds),
{
    let mut all: Vec<Session> = resident_sessions(evidence, previous, now, thresholds);
    let ghost processes = all@;
    let mut rest: Vec<Session> = transcript_derived_sessions(
        evidence,
        previous,
        &all,
        now,
        thresholds,
    );
    let ghost transcripts = rest@;
    all.append(&mut rest);
    assert(all@ =~= processes + transcripts);
    let mut keys: Vec<Identity> = Vec::new();
    let mut next: usize = 0;
    while next < all.len()
        invariant
            next <= all@.len(),
            keys@ == identities(all@).take(next as int),
        decreases all@.len() - next,
    {
        keys.push(all[next].identity.clone());
        next += 1;
        assert(keys@ =~= identities(all@).take(next as int));
    }
    assert(keys@ =~= identities(all@));
    let order: Vec<usize> = order::stable_order(&keys);
    let sessions: Vec<Session> = order::arrange(all, &order);
    proof {
        assert(are_transcripts(transcripts, *evidence, *previous, processes, now, *thresholds));
        assert(order::is_stable_order(identities(processes + transcripts), order@));
    }
    sessions
}

} // verus!
