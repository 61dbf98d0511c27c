//! What is found: the sessions of processes, those of transcripts alone, and the order they come in.

use crate::collect::attribution;
use crate::collect::sessions;
use crate::collect::sessions::Evidence;
use crate::collect::{Identity, Session};
use crate::liveness::{State, Thresholds};
use crate::memory::Memory;
use crate::order;
use crate::order::Ranked;
use crate::text;
use crate::time::{Duration, SystemTime};
use crate::world::{
    NamespaceResolution, NamespaceUnmatched, Resources, ResourcesUnavailable, Workspace,
    WorkspaceUnknown,
};
use vstd::prelude::*;

verus! {

// --- Sessions of processes ---------------------------------------------------------------------

/// A session of a process carries the process's pid, the CLI it was recognised as, what it was measured to
/// cost, and where it works.
pub proof fn law_a_process_makes_a_session(
    evidence: Evidence,
    previous: Memory,
    agent: int,
    now: SystemTime,
    thresholds: Thresholds,
)
    requires
        evidence.wf(),
        0 <= agent < evidence.agents@.len(),
    ensures
        ({
            let session = sessions::process_session(evidence, previous, agent, now, thresholds);
            let process = evidence.records@[evidence.agents@[agent].0 as int];
            &&& session.identity == (Identity::Process { pid: process.pid })
            &&& session.cli == evidence.agents@[agent].1
            &&& session.resources == evidence.ledgers@[agent]
            &&& session.workspace == attribution::workspace_for(
                evidence.agents@[agent].1,
                process,
                evidence.sources,
            )
        }),
{
}

/// A session whose process is there is never stalled. It is active if it wrote within the quiet threshold,
/// waits if it has been silent for longer, and is in an unknown state if nobody can tell since when.
pub proof fn law_a_process_keeps_a_session_from_stalling(
    evidence: Evidence,
    previous: Memory,
    agent: int,
    now: SystemTime,
    thresholds: Thresholds,
)
    requires
        evidence.wf(),
        0 <= agent < evidence.agents@.len(),
    ensures
        ({
            let session = sessions::process_session(evidence, previous, agent, now, thresholds);
            let silence = attribution::silence_for(
                session.workspace,
                session.cli@,
                evidence.sources,
                evidence.activities@,
                now,
            );
            &&& session.liveness.state != State::Stalled
            &&& session.liveness.state == State::Unknown <==> silence is None
            &&& session.liveness.state == State::Active <==> silence is Some && silence->0.nanos
                <= thresholds.quiet.nanos
            &&& session.liveness.state == State::Waiting <==> silence is Some && silence->0.nanos
                > thresholds.quiet.nanos
        }),
{
}

/// What is seen of a process: it is there, and what works in its workspace besides is some other process
/// whose directory lies inside it.
pub proof fn law_a_process_is_not_its_own_work(
    evidence: Evidence,
    at: int,
    cli: String,
    now: SystemTime,
)
    requires
        0 <= at < evidence.records@.len(),
    ensures
        ({
            let process = evidence.records@[at];
            let place = attribution::workspace_for(cli, process, evidence.sources);
            let seen = sessions::seen_of_process(evidence, process, cli, now);
            &&& seen.process_resident
            &&& seen.snapshot_trustworthy
            &&& seen.work_running_in_workspace <==> place is Ok && exists|i: int|
                {
                    &&& 0 <= i < evidence.records@.len()
                    &&& (#[trigger] evidence.records@[i]).cwd is Ok
                    &&& attribution::lies_inside(
                        evidence.records@[i].cwd->Ok_0@,
                        place->Ok_0.path@,
                    )
                    &&& evidence.records@[i].pid != process.pid
                }
        }),
{
    let process = evidence.records@[at];
    if let Ok(place) = attribution::workspace_for(cli, process, evidence.sources) {
        super::liveness::law_work_is_a_process_of_somebody_else(
            evidence.records@,
            place.path@,
            Some(process.pid),
        );
    }
}

/// An earlier reading is recalled exactly where the present one failed and the session goes by a name.
pub proof fn law_an_earlier_reading_stands_in_for_a_failed_one(
    resources: Result<Resources, ResourcesUnavailable>,
    cli: Seq<char>,
    name: String,
    previous: Memory,
)
    ensures
        sessions::recollection(resources, cli, None, previous) is None,
        resources is Ok ==> sessions::recollection(resources, cli, Some(name), previous) is None,
        resources is Err ==> sessions::recollection(resources, cli, Some(name), previous)
            == previous.recalled(cli, name@),
{
}

/// A session goes by the name its workspace's transcripts are recorded under, and by none if it has no
/// workspace or its workspace no name.
pub proof fn law_a_session_goes_by_its_recorded_name(
    path: String,
    name: String,
    session: Session,
    cli: Seq<char>,
    other: Seq<char>,
)
    requires
        session.workspace == Ok::<Workspace, WorkspaceUnknown>(
            Workspace { path, namespace: Ok(name) },
        ),
    ensures
        sessions::name_of(session.workspace) == Some(name),
        sessions::goes_by(session, cli, other) <==> session.cli@ == cli && name@ == other,
{
}

/// A session without a workspace, or in one that is recorded under no name, goes by none and claims no
/// transcript.
pub proof fn law_a_nameless_session_claims_nothing(
    session: Session,
    cli: Seq<char>,
    name: Seq<char>,
)
    requires
        session.workspace is Err || session.workspace->Ok_0.namespace is Err,
    ensures
        sessions::name_of(session.workspace) is None,
        !sessions::goes_by(session, cli, name),
        !sessions::claimed(seq![session], cli, name),
{
}

// --- Sessions of transcripts alone -------------------------------------------------------------

/// A transcript is looked at without a process for as long as its silence is no longer than the stall
/// threshold two times over.
pub proof fn law_a_transcript_is_looked_at_for_two_stalls(silence: Duration, thresholds: Thresholds)
    ensures
        sessions::within_window(silence, thresholds) <==> silence.nanos <= thresholds.stall.nanos
            + thresholds.stall.nanos,
{
}

/// A recorded name stands alone exactly if its last activity is known, lies no further back than two stall
/// thresholds, and no session of the filing CLI's processes goes by it.
pub proof fn law_which_names_stand_alone(
    evidence: Evidence,
    at: int,
    processes: Seq<Session>,
    now: SystemTime,
    thresholds: Thresholds,
)
    ensures
        sessions::stands_alone(evidence, at, processes, now, thresholds) <==> {
            &&& evidence.activities@[at] is Ok
            &&& now.nanos - evidence.activities@[at]->Ok_0.nanos <= 2 * thresholds.stall.nanos
            &&& forall|i: int|
                0 <= i < processes.len() && (#[trigger] processes[i]).cli@
                    == evidence.sources.filing_cli@ && processes[i].workspace is Ok
                    && processes[i].workspace->Ok_0.namespace is Ok
                    ==> processes[i].workspace->Ok_0.namespace->Ok_0@
                    != evidence.sources.names()[at]@
        },
{
    let cli = evidence.sources.filing_cli@;
    let name = evidence.sources.names()[at]@;
    assert forall|i: int| 0 <= i < processes.len() implies sessions::goes_by(
        #[trigger] processes[i],
        cli,
        name,
    ) == (processes[i].cli@ == cli && processes[i].workspace is Ok
        && processes[i].workspace->Ok_0.namespace is Ok
        && processes[i].workspace->Ok_0.namespace->Ok_0@ == name) by {
    }
}

/// An entry of Codex's index stands alone exactly if its last activity lies no further back than two stall
/// thresholds and no session of Codex's processes goes by its id.
pub proof fn law_which_entries_stand_alone(
    evidence: Evidence,
    at: int,
    processes: Seq<Session>,
    now: SystemTime,
    thresholds: Thresholds,
)
    ensures
        sessions::entry_stands_alone(evidence, at, processes, now, thresholds) <==> {
            &&& now.nanos - evidence.sources.indexed()[at].last_activity.nanos <= 2
                * thresholds.stall.nanos
            &&& forall|i: int|
                0 <= i < processes.len() && (#[trigger] processes[i]).cli@ == "codex"@
                    && processes[i].workspace is Ok && processes[i].workspace->Ok_0.namespace is Ok
                    ==> processes[i].workspace->Ok_0.namespace->Ok_0@
                    != evidence.sources.indexed()[at].id@
        },
{
    let name = evidence.sources.indexed()[at].id@;
    assert forall|i: int| 0 <= i < processes.len() implies sessions::goes_by(
        #[trigger] processes[i],
        "codex"@,
        name,
    ) == (processes[i].cli@ == "codex"@ && processes[i].workspace is Ok
        && processes[i].workspace->Ok_0.namespace is Ok
        && processes[i].workspace->Ok_0.namespace->Ok_0@ == name) by {
    }
}

/// Every recorded name that stands alone is listed, once and in its place, and nothing else is.
pub proof fn law_every_name_that_stands_alone_is_listed(
    evidence: Evidence,
    upto: int,
    processes: Seq<Session>,
    now: SystemTime,
    thresholds: Thresholds,
    at: int,
)
    ensures
        ({
            let listed = sessions::standing_alone(evidence, upto, processes, now, thresholds);
            &&& listed.contains(at) <==> 0 <= at < upto && sessions::stands_alone(
                evidence,
                at,
                processes,
                now,
                thresholds,
            )
            &&& forall|i: int, j: int| 0 <= i < j < listed.len() ==> listed[i] < listed[j]
            &&& forall|i: int| 0 <= i < listed.len() ==> 0 <= #[trigger] listed[i] < upto
        }),
    decreases upto,
{
    if upto > 0 {
        law_every_name_that_stands_alone_is_listed(
            evidence,
            upto - 1,
            processes,
            now,
            thresholds,
            at,
        );
        let before = sessions::standing_alone(evidence, upto - 1, processes, now, thresholds);
        assert(before.push(upto - 1).last() == upto - 1);
        assert forall|k: int| before.contains(k) implies before.push(upto - 1).contains(k) by {
            let i = choose|i: int| 0 <= i < before.len() && before[i] == k;
            assert(before.push(upto - 1)[i] == k);
        }
        assert forall|k: int| before.push(upto - 1).contains(k) implies before.contains(k) || k
            == upto - 1 by {
        }
    }
}

/// Every entry of Codex's index that stands alone is listed, once and in its place, and nothing else is.
pub proof fn law_every_entry_that_stands_alone_is_listed(
    evidence: Evidence,
    upto: int,
    processes: Seq<Session>,
    now: SystemTime,
    thresholds: Thresholds,
    at: int,
)
    ensures
        ({
            let listed = sessions::entries_standing_alone(evidence, upto, processes, now, thresholds);
            &&& listed.contains(at) <==> 0 <= at < upto && sessions::entry_stands_alone(
                evidence,
                at,
                processes,
                now,
                thresholds,
            )
            &&& forall|i: int, j: int| 0 <= i < j < listed.len() ==> listed[i] < listed[j]
            &&& forall|i: int| 0 <= i < listed.len() ==> 0 <= #[trigger] listed[i] < upto
        }),
    decreases upto,
{
    if upto > 0 {
        law_every_entry_that_stands_alone_is_listed(
            evidence,
            upto - 1,
            processes,
            now,
            thresholds,
            at,
        );
        let before = sessions::entries_standing_alone(evidence, upto - 1, processes, now, thresholds);
        assert(before.push(upto - 1).last() == upto - 1);
        assert forall|k: int| before.contains(k) implies before.push(upto - 1).contains(k) by {
            let i = choose|i: int| 0 <= i < before.len() && before[i] == k;
            assert(before.push(upto - 1)[i] == k);
        }
        assert forall|k: int| before.push(upto - 1).contains(k) implies before.contains(k) || k
            == upto - 1 by {
        }
    }
}

/// What looking for a recorded name told is where its session worked: the one place that was found, under
/// that name, and otherwise why there is none, with the number of places that it might have been.
pub proof fn law_where_a_recorded_name_leads(
    name: String,
    path: String,
    candidates: Vec<String>,
    resolution: NamespaceResolution,
)
    ensures
        sessions::resolved_workspace(name, NamespaceResolution::Resolved(path)) matches Ok(place)
            && place.path == path && place.namespace == Ok::<String, NamespaceUnmatched>(name),
        resolution is Resolved <==> sessions::resolved_workspace(name, resolution) is Ok,
        sessions::resolved_workspace(name, NamespaceResolution::Ambiguous(candidates)) matches Err(
            WorkspaceUnknown::Ambiguous { candidates: number },
        ) && number == candidates@.len(),
        resolution is NoLongerExists <==> sessions::resolved_workspace(name, resolution) == Err::<
            Workspace,
            WorkspaceUnknown,
        >(WorkspaceUnknown::WorkspaceGone),
        resolution is SearchExhausted <==> sessions::resolved_workspace(name, resolution) == Err::<
            Workspace,
            WorkspaceUnknown,
        >(WorkspaceUnknown::SearchIncomplete),
{
    assert(candidates@.len() == candidates.len());
}

/// A session behind a recorded name has no process and no costs, and its silence counts from the last
/// activity under that name: it is active within the quiet threshold; past it, it waits while anything works
/// in its workspace, and is stalled past the stall threshold while nothing does.
pub proof fn law_a_filed_transcript_is_judged_by_its_silence(
    session: Session,
    evidence: Evidence,
    previous: Memory,
    at: int,
    now: SystemTime,
    thresholds: Thresholds,
)
    requires
        sessions::is_filed_transcript(session, evidence, previous, at, now, thresholds),
        evidence.activities@[at] is Ok,
        evidence.activities@[at]->Ok_0.nanos <= now.nanos,
    ensures
        ({
            let silence = now.nanos - evidence.activities@[at]->Ok_0.nanos;
            let name = evidence.sources.names()[at];
            let work = if let Ok(place) = session.workspace {
                attribution::work_in(evidence.records@, place.path@, None)
            } else {
                attribution::work_filed_under(evidence.records@, name@, evidence.detectors@)
            };
            &&& session.identity == (Identity::Transcript { recorded_as: name })
            &&& session.cli@ == evidence.sources.filing_cli@
            &&& session.resources == Err::<Resources, ResourcesUnavailable>(
                ResourcesUnavailable::ProcessExited,
            )
            &&& session.last_reading == previous.recalled(evidence.sources.filing_cli@, name@)
            &&& session.workspace is Ok ==> session.workspace->Ok_0.namespace
                == Ok::<String, NamespaceUnmatched>(name)
            &&& session.liveness.state == State::Active <==> silence <= thresholds.quiet.nanos
            &&& session.liveness.state == State::Waiting <==> silence > thresholds.quiet.nanos
                && work
            &&& session.liveness.state == State::Stalled <==> silence > thresholds.quiet.nanos
                && silence > thresholds.stall.nanos && !work
        }),
{
}

/// A session behind an entry of Codex's index has no process and no costs, works where the entry says, and
/// its silence counts from the entry's last activity, as that of a recorded name does.
pub proof fn law_a_codex_transcript_is_judged_by_its_silence(
    session: Session,
    evidence: Evidence,
    previous: Memory,
    at: int,
    now: SystemTime,
    thresholds: Thresholds,
)
    requires
        sessions::is_codex_transcript(session, evidence, previous, at, now, thresholds),
        evidence.sources.indexed()[at].last_activity.nanos <= now.nanos,
    ensures
        ({
            let entry = evidence.sources.indexed()[at];
            let silence = now.nanos - entry.last_activity.nanos;
            let work = attribution::work_in(evidence.records@, entry.workspace@, None);
            &&& session.identity == (Identity::Transcript { recorded_as: entry.id })
            &&& session.cli@ == "codex"@
            &&& session.resources == Err::<Resources, ResourcesUnavailable>(
                ResourcesUnavailable::ProcessExited,
            )
            &&& session.last_reading == previous.recalled("codex"@, entry.id@)
            &&& session.workspace matches Ok(place) && place.path == entry.workspace
                && place.namespace == Ok::<String, NamespaceUnmatched>(entry.id)
            &&& session.liveness.state == State::Active <==> silence <= thresholds.quiet.nanos
            &&& session.liveness.state == State::Waiting <==> silence > thresholds.quiet.nanos
                && work
            &&& session.liveness.state == State::Stalled <==> silence > thresholds.quiet.nanos
                && silence > thresholds.stall.nanos && !work
        }),
{
}

// --- All of them -------------------------------------------------------------------------------

/// Nothing is left out: every agent has a session, every recorded name that stands alone has one, and so has
/// every entry of Codex's index that does.
pub proof fn law_every_session_is_found(
    found: Seq<Session>,
    evidence: Evidence,
    previous: Memory,
    now: SystemTime,
    thresholds: Thresholds,
    agent: int,
    name: int,
    entry: int,
)
    requires
        sessions::are_sessions(found, evidence, previous, now, thresholds),
    ensures
        ({
            let processes = sessions::process_sessions(evidence, previous, now, thresholds);
            &&& 0 <= agent < evidence.agents@.len() ==> found.contains(
                sessions::process_session(evidence, previous, agent, now, thresholds),
            )
            &&& 0 <= name < evidence.sources.names().len() && sessions::stands_alone(
                evidence,
                name,
                processes,
                now,
                thresholds,
            ) ==> exists|i: int|
                0 <= i < found.len() && sessions::is_filed_transcript(
                    #[trigger] found[i],
                    evidence,
                    previous,
                    name,
                    now,
                    thresholds,
                )
            &&& 0 <= entry < evidence.sources.indexed().len() && sessions::entry_stands_alone(
                evidence,
                entry,
                processes,
                now,
                thresholds,
            ) ==> exists|i: int|
                0 <= i < found.len() && sessions::is_codex_transcript(
                    #[trigger] found[i],
                    evidence,
                    previous,
                    entry,
                    now,
                    thresholds,
                )
        }),
{
    let processes = sessions::process_sessions(evidence, previous, now, thresholds);
    let (transcripts, order) = choose|transcripts: Seq<Session>, order: Seq<usize>|
        {
            &&& #[trigger] sessions::are_transcripts(
                transcripts,
                evidence,
                previous,
                processes,
                now,
                thresholds,
            )
            &&& #[trigger] order::is_stable_order(
                sessions::identities(processes + transcripts),
                order,
            )
            &&& found == order::arranged(processes + transcripts, order)
        };
    let all = processes + transcripts;
    let upto = evidence.sources.names().len() as int;
    let length = evidence.sources.indexed().len() as int;
    let names = sessions::standing_alone(evidence, upto, processes, now, thresholds);
    let entries = sessions::entries_standing_alone(evidence, length, processes, now, thresholds);
    if 0 <= agent < evidence.agents@.len() {
        assert(all[agent] == sessions::process_session(evidence, previous, agent, now, thresholds));
        lemma_nothing_is_lost(all, order, sessions::identities(all), agent);
    }
    if 0 <= name < upto && sessions::stands_alone(evidence, name, processes, now, thresholds) {
        law_every_name_that_stands_alone_is_listed(
            evidence,
            upto,
            processes,
            now,
            thresholds,
            name,
        );
        let k = choose|k: int| 0 <= k < names.len() && names[k] == name;
        assert(all[processes.len() + k] == transcripts[k]);
        lemma_nothing_is_lost(all, order, sessions::identities(all), processes.len() + k);
        let i = choose|i: int| 0 <= i < found.len() && found[i] == transcripts[k];
        assert(sessions::is_filed_transcript(
            found[i],
            evidence,
            previous,
            name,
            now,
            thresholds,
        ));
    }
    if 0 <= entry < length && sessions::entry_stands_alone(
        evidence,
        entry,
        processes,
        now,
        thresholds,
    ) {
        law_every_entry_that_stands_alone_is_listed(
            evidence,
            length,
            processes,
            now,
            thresholds,
            entry,
        );
        let k = choose|k: int| 0 <= k < entries.len() && entries[k] == entry;
        let place = names.len() + k;
        assert(all[processes.len() + place] == transcripts[place]);
        lemma_nothing_is_lost(all, order, sessions::identities(all), processes.len() + place);
        let i = choose|i: int| 0 <= i < found.len() && found[i] == transcripts[place];
        assert(sessions::is_codex_transcript(
            found[i],
            evidence,
            previous,
            entry,
            now,
            thresholds,
        ));
    }
}

/// What is put in order is all still there.
proof fn lemma_nothing_is_lost<K: Ranked>(
    items: Seq<Session>,
    order: Seq<usize>,
    keys: Seq<K>,
    at: int,
)
    requires
        order::is_stable_order(keys, order),
        keys.len() == items.len(),
        0 <= at < items.len(),
    ensures
        order::arranged(items, order).contains(items[at]),
{
    lemma_every_position_is_ordered(order, items.len() as int, at);
    let i = choose|i: int| 0 <= i < order.len() && #[trigger] order[i] as int == at;
    assert(order::arranged(items, order)[i] == items[at]);
}

/// Every position stands somewhere in an arrangement.
pub proof fn lemma_every_position_is_ordered(order: Seq<usize>, count: int, at: int)
    requires
        order::is_arrangement(order, count),
        0 <= at < count,
    ensures
        exists|i: int| 0 <= i < order.len() && #[trigger] order[i] as int == at,
{
    lemma_distinct_numbers_reach(order);
    let k = at as usize;
    assert(order.contains(k));
    let i = choose|i: int| 0 <= i < order.len() && order[i] == k;
    assert(order[i] as int == at);
}

/// A list of different numbers of the machine's is no longer than there are such numbers.
proof fn lemma_distinct_numbers_reach(order: Seq<usize>)
    requires
        forall|i: int, j: int| 0 <= i < j < order.len() ==> order[i] != order[j],
    ensures
        order.len() <= usize::MAX + 1,
{
    let numbers = order.map_values(|k: usize| k as int);
    assert(numbers.no_duplicates());
    numbers.unique_seq_to_set();
    let all = vstd::set_lib::set_int_range(0, usize::MAX + 1);
    vstd::set_lib::lemma_int_range(0, usize::MAX + 1);
    assert(numbers.to_set().subset_of(all)) by {
        assert forall|k: int| numbers.to_set().contains(k) implies all.contains(k) by {
            let i = choose|i: int| 0 <= i < numbers.len() && numbers[i] == k;
            assert(numbers[i] == order[i] as int);
        }
    }
    vstd::set_lib::lemma_len_subset(numbers.to_set(), all);
}

/// Sessions come in order: those of processes first, by pid, then those of transcripts, by name.
pub proof fn law_processes_come_first_by_pid(
    found: Seq<Session>,
    evidence: Evidence,
    previous: Memory,
    now: SystemTime,
    thresholds: Thresholds,
    i: int,
    j: int,
)
    requires
        sessions::are_sessions(found, evidence, previous, now, thresholds),
        0 <= i < j < found.len(),
    ensures
        match (found[i].identity, found[j].identity) {
            (Identity::Process { pid: one }, Identity::Process { pid: other }) => one <= other,
            (
                Identity::Transcript { recorded_as: one },
                Identity::Transcript { recorded_as: other },
            ) => !text::comes_before(other@, one@),
            (Identity::Transcript { .. }, Identity::Process { .. }) => false,
            (Identity::Process { .. }, Identity::Transcript { .. }) => true,
        },
{
    let processes = sessions::process_sessions(evidence, previous, now, thresholds);
    let (transcripts, order) = choose|transcripts: Seq<Session>, order: Seq<usize>|
        {
            &&& #[trigger] sessions::are_transcripts(
                transcripts,
                evidence,
                previous,
                processes,
                now,
                thresholds,
            )
            &&& #[trigger] order::is_stable_order(
                sessions::identities(processes + transcripts),
                order,
            )
            &&& found == order::arranged(processes + transcripts, order)
        };
    let all = processes + transcripts;
    let keys = sessions::identities(all);
    assert(order::belongs_before(keys, order[i] as int, order[j] as int));
    assert(keys[order[i] as int] == found[i].identity);
    assert(keys[order[j] as int] == found[j].identity);
    if let (
        Identity::Transcript { recorded_as: one },
        Identity::Transcript { recorded_as: other },
    ) = (found[i].identity, found[j].identity) {
        super::text::law_of_two_texts_one_comes_first(one@, other@);
    }
}

} // verus!
