//! A collection: what it asks, what it makes of the answers, and what it leaves behind.

use crate::collect;
use crate::collect::sessions::Evidence;
use crate::collect::workspaces;
use crate::collect::{
    Answers, CollectError, Exchange, LivenessUnknown, Persistence, Role, Session, Snapshot,
};
use crate::deliver::DeliveryReport;
use crate::liveness::{Method, Thresholds};
use crate::memory::RememberedWorkspace;
use crate::notify::Announcement;
use crate::order;
use crate::text;
use crate::time::{Duration, SystemTime};
use crate::world::{
    ActivityUnavailable, NamespaceResolution, NotifyConfig, ProcessRecord, Resources,
    ResourcesUnavailable, Sweep,
};
use vstd::prelude::*;

verus! {

// --- What is asked -----------------------------------------------------------------------------

/// Of every recorded name it is asked when it was last active and where it leads, and of nothing else.
pub proof fn law_every_name_is_asked_about(
    names: Seq<String>,
    activities: Seq<Result<SystemTime, ActivityUnavailable>>,
    resolutions: Seq<NamespaceResolution>,
    at: int,
)
    ensures
        collect::names_asked(names, activities, resolutions).len() == 2 * names.len(),
        0 <= at < names.len() ==> {
            &&& collect::names_asked(names, activities, resolutions)[2 * at] == Exchange::Activity(
                names[at]@,
                activities[at],
            )
            &&& collect::names_asked(names, activities, resolutions)[2 * at + 1]
                == Exchange::Resolution(names[at]@, resolutions[at])
        },
    decreases names.len(),
{
    if names.len() > 0 {
        law_every_name_is_asked_about(names.drop_last(), activities, resolutions, at);
    }
}

/// Of every agent it is asked what its process has used, by the process's pid, and of nothing else.
pub proof fn law_every_agents_ledger_is_asked_for(
    agents: Seq<(usize, String)>,
    records: Seq<ProcessRecord>,
    ledgers: Seq<Result<Resources, ResourcesUnavailable>>,
    at: int,
)
    ensures
        collect::ledgers_asked(agents, records, ledgers).len() == agents.len(),
        0 <= at < agents.len() ==> collect::ledgers_asked(agents, records, ledgers)[at]
            == Exchange::Ledger(records[agents[at].0 as int].pid, ledgers[at]),
    decreases agents.len(),
{
    if agents.len() > 0 {
        law_every_agents_ledger_is_asked_for(agents.drop_last(), records, ledgers, at);
    }
}

/// Of every path it is asked which repository it lies in.
pub proof fn law_every_paths_repository_is_asked_for(
    paths: Seq<String>,
    roots: Seq<Option<(String, bool)>>,
    at: int,
)
    ensures
        collect::roots_asked(paths, roots).len() == paths.len(),
        0 <= at < paths.len() ==> collect::roots_asked(paths, roots)[at] == Exchange::Root(
            paths[at]@,
            roots[at],
        ),
    decreases paths.len(),
{
    if paths.len() > 0 {
        law_every_paths_repository_is_asked_for(paths.drop_last(), roots, at);
    }
}

/// A channel is given all alerts, by its own address, exactly if it is there and was asked; the local one
/// first.
pub proof fn law_each_channel_is_given_every_alert(
    config: NotifyConfig,
    announcements: Seq<Announcement>,
    local: Option<DeliveryReport>,
    remote: Option<DeliveryReport>,
    i: int,
)
    ensures
        ({
            let given = collect::given_to_channels(config, announcements, local, remote);
            let locally = config.local_command is Some && local is Some;
            let remotely = config.remote_url is Some && remote is Some;
            &&& given.len() == (if locally {
                1int
            } else {
                0
            }) + (if remotely {
                1int
            } else {
                0
            })
            &&& locally ==> given[0] == Exchange::Local(
                config.local_command->0@,
                collect::words_of(announcements),
                local->0,
            )
            &&& remotely ==> given.last() == Exchange::Remote(
                config.remote_url->0@,
                collect::words_of(announcements),
                remote->0,
            )
        }),
        collect::words_of(announcements).len() == announcements.len(),
        0 <= i < announcements.len() ==> collect::words_of(announcements)[i]
            == announcements[i]@.words(),
{
}

/// A channel that is there is asked exactly by a monitor with something to announce.
pub proof fn law_who_asks_the_channels(role: Role, alerts: nat)
    ensures
        collect::is_asking(role, alerts) <==> role == Role::Monitor && alerts != 0,
{
}

/// A collection asks first for the processes, then for what was stored, recorded and configured; and last
/// it stores what is new.
pub proof fn law_the_order_of_a_collection(snapshot: Snapshot, answers: Answers)
    ensures
        ({
            let asked = collect::conversation(snapshot, answers);
            &&& asked.len() >= 7
            &&& asked[0] == Exchange::Processes(Ok(answers.observation))
            &&& asked[1] == Exchange::Stored(answers.stored)
            &&& asked[2] == Exchange::Recorded(answers.recorded)
            &&& asked[3] == Exchange::Detectors(answers.detectors)
            &&& asked[4] == Exchange::Names(answers.evidence.sources.filed_namespaces)
            &&& asked[5] == Exchange::Codex(answers.evidence.sources.codex_sessions)
            &&& answers.written matches Some(came) ==> (asked.last() matches Exchange::Wrote(
                file,
                result,
            ) && file.memory == snapshot.remembered.memory && file.version == 1 && result == came)
        }),
{
}

/// What was asked between two readings of the clock took the time between them.
pub proof fn law_what_is_timed_lies_between_two_readings(
    before: Seq<Exchange>,
    after: Seq<Exchange>,
    begun: Duration,
    asked: Seq<Exchange>,
    ended: Duration,
)
    requires
        collect::is_timed(before, after, begun, asked, ended),
    ensures
        after.len() == before.len() + asked.len() + 2,
        after[before.len() as int] == Exchange::Clock(begun),
        after.last() == Exchange::Clock(ended),
        after.subrange(before.len() as int + 1, after.len() - 1) == asked,
        before.is_prefix_of(after),
{
    assert(after.subrange(before.len() as int + 1, after.len() - 1) =~= asked);
}

// --- Where workspaces are ----------------------------------------------------------------------

/// A path that lies in a repository has that repository for its home, linked worktree or not; any other is
/// its own home.
pub proof fn law_where_a_path_is_at_home(
    path: String,
    root: String,
    linked: bool,
    paths: Seq<String>,
    roots: Seq<Option<(String, bool)>>,
    at: int,
)
    ensures
        collect::home_of(path, Some((root, linked))) == (root, linked),
        collect::home_of(path, None) == (path, false),
        collect::homes_of(paths, roots).len() == paths.len(),
        0 <= at < paths.len() ==> collect::homes_of(paths, roots)[at] == collect::home_of(
            paths[at],
            roots[at],
        ),
{
}

/// Whether a path is among some, case aside.
pub open spec fn is_among(paths: Seq<String>, path: Seq<char>) -> bool {
    exists|i: int|
        0 <= i < paths.len() && text::lowercased((#[trigger] paths[i])@) == text::lowercased(path)
}

/// No place that anything names is left out: where sessions and processes work, where recorded names lead,
/// what Codex's index and the search name, and what is remembered.
pub proof fn law_no_place_is_left_out(
    sessions: Seq<Session>,
    evidence: Evidence,
    sweep: Sweep,
    known: Seq<RememberedWorkspace>,
    at: int,
)
    ensures
        ({
            let all = collect::all_candidates(sessions, evidence, sweep, known);
            &&& 0 <= at < sessions.len() && sessions[at].workspace is Ok ==> is_among(
                all,
                sessions[at].workspace->Ok_0.path@,
            )
            &&& 0 <= at < evidence.records@.len() && evidence.records@[at].cwd is Ok ==> is_among(
                all,
                evidence.records@[at].cwd->Ok_0@,
            )
            &&& 0 <= at < evidence.resolutions@.len() && evidence.resolutions@[at] is Resolved
                ==> is_among(all, evidence.resolutions@[at]->Resolved_0@)
            &&& 0 <= at < evidence.sources.indexed().len() ==> is_among(
                all,
                evidence.sources.indexed()[at].workspace@,
            )
            &&& 0 <= at < sweep.repositories@.len() ==> is_among(all, sweep.repositories@[at].0@)
            &&& 0 <= at < known.len() ==> is_among(all, known[at].path@)
        }),
{
    let one = workspaces::picked(sessions, workspaces::session_path());
    let two = workspaces::picked(evidence.records@, workspaces::process_path());
    let three = workspaces::picked(evidence.resolutions@, workspaces::resolved_path());
    let four = workspaces::picked(evidence.sources.indexed(), workspaces::entry_path());
    let five = workspaces::home_paths(sweep.repositories@);
    let six = collect::remembered_paths(known);
    let all = one + two + three + four + five + six;
    let first = one.len();
    let second = first + two.len();
    let third = second + three.len();
    let fourth = third + four.len();
    let fifth = fourth + five.len();
    lemma_distinct_keeps_a_case_of_each(all);
    lemma_what_is_picked(sessions, workspaces::session_path(), at);
    lemma_what_is_picked(evidence.records@, workspaces::process_path(), at);
    lemma_what_is_picked(evidence.resolutions@, workspaces::resolved_path(), at);
    lemma_what_is_picked(evidence.sources.indexed(), workspaces::entry_path(), at);
    if 0 <= at < sessions.len() && sessions[at].workspace is Ok {
        let path = sessions[at].workspace->Ok_0.path;
        let i = choose|i: int| 0 <= i < one.len() && one[i] == path;
        assert(all[i] == path);
    }
    if 0 <= at < evidence.records@.len() && evidence.records@[at].cwd is Ok {
        let path = evidence.records@[at].cwd->Ok_0;
        let i = choose|i: int| 0 <= i < two.len() && two[i] == path;
        assert(all[first + i] == path);
    }
    if 0 <= at < evidence.resolutions@.len() && evidence.resolutions@[at] is Resolved {
        let path = evidence.resolutions@[at]->Resolved_0;
        let i = choose|i: int| 0 <= i < three.len() && three[i] == path;
        assert(all[second + i] == path);
    }
    if 0 <= at < evidence.sources.indexed().len() {
        let path = evidence.sources.indexed()[at].workspace;
        let i = choose|i: int| 0 <= i < four.len() && four[i] == path;
        assert(all[third + i] == path);
    }
    if 0 <= at < sweep.repositories@.len() {
        assert(all[fourth + at] == sweep.repositories@[at].0);
    }
    if 0 <= at < known.len() {
        assert(all[fifth + at] == known[at].path);
    }
}

proof fn lemma_what_is_picked<T>(items: Seq<T>, pick: spec_fn(T) -> Option<String>, at: int)
    ensures
        0 <= at < items.len() && pick(items[at]) is Some ==> workspaces::picked(
            items,
            pick,
        ).contains(pick(items[at])->0),
    decreases items.len(),
{
    if 0 <= at < items.len() && pick(items[at]) is Some {
        let fewer = items.drop_last();
        let wanted = pick(items[at])->0;
        let before = workspaces::picked(fewer, pick);
        if at < fewer.len() {
            lemma_what_is_picked(fewer, pick, at);
            assert(fewer[at] == items[at]);
            let i = choose|i: int| 0 <= i < before.len() && before[i] == wanted;
            assert(workspaces::picked(items, pick)[i] == wanted);
        } else {
            assert(workspaces::picked(items, pick).last() == wanted);
        }
    }
}

proof fn lemma_distinct_keeps_a_case_of_each(paths: Seq<String>)
    ensures
        forall|i: int|
            0 <= i < paths.len() ==> is_among(
                workspaces::distinct(paths),
                (#[trigger] paths[i])@,
            ),
    decreases paths.len(),
{
    if paths.len() > 0 {
        let fewer = paths.drop_last();
        let before = workspaces::distinct(fewer);
        let after = workspaces::distinct(paths);
        lemma_distinct_keeps_a_case_of_each(fewer);
        assert forall|i: int| 0 <= i < paths.len() implies is_among(after, (#[trigger] paths[i])@) by {
            if i < fewer.len() {
                assert(fewer[i] == paths[i]);
                let k = choose|k: int|
                    0 <= k < before.len() && text::lowercased((#[trigger] before[k])@)
                        == text::lowercased(paths[i]@);
                assert(after[k] == before[k]);
            } else if workspaces::has_path(before, paths.last()@) {
                let k = choose|k: int|
                    0 <= k < before.len() && text::lowercased((#[trigger] before[k])@)
                        == text::lowercased(paths.last()@);
                assert(after[k] == before[k]);
            } else {
                assert(after[after.len() - 1] == paths.last());
            }
        }
    }
}

/// Every home that was found is a workspace, in some case, and no workspace is anything else.
pub proof fn law_every_home_is_a_workspace(
    homes: Seq<(String, bool)>,
    found: Seq<(String, bool)>,
    at: int,
)
    requires
        workspaces::are_workspaces(homes, found),
    ensures
        0 <= at < found.len() ==> exists|i: int|
            0 <= i < homes.len() && text::lowercased((#[trigger] homes[i]).0@) == text::lowercased(
                found[at].0@,
            ),
        0 <= at < homes.len() ==> found.contains(homes[at]),
{
    let distinct = workspaces::distinct_homes(found);
    let keys = workspaces::path_keys(distinct);
    let order = choose|order: Seq<usize>| #[trigger]
        order::is_stable_order(keys, order) && homes == order::arranged(distinct, order);
    lemma_distinct_homes(found);
    if 0 <= at < found.len() {
        let k = choose|k: int|
            0 <= k < distinct.len() && text::lowercased((#[trigger] distinct[k]).0@)
                == text::lowercased(found[at].0@);
        super::sessions::lemma_every_position_is_ordered(order, keys.len() as int, k);
        let i = choose|i: int| 0 <= i < order.len() && #[trigger] order[i] as int == k;
        assert(homes[i] == distinct[k]);
    }
    if 0 <= at < homes.len() {
        assert(homes[at] == distinct[order[at] as int]);
    }
}

proof fn lemma_distinct_homes(found: Seq<(String, bool)>)
    ensures
        forall|i: int|
            0 <= i < found.len() ==> exists|k: int|
                0 <= k < workspaces::distinct_homes(found).len() && text::lowercased(
                    (#[trigger] workspaces::distinct_homes(found)[k]).0@,
                ) == text::lowercased((#[trigger] found[i]).0@),
        forall|k: int|
            0 <= k < workspaces::distinct_homes(found).len() ==> found.contains(
                #[trigger] workspaces::distinct_homes(found)[k],
            ),
    decreases found.len(),
{
    if found.len() > 0 {
        let fewer = found.drop_last();
        let before = workspaces::distinct_homes(fewer);
        let after = workspaces::distinct_homes(found);
        lemma_distinct_homes(fewer);
        assert forall|i: int| 0 <= i < found.len() implies exists|k: int|
            0 <= k < after.len() && text::lowercased((#[trigger] after[k]).0@) == text::lowercased(
                (#[trigger] found[i]).0@,
            ) by {
            if i < fewer.len() {
                assert(fewer[i] == found[i]);
                let k = choose|k: int|
                    0 <= k < before.len() && text::lowercased((#[trigger] before[k]).0@)
                        == text::lowercased(found[i].0@);
                assert(after[k] == before[k]);
            } else if workspaces::has_path(workspaces::home_paths(before), found.last().0@) {
                let paths = workspaces::home_paths(before);
                let k = choose|k: int|
                    0 <= k < paths.len() && text::lowercased((#[trigger] paths[k])@)
                        == text::lowercased(found.last().0@);
                assert(paths[k] == before[k].0);
                assert(after[k] == before[k]);
            } else {
                assert(after[after.len() - 1] == found.last());
            }
        }
        assert forall|k: int| 0 <= k < after.len() implies found.contains(#[trigger] after[k]) by {
            if k < before.len() {
                assert(after[k] == before[k]);
                let i = choose|i: int| 0 <= i < fewer.len() && fewer[i] == before[k];
                assert(found[i] == after[k]);
            } else {
                assert(found[found.len() - 1] == after[k]);
            }
        }
    }
}

/// Workspaces come in the order of their paths.
pub proof fn law_workspaces_come_by_path(
    homes: Seq<(String, bool)>,
    found: Seq<(String, bool)>,
    i: int,
    j: int,
)
    requires
        workspaces::are_workspaces(homes, found),
        0 <= i < j < homes.len(),
    ensures
        !text::comes_before(homes[j].0@, homes[i].0@),
{
    let distinct = workspaces::distinct_homes(found);
    let keys = workspaces::path_keys(distinct);
    let order = choose|order: Seq<usize>| #[trigger]
        order::is_stable_order(keys, order) && homes == order::arranged(distinct, order);
    assert(order::belongs_before(keys, order[i] as int, order[j] as int));
    assert(keys[order[i] as int].path == homes[i].0);
    assert(keys[order[j] as int].path == homes[j].0);
    super::text::law_of_two_texts_one_comes_first(homes[i].0@, homes[j].0@);
}

/// What is searched for more are the directories that repositories stand in, each once, in order.
pub proof fn law_what_is_searched(
    parents: Seq<String>,
    roots: Seq<Option<(String, bool)>>,
    at: int,
    i: int,
    j: int,
)
    requires
        workspaces::are_sweep_roots(parents, roots),
    ensures
        0 <= at < roots.len() ==> (workspaces::searchable(roots[at]) matches Some(parent)
            ==> exists|k: int| 0 <= k < parents.len() && (#[trigger] parents[k])@ == parent),
        0 <= i < parents.len() ==> exists|k: int|
            0 <= k < roots.len() && workspaces::searchable(#[trigger] roots[k]) == Some(
                parents[i]@,
            ),
        0 <= i < j < parents.len() ==> parents[i]@ != parents[j]@ && !text::comes_before(
            parents[j]@,
            parents[i]@,
        ),
{
    if 0 <= at < roots.len() {
        if let Some(parent) = workspaces::searchable(roots[at]) {
            assert(workspaces::some_stands_in(roots, parent));
            assert(workspaces::has_text(parents, parent));
        }
    }
    if 0 <= i < parents.len() {
        assert(workspaces::has_text(parents, parents[i]@));
        assert(workspaces::some_stands_in(roots, parents[i]@));
        if i < j < parents.len() {
            super::text::law_of_two_texts_one_comes_first(parents[i]@, parents[j]@);
        }
    }
}

// --- What it comes to --------------------------------------------------------------------------

/// A snapshot is of the moment it was taken, remembers for as long as the thresholds say, and is complete if
/// its search was.
pub proof fn law_what_a_snapshot_carries(
    snapshot: Snapshot,
    answers: Answers,
    now: SystemTime,
    thresholds: Thresholds,
    role: Role,
)
    requires
        collect::is_snapshot(snapshot, answers, now, thresholds, role),
    ensures
        snapshot.taken_at == now,
        snapshot.sweep_complete == answers.sweep.complete,
        snapshot.remembered.retention.nanos == thresholds.forget.nanos,
        snapshot.remembered.detector_config == answers.detectors,
        snapshot.remembered.notify_health.config == answers.config,
        snapshot.remembered.notify_health.notable == answers.announcements.len(),
        snapshot.workspaces@.len() <= answers.homes.len(),
        snapshot.workspaces@.len() <= answers.facts.len(),
        forall|i: int|
            0 <= i < snapshot.workspaces@.len() ==> (#[trigger] snapshot.workspaces@[i]).path
                == answers.homes[i].0,
        role == Role::Display ==> answers.local is None && answers.remote is None && answers.written
            is None && answers.noted is None,
        role == Role::Monitor ==> answers.written is Some && answers.noted is Some
            && snapshot.remembered.notify_health.read_only is None,
        role == Role::Monitor && answers.announcements.len() > 0 ==> (answers.local is Some
            <==> answers.config.local_command is Some) && (answers.remote is Some
            <==> answers.config.remote_url is Some),
{
}

/// A collection fails exactly if the processes could not be enumerated, or whoever looked is not among them;
/// and then it asks nothing else.
pub proof fn law_when_a_collection_fails(
    result: Result<Snapshot, CollectError>,
    asked: Seq<Exchange>,
    now: SystemTime,
    thresholds: Thresholds,
    role: Role,
)
    requires
        collect::is_outcome(result, asked, now, thresholds, role),
    ensures
        asked.len() > 0,
        asked[0] matches Exchange::Processes(Err(why)) ==> result == Err::<Snapshot, CollectError>(
            CollectError::World(why),
        ),
        asked[0] matches Exchange::Processes(Ok(seen)) ==> (seen.sees_itself() <==> result is Ok),
        result is Err ==> asked.len() == 1,
{
    if let Ok(snapshot) = result {
        let answers = choose|answers: Answers| #[trigger]
            collect::is_snapshot(snapshot, answers, now, thresholds, role) && asked
                == collect::conversation(snapshot, answers);
        law_the_order_of_a_collection(snapshot, answers);
    }
}

/// What was to be stored is stored exactly if a monitor stored it without an error.
pub proof fn law_what_became_of_storing(
    persisted: Persistence,
    came: Option<Result<(), String>>,
    role: Role,
)
    requires
        collect::is_fate(persisted, came, role),
    ensures
        persisted is Stored <==> role == Role::Monitor && came is Some && came->0 is Ok,
        persisted is Failed <==> role == Role::Monitor && came is Some && came->0 is Err,
        persisted is NotAttempted <==> role == Role::Display,
        persisted matches Persistence::Failed(why) ==> came->0->Err_0 == why,
{
}

/// A session's state is in doubt exactly where it was not determined; and the doubt is one that nothing can
/// dispel exactly where no transcript store is known for its CLI.
pub proof fn law_when_a_state_is_in_doubt(session: Session)
    ensures
        session.doubt() is Some <==> session.liveness.method == Method::TranscriptActivityUnknown
            || session.liveness.method == Method::SnapshotCannotEstablishAbsence
            || session.liveness.method == Method::ProcessAbsentBeforeStallThreshold,
        session.doubt() matches Some(doubt) ==> (doubt.0 <==> session.liveness.method
            == Method::TranscriptActivityUnknown && (session.workspace matches Ok(workspace) && (
        workspace.namespace matches Err(why) && why is UnknownCli))),
        session.liveness.method == Method::ProcessAbsentBeforeStallThreshold ==> (session.doubt()->0).1
            == LivenessUnknown::TooSoonToTell.words(),
        session.liveness.method == Method::SnapshotCannotEstablishAbsence ==> (session.doubt()->0).1
            == LivenessUnknown::SnapshotUntrustworthy.words(),
{
}

} // verus!
