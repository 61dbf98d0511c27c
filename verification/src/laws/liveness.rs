//! Sessions: which programs are agents, what their silence means, and where they work.

use crate::collect::attribution;
use crate::collect::attribution::AttributionSources;
use crate::detect;
use crate::detect::Detector;
use crate::liveness;
use crate::liveness::{Method, Observation, State, Thresholds};
use crate::order;
use crate::text;
use crate::time::{Duration, SystemTime};
use crate::world::{
    ActivityUnavailable, NamespaceUnmatched, ProcessRecord, Workspace, WorkspaceUnknown,
};
use vstd::prelude::*;

verus! {

// --- What silence means ------------------------------------------------------------------------

/// A session whose transcript changed no longer ago than the quiet threshold is active, whatever else is
/// there, unless nobody can tell whether its process is; and no other session is.
pub proof fn law_a_recent_change_is_activity(seen: Observation, thresholds: Thresholds)
    ensures
        liveness::verdict(seen, thresholds).state == State::Active <==> {
            &&& seen.silence is Some
            &&& seen.silence->0.nanos <= thresholds.quiet.nanos
            &&& seen.snapshot_trustworthy || seen.process_resident
        },
        liveness::verdict(seen, thresholds).method == Method::TranscriptChangedRecently
            <==> liveness::verdict(seen, thresholds).state == State::Active,
{
}

/// A session waits exactly if it has been silent for longer than the quiet threshold while its process is
/// there, or while something else works in its workspace and its process is known to be gone.
pub proof fn law_waiting_is_silence_beside_something_alive(
    seen: Observation,
    thresholds: Thresholds,
)
    ensures
        liveness::verdict(seen, thresholds).state == State::Waiting <==> {
            &&& seen.silence is Some
            &&& seen.silence->0.nanos > thresholds.quiet.nanos
            &&& seen.process_resident || seen.snapshot_trustworthy && seen.work_running_in_workspace
        },
        liveness::verdict(seen, thresholds).state == State::Waiting ==> liveness::verdict(
            seen,
            thresholds,
        ).method == if seen.process_resident {
            Method::ProcessResidentButSilent
        } else {
            Method::WorkRunningInWorkspace
        },
{
}

/// A session is stalled exactly if it has been silent for longer than both thresholds, its process is known
/// to be gone, and nothing works in its workspace.
pub proof fn law_stalled_is_silence_beside_nothing(seen: Observation, thresholds: Thresholds)
    ensures
        liveness::verdict(seen, thresholds).state == State::Stalled <==> {
            &&& seen.silence is Some
            &&& seen.silence->0.nanos > thresholds.quiet.nanos
            &&& seen.silence->0.nanos > thresholds.stall.nanos
            &&& seen.snapshot_trustworthy
            &&& !seen.process_resident
            &&& !seen.work_running_in_workspace
        },
        liveness::verdict(seen, thresholds).state == State::Stalled ==> liveness::verdict(
            seen,
            thresholds,
        ).method == Method::NoProcessAndSilencePastStall,
{
}

/// What is unknown of a session says which of three things is missing: when it last wrote, whether its
/// process is there, or enough silence.
pub proof fn law_the_unknown_says_what_is_missing(seen: Observation, thresholds: Thresholds)
    requires
        liveness::verdict(seen, thresholds).state == State::Unknown,
    ensures
        match liveness::verdict(seen, thresholds).method {
            Method::TranscriptActivityUnknown => seen.silence is None,
            Method::SnapshotCannotEstablishAbsence => seen.silence is Some
                && !seen.snapshot_trustworthy && !seen.process_resident,
            Method::ProcessAbsentBeforeStallThreshold => {
                &&& seen.silence is Some
                &&& seen.snapshot_trustworthy
                &&& seen.silence->0.nanos <= thresholds.stall.nanos
            },
            _ => false,
        },
{
}

/// As a session falls silent for longer, it never becomes active again, and once stalled it stays so.
pub proof fn law_silence_only_ages(seen: Observation, later: Observation, thresholds: Thresholds)
    requires
        seen.silence is Some,
        later.silence is Some,
        seen.silence->0.nanos <= later.silence->0.nanos,
        later.process_resident == seen.process_resident,
        later.work_running_in_workspace == seen.work_running_in_workspace,
        later.snapshot_trustworthy == seen.snapshot_trustworthy,
    ensures
        liveness::verdict(later, thresholds).state == State::Active ==> liveness::verdict(
            seen,
            thresholds,
        ).state == State::Active,
        liveness::verdict(seen, thresholds).state == State::Stalled ==> liveness::verdict(
            later,
            thresholds,
        ).state == State::Stalled,
{
}

/// Without a setting a session is quiet after ten minutes and stalled after twelve hours.
pub proof fn law_the_usual_thresholds()
    ensures
        Thresholds::usual().quiet.nanos == 10 * 60 * 1_000_000_000,
        Thresholds::usual().stall.nanos == 12 * 60 * 60 * 1_000_000_000,
        Thresholds::usual().forget.nanos == 7 * 24 * 60 * 60 * 1_000_000_000,
{
}

/// A setting is a number of seconds, white space around it aside; no setting is the usual span; anything
/// else is a fault.
pub proof fn law_a_setting_is_in_seconds(
    before: Seq<char>,
    seconds: nat,
    after: Seq<char>,
    usual: Duration,
)
    requires
        crate::laws::text::is_blank(before),
        crate::laws::text::is_blank(after),
        seconds <= u64::MAX,
    ensures
        liveness::seconds_setting(None, usual) == Ok::<Duration, text::NumberFault>(usual),
        liveness::seconds_setting(Some(before + text::decimal(seconds) + after), usual) matches Ok(
            span,
        ) && span.nanos == seconds * 1_000_000_000,
        liveness::seconds_setting(Some(before), usual) is Err,
{
    let number = text::decimal(seconds);
    text::lemma_decimal_is_digits(seconds);
    assert(text::is_digit(number[0]) && text::is_digit(number[number.len() - 1]));
    crate::laws::text::law_trimming_takes_only_white_space(before, number, after);
    text::law_numbers_read_as_written(seconds, 0, u64::MAX as nat);
    crate::laws::text::law_nothing_is_left_of_blanks_alone(before);
}

// --- Which programs are agents -----------------------------------------------------------------

/// A detector recognises every path in which the text of a rule stands, whatever is before it and behind
/// it, and every path that ends in the text of a rule.
pub proof fn law_a_rule_is_found_wherever_it_stands(
    detector: Detector,
    rule: int,
    before: Seq<char>,
    after: Seq<char>,
)
    ensures
        0 <= rule < detector.exe_contains@.len() ==> detector.recognises(
            before + detector.exe_contains@[rule]@ + after,
        ),
        0 <= rule < detector.exe_ends_with@.len() ==> detector.recognises(
            before + detector.exe_ends_with@[rule]@,
        ),
{
    if 0 <= rule < detector.exe_contains@.len() {
        crate::laws::text::law_what_stands_in_a_text(before, detector.exe_contains@[rule]@, after);
    }
    if 0 <= rule < detector.exe_ends_with@.len() {
        crate::laws::text::law_what_stands_in_a_text(before, detector.exe_ends_with@[rule]@, after);
    }
}

/// A detector recognises a path only by a rule: the text of one stands in it, or it ends in the text of
/// one.
pub proof fn law_nothing_is_recognised_without_its_rule(detector: Detector, path: Seq<char>)
    requires
        detector.recognises(path),
    ensures
        (exists|rule: int, before: Seq<char>, after: Seq<char>|
            0 <= rule < detector.exe_contains@.len() && path == #[trigger] (before
                + detector.exe_contains@[rule]@ + after)) || (exists|rule: int, before: Seq<char>|
            0 <= rule < detector.exe_ends_with@.len() && path == #[trigger] (before
                + detector.exe_ends_with@[rule]@)),
{
    if exists|i: int|
        0 <= i < detector.exe_contains@.len() && text::contains_text(
            path,
            #[trigger] detector.exe_contains@[i]@,
        ) {
        let i = choose|i: int|
            0 <= i < detector.exe_contains@.len() && text::contains_text(
                path,
                #[trigger] detector.exe_contains@[i]@,
            );
        crate::laws::text::law_a_text_is_parted_by_what_stands_in_it(
            path,
            detector.exe_contains@[i]@,
        );
        let (before, after) = choose|before: Seq<char>, after: Seq<char>|
            path == #[trigger] (before + detector.exe_contains@[i]@ + after);
        assert(path == before + detector.exe_contains@[i]@ + after);
    } else {
        let i = choose|i: int|
            0 <= i < detector.exe_ends_with@.len() && text::ends_in(
                path,
                #[trigger] detector.exe_ends_with@[i]@,
            );
        crate::laws::text::law_a_text_is_parted_by_what_stands_in_it(
            path,
            detector.exe_ends_with@[i]@,
        );
        let before = choose|before: Seq<char>|
            path == #[trigger] (before + detector.exe_ends_with@[i]@);
        assert(path == before + detector.exe_ends_with@[i]@);
    }
}

/// The detector that a path is matched with recognises it and none before it does; where there is none, no
/// detector recognises it.
pub proof fn law_the_first_detector_that_matches(detectors: Seq<Detector>, path: Seq<char>)
    ensures
        match detect::first_match(detectors, path) {
            Some(at) => {
                &&& 0 <= at < detectors.len()
                &&& detectors[at].recognises(path)
                &&& forall|i: int| 0 <= i < at ==> !(#[trigger] detectors[i]).recognises(path)
            },
            None => forall|i: int|
                0 <= i < detectors.len() ==> !(#[trigger] detectors[i]).recognises(path),
        },
    decreases detectors.len(),
{
    if detectors.len() > 0 {
        let shorter = detectors.drop_last();
        law_the_first_detector_that_matches(shorter, path);
        assert forall|i: int| 0 <= i < shorter.len() implies shorter[i] == #[trigger] detectors[i] by {
        }
    }
}

/// A detector that a user wrote takes the place of the one with its id, or stands behind all others; no
/// other detector moves or changes.
pub proof fn law_a_detector_replaces_its_namesake(
    detectors: Seq<Detector>,
    one: Detector,
    at: int,
)
    requires
        0 <= at < detectors.len(),
        detect::ids_differ(detectors),
    ensures
        detectors[at].id@ == one.id@ ==> detect::merged(detectors, seq![one]) == detectors.update(
            at,
            one,
        ),
        (forall|i: int| 0 <= i < detectors.len() ==> (#[trigger] detectors[i]).id@ != one.id@)
            ==> detect::merged(detectors, seq![one]) == detectors.push(one),
        detect::merged(detectors, Seq::<Detector>::empty()) == detectors,
{
    assert(seq![one].drop_last() =~= Seq::<Detector>::empty());
    assert(detect::merged(detectors, seq![one].drop_last()) == detectors);
    lemma_place_of(detectors, one.id@);
}

proof fn lemma_place_of(detectors: Seq<Detector>, id: Seq<char>)
    ensures
        match detect::place_of(detectors, id) {
            Some(at) => 0 <= at < detectors.len() && detectors[at].id@ == id,
            None => forall|i: int| 0 <= i < detectors.len() ==> (#[trigger] detectors[i]).id@ != id,
        },
    decreases detectors.len(),
{
    if detectors.len() > 0 {
        let shorter = detectors.drop_last();
        lemma_place_of(shorter, id);
        assert forall|i: int| 0 <= i < shorter.len() implies shorter[i] == #[trigger] detectors[i] by {
        }
    }
}

/// Every process whose program a detector recognises is an agent under the id of the first such detector,
/// none other is, and each is listed once, in order.
pub proof fn law_agents_are_the_processes_that_are_recognised(
    records: Seq<ProcessRecord>,
    detectors: Seq<Detector>,
)
    requires
        records.len() <= usize::MAX,
    ensures
        forall|i: int|
            0 <= i < attribution::agents_in(records, detectors).len() ==> {
                let agent = #[trigger] attribution::agents_in(records, detectors)[i];
                &&& agent.0 < records.len()
                &&& records[agent.0 as int].exe_path is Ok
                &&& exists|at: int|
                    0 <= at < detectors.len() && #[trigger] detectors[at].id == agent.1
                        && detectors[at].recognises(records[agent.0 as int].exe_path->Ok_0@)
            },
        forall|i: int, j: int|
            0 <= i < j < attribution::agents_in(records, detectors).len() ==> (
            #[trigger] attribution::agents_in(records, detectors)[i]).0 < (
            #[trigger] attribution::agents_in(records, detectors)[j]).0,
        forall|r: int, d: int|
            0 <= r < records.len() && 0 <= d < detectors.len() && (
            #[trigger] records[r]).exe_path is Ok && (#[trigger] detectors[d]).recognises(
                records[r].exe_path->Ok_0@,
            ) ==> exists|i: int|
                0 <= i < attribution::agents_in(records, detectors).len() && (
                #[trigger] attribution::agents_in(records, detectors)[i]).0 == r,
    decreases records.len(),
{
    if records.len() > 0 {
        let shorter = records.drop_last();
        law_agents_are_the_processes_that_are_recognised(shorter, detectors);
        let before = attribution::agents_in(shorter, detectors);
        let all = attribution::agents_in(records, detectors);
        let last = records.last();
        if last.exe_path is Ok {
            law_the_first_detector_that_matches(detectors, last.exe_path->Ok_0@);
        }
        assert forall|i: int| 0 <= i < before.len() implies #[trigger] all[i] == before[i] by {
        }
        assert forall|i: int| 0 <= i < all.len() implies {
            let agent = #[trigger] all[i];
            &&& agent.0 < records.len()
            &&& records[agent.0 as int].exe_path is Ok
            &&& exists|at: int|
                0 <= at < detectors.len() && #[trigger] detectors[at].id == agent.1
                    && detectors[at].recognises(records[agent.0 as int].exe_path->Ok_0@)
        } by {
            if i < before.len() {
                assert(before[i] == all[i]);
                assert(shorter[before[i].0 as int] == records[before[i].0 as int]);
            } else {
                let at = detect::first_match(detectors, last.exe_path->Ok_0@)->0;
                assert(detectors[at].id == all[i].1);
            }
        }
        assert forall|r: int, d: int|
            0 <= r < records.len() && 0 <= d < detectors.len() && (
            #[trigger] records[r]).exe_path is Ok && (#[trigger] detectors[d]).recognises(
                records[r].exe_path->Ok_0@,
            ) implies exists|i: int| 0 <= i < all.len() && (#[trigger] all[i]).0 == r by {
            if r < shorter.len() {
                assert(shorter[r] == records[r]);
                let i = choose|i: int| 0 <= i < before.len() && (#[trigger] before[i]).0 == r;
                assert(all[i].0 == r);
            } else {
                assert(all[before.len() as int].0 == r);
            }
        }
    }
}

// --- Where they work ---------------------------------------------------------------------------

/// The first place that is wanted is wanted and nothing before it is; there is none only where nothing is
/// wanted.
pub proof fn law_the_first_that_is_wanted<T>(items: Seq<T>, wanted: spec_fn(T) -> bool)
    ensures
        match order::first_where(items, wanted) {
            Some(at) => {
                &&& 0 <= at < items.len()
                &&& wanted(items[at])
                &&& forall|i: int| 0 <= i < at ==> !wanted(#[trigger] items[i])
            },
            None => forall|i: int| 0 <= i < items.len() ==> !wanted(#[trigger] items[i]),
        },
{
    order::lemma_first_where(items, wanted);
}

/// A user's detectors are accepted exactly if each has a rule, and then as they are: one without a rule
/// recognises nothing.
pub proof fn law_which_detectors_are_accepted(
    accepted: Result<Vec<Detector>, String>,
    detectors: Vec<Detector>,
    at: int,
    path: Seq<char>,
)
    requires
        detect::is_accepted(accepted, detectors),
    ensures
        accepted matches Ok(kept) ==> kept == detectors,
        accepted is Ok && 0 <= at < detectors@.len() ==> detectors@[at].exe_contains@.len() > 0
            || detectors@[at].exe_ends_with@.len() > 0,
        0 <= at < detectors@.len() && detectors@[at].exe_contains@.len() == 0
            && detectors@[at].exe_ends_with@.len() == 0 ==> accepted is Err
            && !detectors@[at].recognises(path),
        (forall|i: int|
            0 <= i < detectors@.len() ==> (#[trigger] detectors@[i]).exe_contains@.len() > 0
                || detectors@[i].exe_ends_with@.len() > 0) ==> accepted is Ok,
{
    if 0 <= at < detectors@.len() {
        assert(detectors@[at].can_recognise() == (detectors@[at].exe_contains@.len() > 0
            || detectors@[at].exe_ends_with@.len() > 0));
    }
}

/// A process whose directory cannot be read works nowhere that is known.
pub proof fn law_an_unread_directory_is_no_workspace(
    cli: String,
    record: ProcessRecord,
    sources: AttributionSources,
)
    requires
        record.cwd is Err,
    ensures
        attribution::workspace_for(cli, record, sources) is Err,
{
}

/// Where transcripts are filed by directory, a process works in its directory, and is recorded under a name
/// that is the one its directory is filed under but for case, and under none exactly if there is no such
/// name.
pub proof fn law_filed_work_is_found_by_its_directory(
    cli: String,
    record: ProcessRecord,
    sources: AttributionSources,
)
    requires
        cli@ == sources.filing_cli@,
        record.cwd is Ok,
        sources.filed_namespaces is Ok,
    ensures
        attribution::workspace_for(cli, record, sources) matches Ok(place) && place.path
            == record.cwd->Ok_0 && match place.namespace {
            Ok(name) => sources.filed_namespaces->Ok_0@.contains(name) && text::same_but_case(
                name@,
                record.filed_under@,
            ),
            Err(why) => why == (NamespaceUnmatched::NotRecorded { mapped: record.filed_under })
                && forall|i: int|
                0 <= i < sources.filed_namespaces->Ok_0@.len() ==> !text::same_but_case(
                    (#[trigger] sources.filed_namespaces->Ok_0@[i])@,
                    record.filed_under@,
                ),
        },
{
    let names = sources.filed_namespaces->Ok_0@;
    let wanted = attribution::files_as(record.filed_under@);
    law_the_first_that_is_wanted(names, wanted);
    assert forall|i: int| 0 <= i < names.len() && !text::same_but_case(
        (#[trigger] names[i])@,
        record.filed_under@,
    ) implies !wanted(names[i]) by {
    }
    if let Some(at) = order::first_where(names, wanted) {
        assert(names[at] == names[at]);
        assert(names.contains(names[at]));
    }
}

/// A Codex process works where Codex's index says that a session works whose workspace is its directory but
/// for case, and is recorded under that session's id; where there is no such session it works in its
/// directory, under no name.
pub proof fn law_codex_works_where_its_index_says(
    cli: String,
    record: ProcessRecord,
    sources: AttributionSources,
)
    requires
        cli@ == "codex"@,
        cli@ != sources.filing_cli@,
        record.cwd is Ok,
        sources.codex_sessions is Ok,
    ensures
        attribution::workspace_for(cli, record, sources) matches Ok(place) && match place.namespace {
            Ok(id) => exists|i: int|
                {
                    &&& 0 <= i < sources.codex_sessions->Ok_0@.len()
                    &&& (#[trigger] sources.codex_sessions->Ok_0@[i]).id == id
                    &&& sources.codex_sessions->Ok_0@[i].workspace == place.path
                    &&& text::same_but_case(place.path@, record.cwd->Ok_0@)
                },
            Err(why) => {
                &&& place.path == record.cwd->Ok_0
                &&& why == (NamespaceUnmatched::NotRecorded { mapped: place.path })
                &&& forall|i: int|
                    0 <= i < sources.codex_sessions->Ok_0@.len() ==> !text::same_but_case(
                        (#[trigger] sources.codex_sessions->Ok_0@[i]).workspace@,
                        record.cwd->Ok_0@,
                    )
            },
        },
{
    let sessions = sources.codex_sessions->Ok_0@;
    let wanted = attribution::works_at(record.cwd->Ok_0@);
    law_the_first_that_is_wanted(sessions, wanted);
    assert forall|i: int| 0 <= i < sessions.len() && !wanted(
        #[trigger] sessions[i],
    ) implies !text::same_but_case(sessions[i].workspace@, record.cwd->Ok_0@) by {
    }
}

/// Of a CLI that is neither, nothing is known but the directory.
pub proof fn law_of_any_other_agent_only_its_directory_is_known(
    cli: String,
    record: ProcessRecord,
    sources: AttributionSources,
)
    requires
        cli@ != "codex"@,
        cli@ != sources.filing_cli@,
        record.cwd is Ok,
    ensures
        attribution::workspace_for(cli, record, sources) == Ok::<Workspace, WorkspaceUnknown>(
            Workspace {
                path: record.cwd->Ok_0,
                namespace: Err(NamespaceUnmatched::UnknownCli(cli)),
            },
        ),
{
}

/// A session of the filing CLI has been silent since its recorded name last changed, to the nanosecond; and
/// not at all where that is still to come.
pub proof fn law_filed_silence_is_the_time_since(
    place: Workspace,
    sources: AttributionSources,
    activities: Seq<Result<SystemTime, ActivityUnavailable>>,
    now: SystemTime,
    at: int,
)
    requires
        place.namespace is Ok,
        0 <= at < sources.names().len() == activities.len(),
        sources.names()[at]@ == place.namespace->Ok_0@,
        forall|i: int|
            0 <= i < at ==> (#[trigger] sources.names()[i])@ != place.namespace->Ok_0@,
    ensures
        match attribution::silence_for(
            Ok(place),
            sources.filing_cli@,
            sources,
            activities,
            now,
        ) {
            Some(span) => activities[at] is Ok && span.nanos == if activities[at]->Ok_0.nanos
                <= now.nanos {
                now.nanos - activities[at]->Ok_0.nanos
            } else {
                0
            },
            None => activities[at] is Err,
        },
{
    order::lemma_is_first(
        sources.names(),
        attribution::is_named(place.namespace->Ok_0@),
        at,
    );
}

/// A Codex session has been silent since the last activity that Codex's index has of it, to the nanosecond;
/// and not at all where that is still to come.
pub proof fn law_codex_silence_is_the_time_since(
    place: Workspace,
    sources: AttributionSources,
    activities: Seq<Result<SystemTime, ActivityUnavailable>>,
    now: SystemTime,
    at: int,
)
    requires
        sources.filing_cli@ != "codex"@,
        place.namespace is Ok,
        0 <= at < sources.indexed().len(),
        sources.indexed()[at].id@ == place.namespace->Ok_0@,
        forall|i: int|
            0 <= i < at ==> (#[trigger] sources.indexed()[i]).id@ != place.namespace->Ok_0@,
    ensures
        attribution::silence_for(Ok(place), "codex"@, sources, activities, now) matches Some(span)
            && span.nanos == if sources.indexed()[at].last_activity.nanos <= now.nanos {
            now.nanos - sources.indexed()[at].last_activity.nanos
        } else {
            0
        },
{
    order::lemma_is_first(
        sources.indexed(),
        attribution::has_id(place.namespace->Ok_0@),
        at,
    );
}

/// Nothing is known of the silence of a session without a workspace or a name, or of a CLI that keeps no
/// transcripts that are known.
pub proof fn law_without_a_record_silence_is_unknown(
    workspace: Result<Workspace, WorkspaceUnknown>,
    cli: Seq<char>,
    sources: AttributionSources,
    activities: Seq<Result<SystemTime, ActivityUnavailable>>,
    now: SystemTime,
)
    requires
        workspace is Err || workspace->Ok_0.namespace is Err || (cli != sources.filing_cli@ && cli
            != "codex"@),
    ensures
        attribution::silence_for(workspace, cli, sources, activities, now) is None,
{
}

// --- What else works there ---------------------------------------------------------------------

/// Everything below a directory lies inside it, and so does the directory itself, case aside; what only
/// begins with its name does not.
pub proof fn law_inside_is_below_a_slash(workspace: Seq<char>, rest: Seq<char>, other: char)
    requires
        other != '/',
    ensures
        attribution::lies_inside(workspace, workspace),
        attribution::lies_inside(workspace.push('/') + rest, workspace),
        !attribution::lies_inside(workspace.push(other) + rest, workspace),
        forall|shorter: Seq<char>|
            shorter.len() < workspace.len() ==> !#[trigger] attribution::lies_inside(
                shorter,
                workspace,
            ),
{
    let below = workspace.push('/') + rest;
    assert(below.take(workspace.len() as int) =~= workspace);
    let beside = workspace.push(other) + rest;
    assert(text::folded(beside).len() == beside.len());
    assert(text::folded(workspace).len() == workspace.len());
    assert forall|shorter: Seq<char>|
        shorter.len() < workspace.len() implies !#[trigger] attribution::lies_inside(
        shorter,
        workspace,
    ) by {
        assert(text::folded(shorter).len() == shorter.len());
    }
}

/// Work runs in a workspace exactly if the directory of some process other than the session's own can be
/// read and lies inside it.
pub proof fn law_work_is_a_process_of_somebody_else(
    records: Seq<ProcessRecord>,
    workspace: Seq<char>,
    own: Option<i32>,
)
    ensures
        attribution::work_in(records, workspace, own) <==> exists|i: int|
            {
                &&& 0 <= i < records.len()
                &&& (#[trigger] records[i]).cwd is Ok
                &&& attribution::lies_inside(records[i].cwd->Ok_0@, workspace)
                &&& own is None || own->0 != records[i].pid
            },
{
    if attribution::work_in(records, workspace, own) {
        let i = choose|i: int|
            0 <= i < records.len() && attribution::is_work(#[trigger] records[i], workspace, own);
        assert(records[i].cwd is Ok);
    }
    if exists|i: int|
        {
            &&& 0 <= i < records.len()
            &&& (#[trigger] records[i]).cwd is Ok
            &&& attribution::lies_inside(records[i].cwd->Ok_0@, workspace)
            &&& own is None || own->0 != records[i].pid
        } {
        let i = choose|i: int|
            {
                &&& 0 <= i < records.len()
                &&& (#[trigger] records[i]).cwd is Ok
                &&& attribution::lies_inside(records[i].cwd->Ok_0@, workspace)
                &&& own is None || own->0 != records[i].pid
            };
        assert(attribution::is_work(records[i], workspace, own));
    }
}

/// Work runs under a recorded name exactly if some process that no detector recognises has a directory that
/// is filed under it, case aside.
pub proof fn law_filed_work_is_no_agent(
    records: Seq<ProcessRecord>,
    namespace: Seq<char>,
    detectors: Seq<Detector>,
)
    ensures
        attribution::work_filed_under(records, namespace, detectors) <==> exists|i: int|
            {
                &&& 0 <= i < records.len()
                &&& (#[trigger] records[i]).cwd is Ok
                &&& text::same_but_case(records[i].filed_under@, namespace)
                &&& records[i].exe_path is Err || forall|d: int|
                    0 <= d < detectors.len() ==> !(#[trigger] detectors[d]).recognises(
                        records[i].exe_path->Ok_0@,
                    )
            },
{
    assert forall|i: int| 0 <= i < records.len() implies (attribution::cli_of(
        #[trigger] records[i],
        detectors,
    ) is None <==> (records[i].exe_path is Err || forall|d: int|
        0 <= d < detectors.len() ==> !(#[trigger] detectors[d]).recognises(
            records[i].exe_path->Ok_0@,
        ))) by {
        if records[i].exe_path is Ok {
            law_the_first_detector_that_matches(detectors, records[i].exe_path->Ok_0@);
        }
    }
    if attribution::work_filed_under(records, namespace, detectors) {
        let i = choose|i: int|
            0 <= i < records.len() && attribution::is_work_filed(
                #[trigger] records[i],
                namespace,
                detectors,
            );
        assert(records[i].cwd is Ok);
    }
    if exists|i: int|
        {
            &&& 0 <= i < records.len()
            &&& (#[trigger] records[i]).cwd is Ok
            &&& text::same_but_case(records[i].filed_under@, namespace)
            &&& attribution::cli_of(records[i], detectors) is None
        } {
        let i = choose|i: int|
            {
                &&& 0 <= i < records.len()
                &&& (#[trigger] records[i]).cwd is Ok
                &&& text::same_but_case(records[i].filed_under@, namespace)
                &&& attribution::cli_of(records[i], detectors) is None
            };
        assert(attribution::is_work_filed(records[i], namespace, detectors));
    }
}

} // verus!
