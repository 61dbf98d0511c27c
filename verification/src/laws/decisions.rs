//! What is decided from settings and answers: thresholds, who is asked, how work is shared, and what is kept.

use crate::collect::settle;
use crate::collect::{Session, WorkspaceReport};
use crate::deliver;
use crate::deliver::{Bounds, DeliveryReport};
use crate::liveness;
use crate::liveness::Thresholds;
use crate::machtime::MachTimebase;
use crate::memory;
use crate::memory::{Forgotten, Memory, Sighting};
use crate::meter;
use crate::notify;
use crate::notify::{Announcement, AnnouncementRecord};
use crate::real_world::processes;
use crate::real_world::processes::{Inquiry, Ledger, PsRun};
use crate::real_world::repositories;
use crate::text;
use crate::time::{Duration, SystemTime};
use crate::vcs::Unreadable;
use crate::world::{NotifyOutcome, Resources, ResourcesUnavailable};
use vstd::prelude::*;

verus! {

// --- Settings ----------------------------------------------------------------------------------

/// Thresholds are what the settings give in seconds, each by its own setting, and the usual ones where a
/// setting is missing; they are refused exactly if one is no number, or if a session would stall before it
/// is quiet.
pub proof fn law_which_thresholds_are_used(
    result: Result<Thresholds, String>,
    quiet: Option<&str>,
    stall: Option<&str>,
    forget: Option<&str>,
    seconds: nat,
)
    requires
        liveness::are_thresholds(result, quiet, stall, forget),
    ensures
        quiet is None && stall is None && forget is None ==> result == Ok::<Thresholds, String>(
            Thresholds::usual(),
        ),
        result matches Ok(found) ==> {
            &&& found.quiet.nanos <= found.stall.nanos
            &&& quiet is None ==> found.quiet.nanos == 10 * 60 * 1_000_000_000
            &&& stall is None ==> found.stall.nanos == 12 * 60 * 60 * 1_000_000_000
            &&& forget is None ==> found.forget.nanos == 7 * 24 * 60 * 60 * 1_000_000_000
            &&& quiet is Some && text::natural(text::trimmed(quiet->0@), u64::MAX as nat) == Ok::<
                nat,
                text::NumberFault,
            >(seconds) && seconds <= u64::MAX ==> found.quiet.nanos == seconds * 1_000_000_000
            &&& stall is Some && text::natural(text::trimmed(stall->0@), u64::MAX as nat) == Ok::<
                nat,
                text::NumberFault,
            >(seconds) && seconds <= u64::MAX ==> found.stall.nanos == seconds * 1_000_000_000
            &&& forget is Some && text::natural(text::trimmed(forget->0@), u64::MAX as nat) == Ok::<
                nat,
                text::NumberFault,
            >(seconds) && seconds <= u64::MAX ==> found.forget.nanos == seconds * 1_000_000_000
        },
        quiet is Some && text::natural(text::trimmed(quiet->0@), u64::MAX as nat) is Err ==> result
            is Err,
        stall is Some && text::natural(text::trimmed(stall->0@), u64::MAX as nat) is Err ==> result
            is Err,
        forget is Some && text::natural(text::trimmed(forget->0@), u64::MAX as nat) is Err ==> result
            is Err,
{
}

/// Thresholds that are numbers in the right order are accepted.
pub proof fn law_thresholds_in_order_are_accepted(
    result: Result<Thresholds, String>,
    quiet: &str,
    stall: &str,
    first: nat,
    second: nat,
)
    requires
        liveness::are_thresholds(result, Some(quiet), Some(stall), None),
        text::natural(text::trimmed(quiet@), u64::MAX as nat) == Ok::<nat, text::NumberFault>(first),
        text::natural(text::trimmed(stall@), u64::MAX as nat) == Ok::<nat, text::NumberFault>(second),
        first <= u64::MAX,
        second <= u64::MAX,
    ensures
        result is Ok <==> first <= second,
{
}

/// How long a settled workspace is remembered is what the setting says in seconds, and seven days without
/// one.
pub proof fn law_how_long_is_remembered(
    span: Result<Duration, String>,
    value: Option<&str>,
    seconds: nat,
)
    requires
        memory::is_retention(span, value),
    ensures
        value is None ==> span is Ok && span->Ok_0.nanos == 7 * 24 * 60 * 60 * 1_000_000_000,
        value is Some && text::natural(text::trimmed(value->0@), u64::MAX as nat) == Ok::<
            nat,
            text::NumberFault,
        >(seconds) && seconds <= u64::MAX ==> span is Ok && span->Ok_0.nanos == seconds
            * 1_000_000_000,
        span is Err <==> value is Some && text::natural(text::trimmed(value->0@), u64::MAX as nat)
            is Err,
{
    if value is Some {
        assert(liveness::given(value) == Some(value->0@));
    }
}

// --- Who is asked ------------------------------------------------------------------------------

/// A ledger that can be read is the answer; one that cannot sends to `ps` while the process is there, and
/// otherwise says that it is gone.
pub proof fn law_ps_is_asked_only_for_the_living(
    inquiry: Inquiry,
    ledger: Result<Ledger, String>,
    exists_still: bool,
    timebase: MachTimebase,
)
    requires
        processes::is_inquiry(inquiry, ledger, exists_still, timebase),
    ensures
        inquiry is AskPs <==> ledger is Err && exists_still,
        inquiry matches Inquiry::AskPs(why) ==> ledger == Err::<Ledger, String>(why),
        ledger is Err && !exists_still ==> inquiry == Inquiry::Answered(
            Err(ResourcesUnavailable::ProcessExited),
        ),
        ledger matches Ok(found) ==> inquiry->Answered_0 is Ok && processes::is_measured(
            inquiry->Answered_0->Ok_0,
            found,
            timebase,
        ),
{
}

/// What `ps` read is the answer, and where it read nothing both readers have failed.
pub proof fn law_what_ps_answers(
    answer: Result<Resources, ResourcesUnavailable>,
    ledger_error: Seq<char>,
    read: Result<Resources, String>,
)
    requires
        processes::is_ps_answer(answer, ledger_error, read),
    ensures
        read matches Ok(found) ==> answer == Ok::<Resources, ResourcesUnavailable>(found),
        read matches Err(error) ==> answer is Err && answer->Err_0 is AllReadersFailed
            && text::contains_text(answer->Err_0->AllReadersFailed_0@, ledger_error)
            && text::contains_text(answer->Err_0->AllReadersFailed_0@, error@),
{
    if let Err(error) = read {
        super::text::law_what_stands_in_a_text(
            "proc_pid_rusage: "@,
            ledger_error,
            "; ps: "@ + error@,
        );
        super::text::law_what_stands_in_a_text(
            "proc_pid_rusage: "@ + ledger_error + "; ps: "@,
            error@,
            Seq::empty(),
        );
        let words = processes::all_failed(ledger_error, error@);
        assert(words =~= "proc_pid_rusage: "@ + ledger_error + ("; ps: "@ + error@));
        assert(words =~= ("proc_pid_rusage: "@ + ledger_error + "; ps: "@) + error@
            + Seq::<char>::empty());
    }
}

/// `ps` gives figures only where it ran, ended well, and printed two fields at least.
pub proof fn law_when_ps_gives_figures<F: Fn(&str) -> Option<(u64, u32)>>(
    resources: Result<Resources, String>,
    ran: PsRun,
    seconds_of: F,
)
    requires
        processes::is_read_from_ps(resources, ran, seconds_of),
        resources is Ok,
    ensures
        ran is Printed,
        text::words(ran->Printed_0@).len() >= 2,
        text::natural(text::words(ran->Printed_0@)[1], u64::MAX as nat) is Ok,
        processes::clock(text::words(ran->Printed_0@)[0]) is Some,
{
}

/// A repository is asked about a path that is there and lies in one; a path that is gone is gone, and one in
/// no repository is under no version control.
pub proof fn law_which_repository_is_asked(
    found: Result<(String, bool), Unreadable>,
    path_is_there: bool,
    root: Option<(String, bool)>,
)
    requires
        repositories::is_asked(found, path_is_there, root),
    ensures
        found matches Ok(home) ==> path_is_there && root == Some(home),
        found == Err::<(String, bool), Unreadable>(Unreadable::PathGone) <==> !path_is_there,
        found == Err::<(String, bool), Unreadable>(Unreadable::NotVersionControlled)
            <==> path_is_there && root is None,
{
}

// --- How work is shared ------------------------------------------------------------------------

/// Questions are shared out without a gap or an overlap: the first share begins at the beginning, each next
/// one where the one before ended, and the last ends at the end.
pub proof fn law_shares_leave_no_gap(ranges: Seq<(usize, usize)>, count: usize, i: int)
    requires
        repositories::are_shares(ranges, count),
    ensures
        ranges.len() <= 8,
        ranges.len() == 0 <==> count == 0,
        count > 0 ==> ranges[0].0 == 0 && ranges.last().1 == count,
        0 <= i < ranges.len() ==> ranges[i].0 < ranges[i].1 <= count,
        0 <= i < ranges.len() - 1 ==> ranges[i].1 == ranges[i + 1].0,
{
    let share = repositories::share_of(count as nat) as int;
    if count > 0 {
        assert(ranges[0].0 == 0 * share);
        assert(0 * share == 0);
    }
    if 0 <= i < ranges.len() {
        assert(ranges[i].0 == i * share);
        assert(ranges[i].1 == repositories::share_end(i as nat, count as nat));
        if i + 1 < ranges.len() {
            assert(ranges[i + 1].0 == (i + 1) * share);
            assert(ranges[i + 1].0 < ranges[i + 1].1);
            assert(ranges[i + 1].1 == repositories::share_end((i + 1) as nat, count as nat));
            assert((i as nat + 1) * repositories::share_of(count as nat) == (i + 1) * share);
        }
    }
}

/// Alerts are delivered by as many workers as are allowed, but at least one, and no more than there are
/// alerts.
pub proof fn law_how_many_deliver(bounds: Bounds, workers: usize, alerts: usize)
    requires
        alerts > 0,
        bounds.employs(workers, alerts),
    ensures
        1 <= workers <= alerts,
        workers <= bounds.workers || workers == 1,
        bounds.workers >= 1 ==> workers <= bounds.workers,
        workers < alerts ==> workers == bounds.workers || bounds.workers == 0,
{
}

/// Every alert has an outcome: the last that was answered for it, or that it was never reported on.
pub proof fn law_every_alert_has_an_outcome(
    outcomes: Seq<NotifyOutcome>,
    alerts: usize,
    answers: Seq<(usize, NotifyOutcome)>,
    at: int,
    alert: int,
)
    requires
        deliver::are_gathered(outcomes, alerts, answers),
        0 <= alert < alerts,
    ensures
        outcomes.len() == alerts,
        0 <= at < answers.len() && answers[at].0 == alert && (forall|i: int|
            at < i < answers.len() ==> (#[trigger] answers[i]).0 != alert) ==> outcomes[alert]
            == answers[at].1,
        (forall|i: int| 0 <= i < answers.len() ==> (#[trigger] answers[i]).0 != alert)
            ==> outcomes[alert] is NotAttempted,
    decreases answers.len(),
{
    assert(outcomes[alert] == outcomes[alert]);
    lemma_last_answer(answers, at, alert);
}

proof fn lemma_last_answer(answers: Seq<(usize, NotifyOutcome)>, at: int, alert: int)
    ensures
        0 <= at < answers.len() && answers[at].0 == alert && (forall|i: int|
            at < i < answers.len() ==> (#[trigger] answers[i]).0 != alert) ==> deliver::last_answer(
            answers,
            alert,
        ) == Some(answers[at].1),
        (forall|i: int| 0 <= i < answers.len() ==> (#[trigger] answers[i]).0 != alert)
            ==> deliver::last_answer(answers, alert) is None,
    decreases answers.len(),
{
    if answers.len() > 0 {
        let fewer = answers.drop_last();
        lemma_last_answer(fewer, at, alert);
        assert(answers[answers.len() - 1] == answers.last());
        assert forall|i: int| 0 <= i < fewer.len() implies #[trigger] fewer[i] == answers[i] by {
        }
    }
}

/// What a channel said of an alert is what stands at its place, and otherwise that it was not attempted.
pub proof fn law_what_a_channel_said_of_an_alert(
    outcome: NotifyOutcome,
    report: DeliveryReport,
    alert: usize,
)
    requires
        settle::is_outcome_for(outcome, report, alert),
    ensures
        alert < report.outcomes@.len() ==> outcome == report.outcomes@[alert as int],
        alert >= report.outcomes@.len() ==> outcome is NotAttempted,
{
}

// --- What is kept ------------------------------------------------------------------------------

/// What a run remembers is everything that it saw and everything that it knew and did not see; of sessions,
/// those that it saw. What was announced is left as it was.
pub proof fn law_what_a_run_remembers(
    memory: Memory,
    previous: Memory,
    sightings: Seq<Sighting>,
    sessions: Seq<Session>,
    now: SystemTime,
    at: int,
)
    requires
        memory::has_remembered(memory, previous, sightings, sessions, now),
    ensures
        0 <= at < sightings.len() ==> memory.workspaces@.len() > at && memory.workspaces@[at]
            == memory::sighted(sightings[at], previous.workspaces@, now),
        memory.sessions@ == memory::sessions_seen(sessions, previous.sessions@, now),
        memory.announcements == previous.announcements,
{
    let seen = memory::all_sighted(sightings, previous.workspaces@, now);
    if 0 <= at < sightings.len() {
        assert(seen[at] == memory::sighted(sightings[at], previous.workspaces@, now));
        lemma_unseen_come_behind(seen, previous.workspaces@);
        assert(memory.workspaces@[at] == seen[at]);
    }
}

proof fn lemma_unseen_come_behind(
    seen: Seq<memory::RememberedWorkspace>,
    known: Seq<memory::RememberedWorkspace>,
)
    ensures
        seen.is_prefix_of(memory::with_unseen(seen, known)),
    decreases known.len(),
{
    if known.len() > 0 {
        lemma_unseen_come_behind(seen, known.drop_last());
    }
}

/// Forgetting takes workspaces alone: every one is either kept or named as forgotten.
pub proof fn law_forgetting_takes_workspaces_alone(
    left: Memory,
    forgotten: Seq<Forgotten>,
    memory: Memory,
    now: SystemTime,
    retention: Duration,
)
    requires
        memory::has_forgotten(left, forgotten, memory, now, retention),
    ensures
        left.sessions == memory.sessions,
        left.announcements == memory.announcements,
        left.workspaces@.len() + forgotten.len() == memory.workspaces@.len(),
        left.workspaces@ == memory::still_known(memory.workspaces@, now, retention),
{
    lemma_kept_or_forgotten(memory.workspaces@, now, retention);
}

proof fn lemma_kept_or_forgotten(
    known: Seq<memory::RememberedWorkspace>,
    now: SystemTime,
    retention: Duration,
)
    ensures
        memory::still_known(known, now, retention).len() + memory::let_go(
            known,
            now,
            retention,
        ).len() == known.len(),
    decreases known.len(),
{
    if known.len() > 0 {
        lemma_kept_or_forgotten(known.drop_last(), now, retention);
    }
}

/// What is announced is what is worth telling and was not told, sessions before workspaces; what is then on
/// record is what is worth telling now, told before or not.
pub proof fn law_what_is_announced_and_recorded(
    announced: Seq<Announcement>,
    record: AnnouncementRecord,
    sessions: Seq<Session>,
    workspaces: Seq<WorkspaceReport>,
    previous: AnnouncementRecord,
)
    requires
        notify::is_decision(announced, record, sessions, workspaces, previous),
    ensures
        announced.len() == notify::session_notices(sessions, previous.sessions@).len()
            + notify::workspace_notices(workspaces, previous.workspaces@).len(),
        notify::notices(announced).take(
            notify::session_notices(sessions, previous.sessions@).len() as int,
        ) == notify::session_notices(sessions, previous.sessions@),
        notify::notices(announced).skip(
            notify::session_notices(sessions, previous.sessions@).len() as int,
        ) == notify::workspace_notices(workspaces, previous.workspaces@),
        record.sessions@ == notify::sessions_told(sessions),
        record.workspaces@ == notify::workspaces_told(workspaces),
{
    let first = notify::session_notices(sessions, previous.sessions@);
    let second = notify::workspace_notices(workspaces, previous.workspaces@);
    assert((first + second).take(first.len() as int) =~= first);
    assert((first + second).skip(first.len() as int) =~= second);
    assert(notify::notices(announced).len() == announced.len());
}

/// What the monitor has used is its own CPU time and its children's together, and is unknown where either
/// is.
pub proof fn law_what_the_monitor_has_used(
    cpu: Result<Duration, String>,
    read: Result<Resources, ResourcesUnavailable>,
    own: Duration,
    children: Duration,
)
    requires
        meter::is_own_cpu(cpu, read),
    ensures
        cpu is Ok <==> read is Ok && read->Ok_0.own_cpu is Ok && read->Ok_0.children_cpu is Ok,
        read is Ok && read->Ok_0.own_cpu is Ok && read->Ok_0.children_cpu is Ok
            && read->Ok_0.own_cpu->Ok_0 == own && read->Ok_0.children_cpu->Ok_0 == children
            && own.nanos + children.nanos <= u128::MAX ==> cpu->Ok_0.nanos == own.nanos
            + children.nanos,
{
}

} // verus!
