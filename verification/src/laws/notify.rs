//! Alerts: what somebody has to hear of, and what counts as heard.

use crate::collect::settle;
use crate::collect::settle::Fate;
use crate::collect::{NotifyHealth, Session, WorkspaceReport};
use crate::deliver::DeliveryReport;
use crate::liveness::State;
use crate::memory;
use crate::notify;
use crate::notify::{
    AnnouncedSession, AnnouncedSessionState, AnnouncedWorkspaceState, Announcement,
    AnnouncementRecord, Notice, NotifiedRead, Rebuilt,
};
use crate::text;
use crate::vcs::{Unreadable, WorkspaceState};
use crate::world::NotifyOutcome;
use vstd::prelude::*;

verus! {

// --- What has to be said -----------------------------------------------------------------------

/// Somebody has to hear of a session exactly if it waits, can be named, and is not on record as waiting; and
/// what is said names its CLI, its name and where it works.
pub proof fn law_a_waiting_session_is_told_of(session: Session, told: Seq<AnnouncedSession>)
    ensures
        notify::session_notice(session, told) is Some <==> {
            &&& session.liveness.state == State::Waiting
            &&& memory::recorded_name(session) is Some
            &&& forall|i: int|
                0 <= i < told.len() ==> (#[trigger] told[i]).cli@ != session.cli@
                    || told[i].recorded_as@ != memory::recorded_name(session)->0@
        },
        notify::session_notice(session, told) matches Some(notice) ==> notice == (
        Notice::SessionWaiting {
            cli: session.cli@,
            recorded_as: memory::recorded_name(session)->0@,
            workspace_path: if session.workspace is Ok {
                Some(session.workspace->Ok_0.path@)
            } else {
                None
            },
        }),
{
    if memory::recorded_name(session) is Some {
        let name = memory::recorded_name(session)->0@;
        let wanted = notify::about_session(session.cli@, name);
        crate::order::lemma_first_where(told, wanted);
        if forall|i: int|
            0 <= i < told.len() ==> (#[trigger] told[i]).cli@ != session.cli@
                || told[i].recorded_as@ != name {
            crate::order::lemma_is_nowhere(told, wanted);
        } else {
            let i = choose|i: int|
                0 <= i < told.len() && (#[trigger] told[i]).cli@ == session.cli@
                    && told[i].recorded_as@ == name;
            assert(wanted(told[i]));
            let at = crate::order::first_where(told, wanted)->0;
            assert(told[at].state == AnnouncedSessionState::Waiting);
        }
    }
}

/// Somebody has to hear of stranded work, with how much of it there is, unless the first that is on record of
/// that path, case aside, is that it was stranded.
pub proof fn law_stranded_work_is_told_of(
    workspace: WorkspaceReport,
    told: Seq<(String, AnnouncedWorkspaceState)>,
)
    requires
        workspace.state is DirtyStranded,
    ensures
        notify::workspace_notice(workspace, told) is None <==> is_first_on_record(
            told,
            workspace.path@,
            AnnouncedWorkspaceState::DirtyStranded,
        ),
        notify::workspace_notice(workspace, told) matches Some(notice) ==> notice == (
        Notice::WorkspaceStranded {
            path: workspace.path@,
            uncommitted_entries: workspace.uncommitted_entries,
        }),
{
    lemma_on_record(told, workspace.path@, AnnouncedWorkspaceState::DirtyStranded);
}

/// Somebody has to hear of a workspace that git was asked about and gave no answer, unless that is what is on
/// record of it.
pub proof fn law_an_unanswered_question_is_told_of(
    workspace: WorkspaceReport,
    told: Seq<(String, AnnouncedWorkspaceState)>,
)
    requires
        workspace.state matches WorkspaceState::Unknown(why) && (why is QueryFailed || why
            is TimedOut),
    ensures
        notify::workspace_notice(workspace, told) is None <==> is_first_on_record(
            told,
            workspace.path@,
            AnnouncedWorkspaceState::UnknownAtRisk,
        ),
        notify::workspace_notice(workspace, told) matches Some(notice) ==> (notice
            matches Notice::WorkspaceUnknownAtRisk { path, .. } && path == workspace.path@),
{
    lemma_on_record(told, workspace.path@, AnnouncedWorkspaceState::UnknownAtRisk);
}

/// Nobody has to hear of a workspace where nothing may be lost.
pub proof fn law_nothing_is_said_where_nothing_may_be_lost(
    workspace: WorkspaceReport,
    told: Seq<(String, AnnouncedWorkspaceState)>,
)
    requires
        match workspace.state {
            WorkspaceState::Clean => true,
            WorkspaceState::DirtyDriven => true,
            WorkspaceState::DirtyStranded => false,
            WorkspaceState::Unknown(why) => why is NotVersionControlled || why is PathGone || why
                is NotYetRead,
        },
    ensures
        notify::workspace_notice(workspace, told) is None,
{
}

/// Whether the first that is on record of a path, case aside, is that it was announced in a state.
pub open spec fn is_first_on_record(
    told: Seq<(String, AnnouncedWorkspaceState)>,
    path: Seq<char>,
    state: AnnouncedWorkspaceState,
) -> bool {
    exists|at: int|
        {
            &&& 0 <= at < told.len()
            &&& text::same_but_case((#[trigger] told[at]).0@, path)
            &&& told[at].1 == state
            &&& forall|i: int| 0 <= i < at ==> !text::same_but_case((#[trigger] told[i]).0@, path)
        }
}

proof fn lemma_on_record(
    told: Seq<(String, AnnouncedWorkspaceState)>,
    path: Seq<char>,
    state: AnnouncedWorkspaceState,
)
    ensures
        notify::told_of_workspace(told, path) == Some(state) <==> is_first_on_record(
            told,
            path,
            state,
        ),
{
    let wanted = notify::about_workspace(path);
    crate::order::lemma_first_where(told, wanted);
    if notify::told_of_workspace(told, path) == Some(state) {
        let at = crate::order::first_where(told, wanted)->0;
        assert(text::same_but_case(told[at].0@, path));
        assert forall|i: int| 0 <= i < at implies !text::same_but_case(
            (#[trigger] told[i]).0@,
            path,
        ) by {
            assert(!wanted(told[i]));
        }
    }
    if is_first_on_record(told, path, state) {
        let at = choose|at: int|
            {
                &&& 0 <= at < told.len()
                &&& text::same_but_case((#[trigger] told[at]).0@, path)
                &&& told[at].1 == state
                &&& forall|i: int|
                    0 <= i < at ==> !text::same_but_case((#[trigger] told[i]).0@, path)
            };
        assert forall|i: int| 0 <= i < at implies !wanted(#[trigger] told[i]) by {
            assert(!text::same_but_case(told[i].0@, path));
        }
        crate::order::lemma_is_first(told, wanted, at);
    }
}

/// Sessions are told of one after the other, each once if it has to be heard of, and not otherwise.
pub proof fn law_sessions_are_told_of_one_by_one(
    one: Seq<Session>,
    other: Seq<Session>,
    single: Session,
    told: Seq<AnnouncedSession>,
)
    ensures
        notify::session_notices(one + other, told)
            == notify::session_notices(one, told) + notify::session_notices(other, told),
        notify::session_notices(seq![single], told) == match notify::session_notice(single, told) {
            Some(notice) => seq![notice],
            None => Seq::<Notice>::empty(),
        },
    decreases other.len(),
{
    if other.len() == 0 {
        assert(one + other =~= one);
        assert(notify::session_notices(other, told) =~= Seq::<Notice>::empty());
    } else {
        law_sessions_are_told_of_one_by_one(one, other.drop_last(), single, told);
        assert((one + other).drop_last() =~= one + other.drop_last());
    }
    assert(notify::session_notices(one + other, told)
        =~= notify::session_notices(one, told) + notify::session_notices(other, told));
    assert(seq![single].drop_last() =~= Seq::<Session>::empty());
    assert(notify::session_notices(seq![single].drop_last(), told) =~= Seq::<Notice>::empty());
    assert(notify::session_notices(seq![single], told) =~= match notify::session_notice(
        single,
        told,
    ) {
        Some(notice) => seq![notice],
        None => Seq::<Notice>::empty(),
    });
}

/// Workspaces are told of one after the other, each once if it has to be heard of, and not otherwise.
pub proof fn law_workspaces_are_told_of_one_by_one(
    one: Seq<WorkspaceReport>,
    other: Seq<WorkspaceReport>,
    single: WorkspaceReport,
    told: Seq<(String, AnnouncedWorkspaceState)>,
)
    ensures
        notify::workspace_notices(one + other, told)
            == notify::workspace_notices(one, told) + notify::workspace_notices(other, told),
        notify::workspace_notices(seq![single], told) == match notify::workspace_notice(
            single,
            told,
        ) {
            Some(notice) => seq![notice],
            None => Seq::<Notice>::empty(),
        },
    decreases other.len(),
{
    if other.len() == 0 {
        assert(one + other =~= one);
        assert(notify::workspace_notices(other, told) =~= Seq::<Notice>::empty());
    } else {
        law_workspaces_are_told_of_one_by_one(one, other.drop_last(), single, told);
        assert((one + other).drop_last() =~= one + other.drop_last());
    }
    assert(notify::workspace_notices(one + other, told)
        =~= notify::workspace_notices(one, told) + notify::workspace_notices(other, told));
    assert(seq![single].drop_last() =~= Seq::<WorkspaceReport>::empty());
    assert(notify::workspace_notices(seq![single].drop_last(), told) =~= Seq::<Notice>::empty());
    assert(notify::workspace_notices(seq![single], told) =~= match notify::workspace_notice(
        single,
        told,
    ) {
        Some(notice) => seq![notice],
        None => Seq::<Notice>::empty(),
    });
}

/// Sessions go on record one after the other, each that waits and can be named, under its CLI and its name.
pub proof fn law_sessions_go_on_record_one_by_one(
    one: Seq<Session>,
    other: Seq<Session>,
    single: Session,
)
    ensures
        notify::sessions_told(one + other) == notify::sessions_told(one) + notify::sessions_told(other),
        notify::sessions_told(seq![single]).len() == if single.liveness.state == State::Waiting
            && memory::recorded_name(single) is Some {
            1nat
        } else {
            0nat
        },
        notify::sessions_told(seq![single]).len() == 1 ==> {
            &&& notify::sessions_told(seq![single])[0].cli == single.cli
            &&& notify::sessions_told(seq![single])[0].recorded_as == memory::recorded_name(
                single,
            )->0
        },
    decreases other.len(),
{
    if other.len() == 0 {
        assert(one + other =~= one);
        assert(notify::sessions_told(other) =~= Seq::<AnnouncedSession>::empty());
    } else {
        law_sessions_go_on_record_one_by_one(one, other.drop_last(), single);
        assert((one + other).drop_last() =~= one + other.drop_last());
    }
    assert(notify::sessions_told(one + other) =~= notify::sessions_told(one) + notify::sessions_told(other));
    assert(seq![single].drop_last() =~= Seq::<Session>::empty());
    assert(notify::sessions_told(seq![single].drop_last()) =~= Seq::<AnnouncedSession>::empty());
}

/// Workspaces go on record one after the other, each where work may be lost, with what is wrong there.
pub proof fn law_workspaces_go_on_record_one_by_one(
    one: Seq<WorkspaceReport>,
    other: Seq<WorkspaceReport>,
    single: WorkspaceReport,
)
    ensures
        notify::workspaces_told(one + other) == notify::workspaces_told(one) + notify::workspaces_told(other),
        notify::workspaces_told(seq![single]).len() == if single.state.risky() {
            1nat
        } else {
            0nat
        },
        single.state.risky() ==> notify::workspaces_told(seq![single])[0] == (
            single.path,
            if single.state is DirtyStranded {
                AnnouncedWorkspaceState::DirtyStranded
            } else {
                AnnouncedWorkspaceState::UnknownAtRisk
            },
        ),
    decreases other.len(),
{
    if other.len() == 0 {
        assert(one + other =~= one);
        assert(notify::workspaces_told(other) =~= Seq::<(String, AnnouncedWorkspaceState)>::empty());
    } else {
        law_workspaces_go_on_record_one_by_one(one, other.drop_last(), single);
        assert((one + other).drop_last() =~= one + other.drop_last());
    }
    assert(notify::workspaces_told(one + other)
        =~= notify::workspaces_told(one) + notify::workspaces_told(other));
    assert(seq![single].drop_last() =~= Seq::<WorkspaceReport>::empty());
    assert(notify::workspaces_told(seq![single].drop_last())
        =~= Seq::<(String, AnnouncedWorkspaceState)>::empty());
}

/// What is said of a session that waits names its CLI and its name, and ends in where it works.
pub proof fn law_an_alert_names_its_session(
    cli: Seq<char>,
    recorded_as: Seq<char>,
    workspace_path: Option<Seq<char>>,
)
    ensures
        ({
            let words = Notice::SessionWaiting { cli, recorded_as, workspace_path }.words();
            &&& text::contains_text(words, cli + " "@ + recorded_as + " is WAITING"@)
            &&& workspace_path matches Some(path) ==> text::ends_in(words, path)
        }),
{
    let inner = cli + " "@ + recorded_as + " is WAITING"@;
    let waiting = "Session "@ + cli + " "@ + recorded_as + " is WAITING"@;
    lemma_five_texts("Session "@, cli, " "@, recorded_as, " is WAITING"@);
    match workspace_path {
        Some(path) => {
            crate::laws::text::law_what_stands_in_a_text("Session "@, inner, " in "@ + path);
            lemma_three_texts(waiting, " in "@, path);
            crate::laws::text::law_what_stands_in_a_text(waiting + " in "@, path, Seq::empty());
        },
        None => {
            let nothing = Seq::<char>::empty();
            crate::laws::text::law_what_stands_in_a_text("Session "@, inner, nothing);
            lemma_nothing_behind(waiting);
        },
    }
}

proof fn lemma_five_texts(
    one: Seq<char>,
    two: Seq<char>,
    three: Seq<char>,
    four: Seq<char>,
    five: Seq<char>,
)
    ensures
        one + (two + three + four + five) == one + two + three + four + five,
{
    assert(one + (two + three + four + five) =~= one + two + three + four + five);
}

proof fn lemma_three_texts(one: Seq<char>, two: Seq<char>, three: Seq<char>)
    ensures
        one + (two + three) == one + two + three,
{
    assert(one + (two + three) =~= one + two + three);
}

proof fn lemma_nothing_behind(text: Seq<char>)
    ensures
        text + Seq::<char>::empty() == text,
{
    assert(text + Seq::<char>::empty() =~= text);
}

/// What is said of stranded work names its workspace and says how much there is.
pub proof fn law_an_alert_counts_what_is_stranded(path: Seq<char>, count: usize)
    ensures
        text::contains_text(
            Notice::WorkspaceStranded { path, uncommitted_entries: Some(count) }.words(),
            path + " is STRANDED with "@ + text::decimal(count as nat),
        ),
        text::contains_text(
            Notice::WorkspaceStranded { path, uncommitted_entries: None }.words(),
            path,
        ),
{
    let inner = path + " is STRANDED with "@ + text::decimal(count as nat);
    crate::laws::text::law_what_stands_in_a_text("Workspace "@, inner, " uncommitted entries"@);
    assert(Notice::WorkspaceStranded { path, uncommitted_entries: Some(count) }.words()
        =~= "Workspace "@ + inner + " uncommitted entries"@);
    crate::laws::text::law_what_stands_in_a_text(
        "Workspace "@,
        path,
        " is STRANDED, and how many entries are uncommitted could not be read"@,
    );
}

/// What is said of a workspace that git gave no answer about names it and the reason.
pub proof fn law_an_alert_names_what_is_unanswered(path: Seq<char>, reason: Seq<char>)
    ensures
        text::contains_text(Notice::WorkspaceUnknownAtRisk { path, reason }.words(), path),
        text::contains_text(Notice::WorkspaceUnknownAtRisk { path, reason }.words(), reason),
{
    let words = Notice::WorkspaceUnknownAtRisk { path, reason }.words();
    let (front, middle, end) = ("Workspace "@, " is at risk (version control: "@, ")"@);
    crate::laws::text::law_what_stands_in_a_text(front, path, middle + reason + end);
    assert(words =~= front + path + (middle + reason + end));
    crate::laws::text::law_what_stands_in_a_text(front + path + middle, reason, end);
}

// --- What counts as heard ----------------------------------------------------------------------

/// An alert reached somebody exactly if one of the channels was asked, answered for it, and delivered it.
pub proof fn law_only_a_delivery_reaches_somebody(
    local: Option<DeliveryReport>,
    remote: Option<DeliveryReport>,
    alert: int,
)
    requires
        0 <= alert,
    ensures
        settle::reached(local, remote, alert) <==> {
            ||| local is Some && alert < local->0.outcomes@.len() && local->0.outcomes@[alert]
                is Delivered
            ||| remote is Some && alert < remote->0.outcomes@.len() && remote->0.outcomes@[alert]
                is Delivered
        },
{
}

/// Whether a channel has an outcome of one kind for an alert.
pub open spec fn has_fate(report: DeliveryReport, fate: Fate) -> spec_fn(int) -> bool {
    |alert: int|
        if alert < report.outcomes@.len() {
            match report.outcomes@[alert] {
                NotifyOutcome::Delivered => fate == Fate::Delivered,
                NotifyOutcome::Failed(_) => fate == Fate::Failed,
                NotifyOutcome::NotAttempted(_) => fate == Fate::NotAttempted,
                NotifyOutcome::NoChannelConfigured => fate == Fate::NotAsked,
            }
        } else {
            fate == Fate::NotAttempted
        }
}

/// What is counted of a channel is how many alerts had that outcome there; one that it said nothing about was
/// not attempted; and of a channel that was not asked nothing is counted.
pub proof fn law_outcomes_are_counted(report: DeliveryReport, alerts: nat, fate: Fate)
    ensures
        settle::tally(Some(report), alerts as int, fate) == Seq::new(
            alerts,
            |alert: int| alert,
        ).filter(has_fate(report, fate)).len(),
        fate != Fate::NotAsked ==> settle::tally(None, alerts as int, fate) == 0,
    decreases alerts,
{
    reveal(Seq::filter);
    let all = Seq::new(alerts, |alert: int| alert);
    if alerts > 0 {
        law_outcomes_are_counted(report, (alerts - 1) as nat, fate);
        assert(all.drop_last() =~= Seq::new((alerts - 1) as nat, |alert: int| alert));
    }
}

/// What is reported of alerting is counted per channel, and what it cost is what both channels cost together.
pub proof fn law_both_channels_are_reported(
    health: NotifyHealth,
    alerts: nat,
    local: Option<DeliveryReport>,
    remote: Option<DeliveryReport>,
)
    requires
        settle::is_health(health, alerts, local, remote),
    ensures
        health.notable == alerts,
        local is None ==> health.local_delivered == 0 && health.local_failed == 0
            && health.local_not_attempted == 0,
        remote is None ==> health.remote_delivered == 0 && health.remote_failed == 0
            && health.remote_not_attempted == 0,
        local matches Some(report) ==> {
            let asked = Seq::new(alerts, |alert: int| alert);
            &&& health.local_delivered == asked.filter(has_fate(report, Fate::Delivered)).len()
            &&& health.local_failed == asked.filter(has_fate(report, Fate::Failed)).len()
            &&& health.local_not_attempted == asked.filter(
                has_fate(report, Fate::NotAttempted),
            ).len()
        },
        remote matches Some(report) ==> {
            let asked = Seq::new(alerts, |alert: int| alert);
            &&& health.remote_delivered == asked.filter(has_fate(report, Fate::Delivered)).len()
            &&& health.remote_failed == asked.filter(has_fate(report, Fate::Failed)).len()
            &&& health.remote_not_attempted == asked.filter(
                has_fate(report, Fate::NotAttempted),
            ).len()
        },
        (local is Some && remote is Some && local->0.cost.nanos + remote->0.cost.nanos
            <= u128::MAX) ==> health.delivery_cost.nanos == local->0.cost.nanos
            + remote->0.cost.nanos,
        local is Some && remote is None ==> health.delivery_cost.nanos == local->0.cost.nanos,
        local is None && remote is Some ==> health.delivery_cost.nanos == remote->0.cost.nanos,
        local is None && remote is None ==> health.delivery_cost.nanos == 0,
{
    let some = match local {
        Some(report) => report,
        None => arbitrary(),
    };
    law_outcomes_are_counted(some, alerts, Fate::Delivered);
    law_outcomes_are_counted(some, alerts, Fate::Failed);
    law_outcomes_are_counted(some, alerts, Fate::NotAttempted);
    let some = match remote {
        Some(report) => report,
        None => arbitrary(),
    };
    law_outcomes_are_counted(some, alerts, Fate::Delivered);
    law_outcomes_are_counted(some, alerts, Fate::Failed);
    law_outcomes_are_counted(some, alerts, Fate::NotAttempted);
}

/// The reason that is given for alerts that were not attempted is that of the first of them, and the local
/// channel's before the remote one's.
pub proof fn law_the_first_excuse_is_given(
    local: Option<DeliveryReport>,
    remote: Option<DeliveryReport>,
    upto: int,
    at: int,
)
    requires
        0 <= at < upto,
        forall|i: int|
            0 <= i < at ==> #[trigger] settle::excuse_at(local, i) is None && settle::excuse_at(
                remote,
                i,
            ) is None,
        settle::excuse_at(local, at) is Some || settle::excuse_at(remote, at) is Some,
    ensures
        settle::first_excuse(local, remote, upto) == if settle::excuse_at(local, at) is Some {
            settle::excuse_at(local, at)
        } else {
            settle::excuse_at(remote, at)
        },
    decreases upto,
{
    if at < upto - 1 {
        law_the_first_excuse_is_given(local, remote, upto - 1, at);
    } else {
        lemma_no_excuse_yet(local, remote, at);
    }
}

proof fn lemma_no_excuse_yet(
    local: Option<DeliveryReport>,
    remote: Option<DeliveryReport>,
    upto: int,
)
    requires
        forall|i: int|
            0 <= i < upto ==> #[trigger] settle::excuse_at(local, i) is None && settle::excuse_at(
                remote,
                i,
            ) is None,
    ensures
        settle::first_excuse(local, remote, upto) is None,
    decreases upto,
{
    if upto > 0 {
        lemma_no_excuse_yet(local, remote, upto - 1);
        assert(settle::excuse_at(local, upto - 1) is None);
    }
}

/// An alert has an excuse exactly if it was not attempted: the one the channel gave, or, where the channel said
/// nothing of it, that it did not.
pub proof fn law_which_alerts_have_an_excuse(report: DeliveryReport, alert: int, why: String)
    requires
        0 <= alert,
    ensures
        settle::excuse_at(None, alert) is None,
        alert < report.outcomes@.len() && report.outcomes@[alert] == NotifyOutcome::NotAttempted(why)
            ==> settle::excuse_at(Some(report), alert) == Some(why@),
        alert < report.outcomes@.len() && !(report.outcomes@[alert] is NotAttempted)
            ==> settle::excuse_at(Some(report), alert) is None,
        alert >= report.outcomes@.len() ==> settle::excuse_at(Some(report), alert) is Some,
        alert >= report.outcomes@.len() ==> text::contains_text(
            settle::excuse_at(Some(report), alert)->0,
            text::decimal((alert + 1) as nat),
        ),
        alert >= report.outcomes@.len() ==> text::contains_text(
            settle::excuse_at(Some(report), alert)->0,
            text::decimal(report.outcomes@.len()),
        ),
{
    let answers = text::decimal(report.outcomes@.len());
    let number = text::decimal((alert + 1) as nat);
    let first = "the channel answered about "@;
    let second = " alerts and said nothing about this one, which was number "@;
    let words = settle::unanswered(report.outcomes@.len(), alert);
    super::text::law_what_stands_in_a_text(first, answers, second + number);
    super::text::law_what_stands_in_a_text(first + answers + second, number, Seq::empty());
    assert(words =~= first + answers + (second + number));
    assert(words =~= (first + answers + second) + number + Seq::<char>::empty());
}

/// A reason is given for alerts that were not attempted exactly if there is one for any of them.
pub proof fn law_a_reason_is_given_where_there_is_one(
    health: NotifyHealth,
    alerts: nat,
    local: Option<DeliveryReport>,
    remote: Option<DeliveryReport>,
)
    requires
        settle::is_health(health, alerts, local, remote),
    ensures
        health.not_attempted_reason is None <==> settle::first_excuse(local, remote, alerts as int)
            is None,
        health.not_attempted_reason matches Some(why) ==> settle::first_excuse(
            local,
            remote,
            alerts as int,
        ) == Some(why@),
{
}

/// What was on record stays on record exactly if no alert about it went unheard.
pub proof fn law_only_the_unheard_is_struck(
    record: AnnouncementRecord,
    announcements: Seq<Announcement>,
    local: Option<DeliveryReport>,
    remote: Option<DeliveryReport>,
    at: int,
)
    ensures
        0 <= at < record.sessions@.len() && (forall|i: int|
            0 <= i < announcements.len() && !settle::reached(local, remote, i)
                ==> !(#[trigger] announcements[i]@ matches Notice::SessionWaiting {
                cli,
                recorded_as,
                ..
            } && cli == record.sessions@[at].cli@ && recorded_as
                == record.sessions@[at].recorded_as@)) ==> settle::sessions_heard(
            record.sessions@,
            announcements,
            local,
            remote,
        ).contains(record.sessions@[at]),
{
    if 0 <= at < record.sessions@.len() && (forall|i: int|
        0 <= i < announcements.len() && !settle::reached(local, remote, i)
            ==> !(#[trigger] announcements[i]@ matches Notice::SessionWaiting {
            cli,
            recorded_as,
            ..
        } && cli == record.sessions@[at].cli@ && recorded_as == record.sessions@[at].recorded_as@)) {
        if settle::session_unheard(record.sessions@[at], announcements, local, remote) {
            let i = choose|i: int|
                0 <= i < announcements.len() && settle::tells_of_session(
                    (#[trigger] announcements[i])@,
                    record.sessions@[at],
                ) && !settle::reached(local, remote, i);
            assert(!(announcements[i]@ matches Notice::SessionWaiting { cli, recorded_as, .. }
                && cli == record.sessions@[at].cli@ && recorded_as
                == record.sessions@[at].recorded_as@));
        }
        lemma_heard_stays(record.sessions@, announcements, local, remote, at);
    }
}

proof fn lemma_heard_stays(
    record: Seq<AnnouncedSession>,
    announcements: Seq<Announcement>,
    local: Option<DeliveryReport>,
    remote: Option<DeliveryReport>,
    at: int,
)
    requires
        0 <= at < record.len(),
        !settle::session_unheard(record[at], announcements, local, remote),
    ensures
        settle::sessions_heard(record, announcements, local, remote).contains(record[at]),
    decreases record.len(),
{
    let before = settle::sessions_heard(record.drop_last(), announcements, local, remote);
    let all = settle::sessions_heard(record, announcements, local, remote);
    if at < record.len() - 1 {
        lemma_heard_stays(record.drop_last(), announcements, local, remote, at);
        let k = choose|k: int| 0 <= k < before.len() && before[k] == record[at];
        assert(all[k] == record[at]);
    } else {
        assert(all[before.len() as int] == record[at]);
    }
}

/// A workspace on record stays on record if no alert about its path, case aside, went unheard.
pub proof fn law_a_workspace_that_was_heard_of_stays_on_record(
    record: Seq<(String, AnnouncedWorkspaceState)>,
    announcements: Seq<Announcement>,
    local: Option<DeliveryReport>,
    remote: Option<DeliveryReport>,
    at: int,
)
    requires
        0 <= at < record.len(),
        forall|i: int|
            0 <= i < announcements.len() && !settle::reached(local, remote, i) ==> match (
            #[trigger] announcements[i])@ {
                Notice::SessionWaiting { .. } => true,
                Notice::WorkspaceStranded { path, .. } => !text::same_but_case(record[at].0@, path),
                Notice::WorkspaceUnknownAtRisk { path, .. } => !text::same_but_case(
                    record[at].0@,
                    path,
                ),
            },
    ensures
        settle::workspaces_heard(record, announcements, local, remote).contains(record[at]),
    decreases record.len(),
{
    let before = settle::workspaces_heard(record.drop_last(), announcements, local, remote);
    let all = settle::workspaces_heard(record, announcements, local, remote);
    if at < record.len() - 1 {
        assert(record.drop_last()[at] == record[at]);
        law_a_workspace_that_was_heard_of_stays_on_record(
            record.drop_last(),
            announcements,
            local,
            remote,
            at,
        );
        let k = choose|k: int| 0 <= k < before.len() && before[k] == record[at];
        assert(all[k] == record[at]);
    } else {
        assert(!settle::workspace_unheard(record[at], announcements, local, remote)) by {
            if settle::workspace_unheard(record[at], announcements, local, remote) {
                let i = choose|i: int|
                    0 <= i < announcements.len() && settle::tells_of_workspace(
                        (#[trigger] announcements[i])@,
                        record[at],
                    ) && !settle::reached(local, remote, i);
            }
        }
        assert(all[before.len() as int] == record[at]);
    }
}

/// A record that is of the first version is taken whole; any other, and one that cannot be decoded or read or
/// is not there, is taken as empty, with the reason.
pub proof fn law_a_record_is_taken_whole_or_not_at_all(
    read: NotifiedRead,
    begun: (AnnouncementRecord, Option<Rebuilt>),
)
    requires
        notify::is_recalled(read, begun),
    ensures
        match read {
            NotifiedRead::Found(Ok(file)) => if file.version == 1 {
                begun.0 == file.record && begun.1 is None
            } else {
                begun.0.sessions@.len() == 0 && begun.0.workspaces@.len() == 0 && begun.1 == Some(
                    Rebuilt::UnknownVersion { found: file.version, understood: 1 },
                )
            },
            NotifiedRead::Found(Err(why)) => begun.0.sessions@.len() == 0
                && begun.0.workspaces@.len() == 0 && begun.1 == Some(Rebuilt::Unparsable(why)),
            NotifiedRead::Absent => begun.0.sessions@.len() == 0 && begun.0.workspaces@.len() == 0
                && begun.1 == Some(Rebuilt::NothingRecorded),
            NotifiedRead::Unreadable(why) => begun.0.sessions@.len() == 0
                && begun.0.workspaces@.len() == 0 && begun.1 == Some(Rebuilt::Unreadable(why)),
        },
{
}

} // verus!
