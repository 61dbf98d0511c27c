//! What became of the alerts: how many reached somebody, and which of them may count as announced.

use super::NotifyHealth;
use crate::deliver::DeliveryReport;
use crate::notify;
use crate::notify::{AnnouncedSession, AnnouncedWorkspaceState, Announcement, AnnouncementRecord, Notice};
use crate::text;
use crate::time::Duration;
use crate::world::{NotifyConfig, NotifyOutcome};
use vstd::prelude::*;

verus! {

/// What became of one alert on one channel.
#[derive(Debug, Clone, Copy, PartialEq, Eq, Structural)]
pub enum Fate {
    /// The channel was never asked, or is none.
    NotAsked,
    Delivered,
    Failed,
    NotAttempted,
}

/// What an outcome makes of an alert.
pub open spec fn fate_of(outcome: NotifyOutcome) -> Fate {
    match outcome {
        NotifyOutcome::Delivered => Fate::Delivered,
        NotifyOutcome::Failed(_) => Fate::Failed,
        NotifyOutcome::NotAttempted(_) => Fate::NotAttempted,
        NotifyOutcome::NoChannelConfigured => Fate::NotAsked,
    }
}

/// What became of an alert on a channel. One that the channel said nothing about was not attempted.
pub open spec fn fate_at(report: Option<DeliveryReport>, alert: int) -> Fate {
    match report {
        None => Fate::NotAsked,
        Some(found) => if alert < found.outcomes@.len() {
            fate_of(found.outcomes@[alert])
        } else {
            Fate::NotAttempted
        },
    }
}

/// What is said of an alert that a channel did not answer for.
pub open spec fn unanswered(answers: nat, alert: int) -> Seq<char> {
    "the channel answered about "@ + text::decimal(answers)
        + " alerts and said nothing about this one, which was number "@ + text::decimal(
        (alert + 1) as nat,
    )
}

/// Why an alert was not attempted on a channel, where it was not.
pub open spec fn excuse_at(report: Option<DeliveryReport>, alert: int) -> Option<Seq<char>> {
    match report {
        None => None,
        Some(found) => if alert >= found.outcomes@.len() {
            Some(unanswered(found.outcomes@.len(), alert))
        } else {
            match found.outcomes@[alert] {
                NotifyOutcome::NotAttempted(why) => Some(why@),
                _ => None,
            }
        },
    }
}

/// Whether this is what a channel said of an alert.
pub open spec fn is_outcome_for(outcome: NotifyOutcome, report: DeliveryReport, alert: usize) -> bool {
    &&& alert < report.outcomes@.len() ==> outcome == report.outcomes@[alert as int]
    &&& alert >= report.outcomes@.len() ==> outcome is NotAttempted
        && outcome->NotAttempted_0@ == unanswered(report.outcomes@.len(), alert as int)
}

/// What a channel reported about one alert in a batch.
pub fn outcome_for(report: &DeliveryReport, alert: usize) -> (outcome: NotifyOutcome)
    ensures
        is_outcome_for(outcome, *report, alert),
{
    if alert < report.outcomes.len() {
        report.outcomes[alert].clone()
    } else {
        NotifyOutcome::NotAttempted(
            String::from_str("the channel answered about ").concat(
                text::count_of(report.outcomes.len()).as_str(),
            ).concat(" alerts and said nothing about this one, which was number ").concat(
                text::decimal_of(alert as u128 + 1).as_str(),
            ),
        )
    }
}

/// How many of the first alerts had a fate on a channel.
pub open spec fn tally(report: Option<DeliveryReport>, upto: int, fate: Fate) -> nat
    decreases upto,
{
    if upto <= 0 {
        0
    } else {
        tally(report, upto - 1, fate) + (if fate_at(report, upto - 1) == fate {
            1nat
        } else {
            0nat
        })
    }
}

/// The first reason why one of the first alerts was not attempted, the local channel's before the
/// remote one's for the same alert.
pub open spec fn first_excuse(
    local: Option<DeliveryReport>,
    remote: Option<DeliveryReport>,
    upto: int,
) -> Option<Seq<char>>
    decreases upto,
{
    if upto <= 0 {
        None
    } else {
        match first_excuse(local, remote, upto - 1) {
            Some(why) => Some(why),
            None => match excuse_at(local, upto - 1) {
                Some(why) => Some(why),
                None => excuse_at(remote, upto - 1),
            },
        }
    }
}

/// Whether an alert reached somebody.
pub open spec fn reached(
    local: Option<DeliveryReport>,
    remote: Option<DeliveryReport>,
    alert: int,
) -> bool {
    fate_at(local, alert) == Fate::Delivered || fate_at(remote, alert) == Fate::Delivered
}

/// Whether a notice is about a session on record.
pub open spec fn tells_of_session(notice: Notice, entry: AnnouncedSession) -> bool {
    notice matches Notice::SessionWaiting { cli, recorded_as, .. } && cli == entry.cli@
        && recorded_as == entry.recorded_as@
}

/// Whether a notice is about a workspace on record, case aside.
pub open spec fn tells_of_workspace(
    notice: Notice,
    entry: (String, AnnouncedWorkspaceState),
) -> bool {
    ||| notice matches Notice::WorkspaceStranded { path, .. } && text::same_but_case(
        entry.0@,
        path,
    )
    ||| notice matches Notice::WorkspaceUnknownAtRisk { path, .. } && text::same_but_case(
        entry.0@,
        path,
    )
}

/// Whether an alert about a session on record reached nobody.
pub open spec fn session_unheard(
    entry: AnnouncedSession,
    announcements: Seq<Announcement>,
    local: Option<DeliveryReport>,
    remote: Option<DeliveryReport>,
) -> bool {
    exists|i: int|
        0 <= i < announcements.len() && tells_of_session((#[trigger] announcements[i])@, entry)
            && !reached(local, remote, i)
}

/// Whether an alert about a workspace on record reached nobody.
pub open spec fn workspace_unheard(
    entry: (String, AnnouncedWorkspaceState),
    announcements: Seq<Announcement>,
    local: Option<DeliveryReport>,
    remote: Option<DeliveryReport>,
) -> bool {
    exists|i: int|
        0 <= i < announcements.len() && tells_of_workspace((#[trigger] announcements[i])@, entry)
            && !reached(local, remote, i)
}

/// The sessions on record without those that nobody heard of.
pub open spec fn sessions_heard(
    record: Seq<AnnouncedSession>,
    announcements: Seq<Announcement>,
    local: Option<DeliveryReport>,
    remote: Option<DeliveryReport>,
) -> Seq<AnnouncedSession>
    decreases record.len(),
{
    if record.len() == 0 {
        Seq::empty()
    } else {
        let before = sessions_heard(record.drop_last(), announcements, local, remote);
        if session_unheard(record.last(), announcements, local, remote) {
            before
        } else {
            before.push(record.last())
        }
    }
}

/// The workspaces on record without those that nobody heard of.
pub open spec fn workspaces_heard(
    record: Seq<(String, AnnouncedWorkspaceState)>,
    announcements: Seq<Announcement>,
    local: Option<DeliveryReport>,
    remote: Option<DeliveryReport>,
) -> Seq<(String, AnnouncedWorkspaceState)>
    decreases record.len(),
{
    if record.len() == 0 {
        Seq::empty()
    } else {
        let before = workspaces_heard(record.drop_last(), announcements, local, remote);
        if workspace_unheard(record.last(), announcements, local, remote) {
            before
        } else {
            before.push(record.last())
        }
    }
}

fn fate(report: &Option<DeliveryReport>, alert: usize) -> (found: (Fate, Option<String>))
    ensures
        found.0 == fate_at(*report, alert as int),
        match found.1 {
            Some(why) => excuse_at(*report, alert as int) == Some(why@),
            None => excuse_at(*report, alert as int) is None,
        },
{
    match report {
        None => (Fate::NotAsked, None),
        Some(answers) => match outcome_for(answers, alert) {
            NotifyOutcome::Delivered => (Fate::Delivered, None),
            NotifyOutcome::Failed(_) => (Fate::Failed, None),
            NotifyOutcome::NotAttempted(why) => (Fate::NotAttempted, Some(why)),
            NotifyOutcome::NoChannelConfigured => (Fate::NotAsked, None),
        },
    }
}

fn has_reached(local: &Option<DeliveryReport>, remote: &Option<DeliveryReport>, alert: usize) -> (
    found: bool)
    ensures
        found == reached(*local, *remote, alert as int),
{
    fate(local, alert).0 == Fate::Delivered || fate(remote, alert).0 == Fate::Delivered
}

fn is_session_unheard(
    entry: &AnnouncedSession,
    announcements: &Vec<Announcement>,
    local: &Option<DeliveryReport>,
    remote: &Option<DeliveryReport>,
) -> (unheard: bool)
    ensures
        unheard == session_unheard(*entry, announcements@, *local, *remote),
{
    let mut next: usize = 0;
    while next < announcements.len()
        invariant
            next <= announcements@.len(),
            forall|i: int|
                0 <= i < next ==> !(tells_of_session((#[trigger] announcements@[i])@, *entry)
                    && !reached(*local, *remote, i)),
        decreases announcements@.len() - next,
    {
        let about: bool = match &announcements[next] {
            Announcement::SessionWaiting { cli, recorded_as, .. } => text::same(
                cli.as_str(),
                entry.cli.as_str(),
            ) && text::same(recorded_as.as_str(), entry.recorded_as.as_str()),
            _ => false,
        };
        if about && !has_reached(local, remote, next) {
            assert(tells_of_session(announcements@[next as int]@, *entry));
            return true;
        }
        next += 1;
    }
    false
}

fn is_workspace_unheard(
    entry: &(String, AnnouncedWorkspaceState),
    announcements: &Vec<Announcement>,
    local: &Option<DeliveryReport>,
    remote: &Option<DeliveryReport>,
) -> (unheard: bool)
    ensures
        unheard == workspace_unheard(*entry, announcements@, *local, *remote),
{
    let mut next: usize = 0;
    while next < announcements.len()
        invariant
            next <= announcements@.len(),
            forall|i: int|
                0 <= i < next ==> !(tells_of_workspace((#[trigger] announcements@[i])@, *entry)
                    && !reached(*local, *remote, i)),
        decreases announcements@.len() - next,
    {
        let about: bool = match &announcements[next] {
            Announcement::WorkspaceStranded { path, .. } => text::same_ignoring_case(
                entry.0.as_str(),
                path.as_str(),
            ),
            Announcement::WorkspaceUnknownAtRisk { path, .. } => text::same_ignoring_case(
                entry.0.as_str(),
                path.as_str(),
            ),
            _ => false,
        };
        if about && !has_reached(local, remote, next) {
            assert(tells_of_workspace(announcements@[next as int]@, *entry));
            return true;
        }
        next += 1;
    }
    false
}

/// Strikes from the record whatever nobody heard of, so that the next run announces it again.
pub fn heard_of(
    record: AnnouncementRecord,
    announcements: &Vec<Announcement>,
    local: &Option<DeliveryReport>,
    remote: &Option<DeliveryReport>,
) -> (kept: AnnouncementRecord)
    ensures
        kept.sessions@ == sessions_heard(record.sessions@, announcements@, *local, *remote),
        kept.workspaces@ == workspaces_heard(record.workspaces@, announcements@, *local, *remote),
{
    let AnnouncementRecord { sessions: told, workspaces: told_of } = record;
    let ghost all = told@;
    let mut sessions: Vec<AnnouncedSession> = Vec::new();
    assert(all.take(0) =~= Seq::<AnnouncedSession>::empty());
    for entry in walk: told
        invariant
            walk.seq() == all,
            sessions@ == sessions_heard(
                all.take(walk.index() as int),
                announcements@,
                *local,
                *remote,
            ),
    {
        let ghost at = walk.index() as int;
        assert(all.take(at + 1).drop_last() =~= all.take(at));
        if !is_session_unheard(&entry, announcements, local, remote) {
            sessions.push(entry);
        }
    }
    assert(all.take(all.len() as int) =~= all);
    let ghost all = told_of@;
    let mut workspaces: Vec<(String, AnnouncedWorkspaceState)> = Vec::new();
    assert(all.take(0) =~= Seq::<(String, AnnouncedWorkspaceState)>::empty());
    for entry in walk: told_of
        invariant
            walk.seq() == all,
            workspaces@ == workspaces_heard(
                all.take(walk.index() as int),
                announcements@,
                *local,
                *remote,
            ),
    {
        let ghost at = walk.index() as int;
        assert(all.take(at + 1).drop_last() =~= all.take(at));
        if !is_workspace_unheard(&entry, announcements, local, remote) {
            workspaces.push(entry);
        }
    }
    assert(all.take(all.len() as int) =~= all);
    AnnouncementRecord { sessions, workspaces }
}

/// What a channel's deliveries cost, and nothing where it was not asked.
pub open spec fn cost_of(report: Option<DeliveryReport>) -> Duration {
    match report {
        Some(found) => found.cost,
        None => Duration { nanos: 0 },
    }
}

/// Whether a health is what two channels' reports on a number of alerts come to.
pub open spec fn is_health(
    health: NotifyHealth,
    alerts: nat,
    local: Option<DeliveryReport>,
    remote: Option<DeliveryReport>,
) -> bool {
    &&& health.notable == alerts
    &&& health.local_delivered == tally(local, alerts as int, Fate::Delivered)
    &&& health.local_failed == tally(local, alerts as int, Fate::Failed)
    &&& health.local_not_attempted == tally(local, alerts as int, Fate::NotAttempted)
    &&& health.remote_delivered == tally(remote, alerts as int, Fate::Delivered)
    &&& health.remote_failed == tally(remote, alerts as int, Fate::Failed)
    &&& health.remote_not_attempted == tally(remote, alerts as int, Fate::NotAttempted)
    &&& match health.not_attempted_reason {
        Some(why) => first_excuse(local, remote, alerts as int) == Some(why@),
        None => first_excuse(local, remote, alerts as int) is None,
    }
    &&& health.delivery_cost.nanos == (if cost_of(local).nanos + cost_of(remote).nanos
        > u128::MAX {
        u128::MAX as int
    } else {
        cost_of(local).nanos + cost_of(remote).nanos
    })
}

/// What two channels' reports on a number of alerts come to.
pub fn health_of(
    config: NotifyConfig,
    alerts: usize,
    local: &Option<DeliveryReport>,
    remote: &Option<DeliveryReport>,
    read_only: Option<String>,
) -> (health: NotifyHealth)
    ensures
        is_health(health, alerts as nat, *local, *remote),
        health.config == config,
        health.read_only == read_only,
{
    let mut local_delivered: usize = 0;
    let mut local_failed: usize = 0;
    let mut local_not_attempted: usize = 0;
    let mut remote_delivered: usize = 0;
    let mut remote_failed: usize = 0;
    let mut remote_not_attempted: usize = 0;
    let mut not_attempted_reason: Option<String> = None;
    let mut next: usize = 0;
    while next < alerts
        invariant
            next <= alerts,
            local_delivered <= next,
            local_failed <= next,
            local_not_attempted <= next,
            remote_delivered <= next,
            remote_failed <= next,
            remote_not_attempted <= next,
            local_delivered == tally(*local, next as int, Fate::Delivered),
            local_failed == tally(*local, next as int, Fate::Failed),
            local_not_attempted == tally(*local, next as int, Fate::NotAttempted),
            remote_delivered == tally(*remote, next as int, Fate::Delivered),
            remote_failed == tally(*remote, next as int, Fate::Failed),
            remote_not_attempted == tally(*remote, next as int, Fate::NotAttempted),
            match not_attempted_reason {
                Some(why) => first_excuse(*local, *remote, next as int) == Some(why@),
                None => first_excuse(*local, *remote, next as int) is None,
            },
        decreases alerts - next,
    {
        let (here, here_why) = fate(local, next);
        match here {
            Fate::Delivered => {
                local_delivered += 1;
            },
            Fate::Failed => {
                local_failed += 1;
            },
            Fate::NotAttempted => {
                local_not_attempted += 1;
            },
            Fate::NotAsked => {},
        }
        let (there, there_why) = fate(remote, next);
        match there {
            Fate::Delivered => {
                remote_delivered += 1;
            },
            Fate::Failed => {
                remote_failed += 1;
            },
            Fate::NotAttempted => {
                remote_not_attempted += 1;
            },
            Fate::NotAsked => {},
        }
        if not_attempted_reason.is_none() {
            not_attempted_reason = match here_why {
                Some(why) => Some(why),
                None => there_why,
            };
        }
        next += 1;
    }
    let here: u128 = match local {
        Some(found) => found.cost.nanos,
        None => 0,
    };
    let there: u128 = match remote {
        Some(found) => found.cost.nanos,
        None => 0,
    };
    NotifyHealth {
        config,
        notable: alerts,
        local_delivered,
        local_failed,
        local_not_attempted,
        remote_delivered,
        remote_failed,
        remote_not_attempted,
        not_attempted_reason,
        delivery_cost: Duration { nanos: here.saturating_add(there) },
        read_only,
    }
}

/// Every alert offered to a channel has exactly one fate there.
pub proof fn law_every_alert_is_accounted_for(report: DeliveryReport, alerts: nat)
    requires
        forall|i: int|
            0 <= i < report.outcomes@.len() ==> !(#[trigger] report.outcomes@[i] is NoChannelConfigured),
    ensures
        tally(Some(report), alerts as int, Fate::Delivered) + tally(
            Some(report),
            alerts as int,
            Fate::Failed,
        ) + tally(Some(report), alerts as int, Fate::NotAttempted) == alerts,
    decreases alerts,
{
    if alerts > 0 {
        law_every_alert_is_accounted_for(report, (alerts - 1) as nat);
        let last = alerts as int - 1;
        if last < report.outcomes@.len() {
            assert(!(report.outcomes@[last] is NoChannelConfigured));
        }
    }
}

proof fn lemma_heard_were_heard(
    record: Seq<AnnouncedSession>,
    announcements: Seq<Announcement>,
    local: Option<DeliveryReport>,
    remote: Option<DeliveryReport>,
    at: int,
)
    requires
        0 <= at < sessions_heard(record, announcements, local, remote).len(),
    ensures
        !session_unheard(
            sessions_heard(record, announcements, local, remote)[at],
            announcements,
            local,
            remote,
        ),
    decreases record.len(),
{
    let before = sessions_heard(record.drop_last(), announcements, local, remote);
    if at < before.len() {
        lemma_heard_were_heard(record.drop_last(), announcements, local, remote, at);
    }
}

proof fn lemma_heard_workspaces_were_heard(
    record: Seq<(String, AnnouncedWorkspaceState)>,
    announcements: Seq<Announcement>,
    local: Option<DeliveryReport>,
    remote: Option<DeliveryReport>,
    at: int,
)
    requires
        0 <= at < workspaces_heard(record, announcements, local, remote).len(),
    ensures
        !workspace_unheard(
            workspaces_heard(record, announcements, local, remote)[at],
            announcements,
            local,
            remote,
        ),
    decreases record.len(),
{
    let before = workspaces_heard(record.drop_last(), announcements, local, remote);
    if at < before.len() {
        lemma_heard_workspaces_were_heard(record.drop_last(), announcements, local, remote, at);
    }
}

/// Where every alert reached somebody, nothing is struck from the record.
pub proof fn lemma_what_all_heard_is_kept(
    sessions: Seq<AnnouncedSession>,
    workspaces: Seq<(String, AnnouncedWorkspaceState)>,
    announcements: Seq<Announcement>,
    local: Option<DeliveryReport>,
    remote: Option<DeliveryReport>,
)
    requires
        forall|i: int| 0 <= i < announcements.len() ==> #[trigger] reached(local, remote, i),
    ensures
        sessions_heard(sessions, announcements, local, remote) == sessions,
        workspaces_heard(workspaces, announcements, local, remote) == workspaces,
    decreases sessions.len() + workspaces.len(),
{
    if sessions.len() > 0 {
        lemma_what_all_heard_is_kept(
            sessions.drop_last(),
            workspaces,
            announcements,
            local,
            remote,
        );
    } else if workspaces.len() > 0 {
        lemma_what_all_heard_is_kept(
            sessions,
            workspaces.drop_last(),
            announcements,
            local,
            remote,
        );
    }
    assert(sessions_heard(sessions, announcements, local, remote) =~= sessions);
    assert(workspaces_heard(workspaces, announcements, local, remote) =~= workspaces);
}

/// An alert that reached nobody does not count as announced: the session or workspace it was about
/// is not on the record that is kept, so the next run announces it again.
pub proof fn law_an_alert_nobody_heard_is_announced_again(
    record: AnnouncementRecord,
    announcements: Seq<Announcement>,
    local: Option<DeliveryReport>,
    remote: Option<DeliveryReport>,
    alert: int,
)
    requires
        0 <= alert < announcements.len(),
        !reached(local, remote, alert),
    ensures
        match announcements[alert]@ {
            Notice::SessionWaiting { cli, recorded_as, .. } => notify::told_of_session(
                sessions_heard(record.sessions@, announcements, local, remote),
                cli,
                recorded_as,
            ) is None,
            Notice::WorkspaceStranded { path, .. } => notify::told_of_workspace(
                workspaces_heard(record.workspaces@, announcements, local, remote),
                path,
            ) is None,
            Notice::WorkspaceUnknownAtRisk { path, .. } => notify::told_of_workspace(
                workspaces_heard(record.workspaces@, announcements, local, remote),
                path,
            ) is None,
        },
{
    let notice = announcements[alert]@;
    match notice {
        Notice::SessionWaiting { cli, recorded_as, .. } => {
            let kept = sessions_heard(record.sessions@, announcements, local, remote);
            let wanted = notify::about_session(cli, recorded_as);
            assert forall|i: int| 0 <= i < kept.len() implies !wanted(#[trigger] kept[i]) by {
                lemma_heard_were_heard(record.sessions@, announcements, local, remote, i);
                if wanted(kept[i]) {
                    assert(tells_of_session(announcements[alert]@, kept[i]));
                }
            }
            crate::order::lemma_is_nowhere(kept, wanted);
        },
        Notice::WorkspaceStranded { path, .. } => {
            let kept = workspaces_heard(record.workspaces@, announcements, local, remote);
            let wanted = notify::about_workspace(path);
            assert forall|i: int| 0 <= i < kept.len() implies !wanted(#[trigger] kept[i]) by {
                lemma_heard_workspaces_were_heard(
                    record.workspaces@,
                    announcements,
                    local,
                    remote,
                    i,
                );
                if wanted(kept[i]) {
                    assert(tells_of_workspace(announcements[alert]@, kept[i]));
                }
            }
            crate::order::lemma_is_nowhere(kept, wanted);
        },
        Notice::WorkspaceUnknownAtRisk { path, .. } => {
            let kept = workspaces_heard(record.workspaces@, announcements, local, remote);
            let wanted = notify::about_workspace(path);
            assert forall|i: int| 0 <= i < kept.len() implies !wanted(#[trigger] kept[i]) by {
                lemma_heard_workspaces_were_heard(
                    record.workspaces@,
                    announcements,
                    local,
                    remote,
                    i,
                );
                if wanted(kept[i]) {
                    assert(tells_of_workspace(announcements[alert]@, kept[i]));
                }
            }
            crate::order::lemma_is_nowhere(kept, wanted);
        },
    }
}

} // verus!
