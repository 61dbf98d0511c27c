use std::cell::{Cell, RefCell};

use acmon::collect::settle::{health_of, heard_of, outcome_for};
use acmon::collect::{Identity, Session, WorkspaceReport};
use acmon::deliver::{
    budget_spent, gathered, request_budget, sequentially, Bounds, DeliveryReport, Plain,
    CONCURRENCY,
};
use acmon::liveness::{Method, State, Verdict};
use acmon::notify::{
    decide, parse, recall, serialise, AnnouncedSessionState, AnnouncedWorkspaceState, Announcement,
    AnnouncementRecord, NotifiedFile, NotifiedRead, Rebuilt,
};
use acmon::time::Duration;
use acmon::vcs::{Unreadable, WorkspaceState};
use acmon::world::{NotifyConfig, NotifyOutcome, ResourcesUnavailable, Workspace, WorkspaceUnknown};

fn session(recorded_as: &str, state: State) -> Session {
    Session {
        identity: Identity::Transcript { recorded_as: recorded_as.to_string() },
        cli: "codex".to_string(),
        resources: Err(ResourcesUnavailable::ProcessExited),
        last_reading: None,
        workspace: Ok(Workspace { path: "/work".to_string(), namespace: Ok("-work".to_string()) }),
        liveness: Verdict { state, method: Method::ProcessResidentButSilent },
    }
}

fn workspace(path: &str, state: WorkspaceState, entries: Option<usize>) -> WorkspaceReport {
    WorkspaceReport {
        path: path.to_string(),
        state,
        linked_worktree: false,
        uncommitted_entries: entries,
    }
}

fn report(outcomes: Vec<NotifyOutcome>) -> DeliveryReport {
    DeliveryReport { outcomes, cost: Duration::from_millis(3) }
}

#[test]
fn what_holds_is_announced_once_and_again_only_after_it_ended() {
    let sessions = vec![session("one", State::Waiting), session("two", State::Active)];
    let workspaces = vec![workspace("/w", WorkspaceState::DirtyStranded, Some(3))];
    let (first, record) = decide(&sessions, &workspaces, &AnnouncementRecord::empty());
    let words: Vec<String> = first.iter().map(|one| one.payload()).collect();
    assert_eq!(
        words,
        vec![
            "Session codex one is WAITING in /work",
            "Workspace /w is STRANDED with 3 uncommitted entries",
        ]
    );
    assert_eq!(record.sessions.len(), 1);
    assert!(record.sessions[0].state == AnnouncedSessionState::Waiting);

    let (again, record) = decide(&sessions, &workspaces, &record);
    assert!(again.is_empty());
    assert!(!record.is_empty());

    let (ended, record) = decide(&vec![], &vec![], &record);
    assert!(ended.is_empty() && record.is_empty());
    let (anew, _) = decide(&sessions, &workspaces, &record);
    assert_eq!(anew.len(), 2);
}

#[test]
fn a_change_of_what_is_wrong_is_announced() {
    let stranded = vec![workspace("/w", WorkspaceState::DirtyStranded, None)];
    let (told, record) = decide(&vec![], &stranded, &AnnouncementRecord::empty());
    assert_eq!(
        told[0].payload(),
        "Workspace /w is STRANDED, and how many entries are uncommitted could not be read"
    );
    let unreadable = vec![workspace("/w", WorkspaceState::Unknown(Unreadable::TimedOut), None)];
    let (told, record) = decide(&vec![], &unreadable, &record);
    assert!(matches!(&told[0], Announcement::WorkspaceUnknownAtRisk { .. }));
    assert!(told[0].payload().starts_with("Workspace /w is at risk (version control: "));
    assert_eq!(
        record.workspaces,
        vec![("/w".to_string(), AnnouncedWorkspaceState::UnknownAtRisk)]
    );
}

#[test]
fn a_record_reads_back_and_one_that_cannot_is_rebuilt() {
    let (_, record) = decide(&vec![session("one", State::Waiting)], &vec![], &AnnouncementRecord::empty());
    let (read, rebuilt) = parse(Ok(serialise(record)));
    assert!(rebuilt.is_none());
    assert_eq!(read.sessions[0].recorded_as, "one");

    let (empty, rebuilt) = parse(Err("no brace".to_string()));
    assert!(empty.is_empty());
    assert_eq!(
        rebuilt.unwrap().to_text(),
        "the record of what has already been announced could not be understood (no brace)"
    );
    assert_eq!(
        recall(NotifiedRead::Unreadable("denied".to_string())).1,
        Some(Rebuilt::Unreadable("denied".to_string()))
    );
    assert_eq!(recall(NotifiedRead::Absent).1, Some(Rebuilt::NothingRecorded));
    let newer = NotifiedFile { version: 4, record: AnnouncementRecord::empty() };
    assert_eq!(
        parse(Ok(newer)).1.unwrap().to_text(),
        "the record of what has already been announced is schema version 4, and this acmon \
         understands 1"
    );
    assert_eq!(
        Rebuilt::NothingRecorded.to_text(),
        "no record of what has already been announced was found, so this run started with an \
         empty one"
    );
    assert_eq!(
        Rebuilt::Unreadable("denied".to_string()).to_text(),
        "the record of what has already been announced could not be read (denied)"
    );
}

#[test]
fn silence_about_an_alert_is_not_delivery() {
    let short = report(vec![NotifyOutcome::Delivered]);
    assert!(matches!(outcome_for(&short, 0), NotifyOutcome::Delivered));
    assert!(matches!(
        outcome_for(&short, 1),
        NotifyOutcome::NotAttempted(why) if why == "the channel answered about 1 alerts and said \
            nothing about this one, which was number 2"
    ));

    let outcomes = gathered(2, vec![(1, NotifyOutcome::Delivered)]);
    assert_eq!(outcomes.len(), 2);
    assert!(!matches!(outcomes[0], NotifyOutcome::Delivered));
    assert!(matches!(outcomes[1], NotifyOutcome::Delivered));
}

#[test]
fn only_what_somebody_heard_stays_announced() {
    let sessions = vec![session("one", State::Waiting), session("two", State::Waiting)];
    let (told, record) = decide(&sessions, &vec![], &AnnouncementRecord::empty());
    let local = Some(report(vec![
        NotifyOutcome::Delivered,
        NotifyOutcome::Failed("busy".to_string()),
    ]));
    let kept = heard_of(record, &told, &local, &None);
    let names: Vec<&str> = kept.sessions.iter().map(|one| one.recorded_as.as_str()).collect();
    assert_eq!(names, vec!["one"]);
}

#[test]
fn every_outcome_is_counted_on_its_channel() {
    let config =
        NotifyConfig::from_settings(Some("say".to_string()), Some("http://x".to_string()));
    assert!(config.has_any());
    let local = Some(report(vec![
        NotifyOutcome::Delivered,
        NotifyOutcome::Failed("busy".to_string()),
    ]));
    let remote = Some(report(vec![
        NotifyOutcome::NotAttempted("late".to_string()),
        NotifyOutcome::Delivered,
    ]));
    let health = health_of(config, 2, &local, &remote, None);
    assert_eq!((health.local_delivered, health.local_failed, health.local_not_attempted), (1, 1, 0));
    assert_eq!((health.remote_delivered, health.remote_failed, health.remote_not_attempted), (1, 0, 1));
    assert_eq!(health.notable, 2);
    assert_eq!(health.not_attempted_reason, Some("late".to_string()));
    assert!(health.has_failures() && health.has_unattempted());
    assert_eq!(health.not_attempted(), 1);
}

#[test]
fn nothing_is_begun_after_the_time_allowed() {
    let payloads = vec!["a".to_string(), "b".to_string()];
    let mut slow =
        Plain::new(|| Duration::from_secs(2), |_: &str| -> NotifyOutcome { panic!("too late") });
    let late = sequentially(&payloads, Duration::from_secs(1), &mut slow);
    assert_eq!(late.outcomes.len(), 2);
    assert!(late.outcomes.iter().all(|one| matches!(
        one,
        NotifyOutcome::NotAttempted(why) if why == "this run's alerting budget of 1s for the \
            channel was spent before this alert was dispatched"
    )));
    assert_eq!(late.cost, Duration::from_secs(2));
    assert!(matches!(budget_spent(Duration::from_secs(1)), NotifyOutcome::NotAttempted(_)));
}

#[test]
fn the_first_alerts_are_handed_over_in_their_order() {
    let payloads: Vec<String> = ["a", "b", "c", "d"].iter().map(|one| one.to_string()).collect();
    let heard = RefCell::new(Vec::new());
    let ticks = Cell::new(0);
    let mut channel = Plain::new(
        || {
            ticks.set(ticks.get() + 400);
            Duration::from_millis(ticks.get())
        },
        |payload: &str| {
            heard.borrow_mut().push(payload.to_string());
            if payload == "a" {
                NotifyOutcome::Delivered
            } else {
                NotifyOutcome::Failed("deaf".to_string())
            }
        },
    );
    let report = sequentially(&payloads, Duration::from_secs(1), &mut channel);
    assert_eq!(*heard.borrow(), vec!["a", "b"]);
    assert!(matches!(report.outcomes[0], NotifyOutcome::Delivered));
    assert!(matches!(report.outcomes[1], NotifyOutcome::Failed(_)));
    assert!(matches!(report.outcomes[2], NotifyOutcome::NotAttempted(_)));
    assert!(matches!(report.outcomes[3], NotifyOutcome::NotAttempted(_)));
    assert_eq!(report.cost, Duration::from_millis(2_000));
    assert_eq!(report.count(|one: &NotifyOutcome| matches!(one, NotifyOutcome::Delivered)), 1);

    let none = sequentially(&payloads, Duration { nanos: 0 }, &mut channel);
    assert!(none.outcomes.iter().all(|one| matches!(one, NotifyOutcome::NotAttempted(_))));
    assert_eq!(heard.borrow().len(), 2);
}

#[test]
fn no_more_is_delivered_at_once_than_there_is_to_deliver() {
    let bounds = Bounds::standard();
    assert_eq!(bounds.workers, CONCURRENCY);
    assert_eq!(bounds.budget, request_budget());
    assert_eq!(bounds.workers_for(3), 3);
    assert_eq!(bounds.workers_for(30), 8);
    assert!(DeliveryReport::nothing_asked().outcomes.is_empty());
}

#[test]
fn a_session_nobody_can_name_is_not_announced() {
    let mut nameless = session("x", State::Waiting);
    nameless.identity = Identity::Process { pid: 1 };
    nameless.workspace = Err(WorkspaceUnknown::ProcessExited);
    let (told, record) = decide(&vec![nameless], &vec![], &AnnouncementRecord::empty());
    assert!(told.is_empty() && record.is_empty());
}
