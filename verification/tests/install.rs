use acmon::launchd::install::{
    continue_install, continue_uninstall, describe_facts, install, uninstall, Afterwards, Answer,
    Install, Installed, Move, ProgramSeen, Removal, Reply, Stage, Then, Turn, Uninstalled,
};
use acmon::launchd::report::{status, Evidence, LastWrite, ProcessAnswer};
use acmon::launchd::{JobFacts, JobQuery, LABEL};
use acmon::starts::Examined;
use acmon::state::{Paths, StateStore};
use acmon::time::{Duration, SystemTime};

fn request() -> Install {
    Install::from_values(
        Ok("/usr/local/bin/amon".to_string()),
        Ok(Paths::with_base("/base")),
        Ok("/agents".to_string()),
        vec![("HOME".to_string(), "/Users/someone".to_string())],
        None,
    )
    .expect("everything is known")
}

fn facts(pid: Option<u32>) -> JobFacts {
    JobFacts { running: Some(pid.is_some()), pid, runs: Some(2), last_exit: None }
}

/// Answers an installation's tasks in order and hands back how it ended, and what the user was told.
fn run(replies: Vec<Reply>) -> (Installed, Vec<String>) {
    let request = request();
    let Turn { mut notices, mut next } = install(&request, "launchd");
    let mut replies = replies.into_iter();
    loop {
        match next {
            Then::Finished(outcome) => {
                assert!(replies.next().is_none(), "a task was left over");
                return (outcome, notices);
            }
            Then::Next(stage) => {
                let reply = replies.next().expect("another task");
                assert!(stage.fits(&reply), "{stage:?} {reply:?}");
                let turn = continue_install(&request, stage, reply);
                notices.extend(turn.notices);
                next = turn.next;
            }
        }
    }
}

fn undo(answers: Vec<Answer>) -> (Uninstalled, Vec<String>) {
    let request = request();
    let Move { mut notices, mut next } = uninstall("launchd");
    let mut answers = answers.into_iter();
    loop {
        match next {
            Afterwards::Finished(outcome) => {
                assert!(answers.next().is_none(), "a task was left over");
                return (outcome, notices);
            }
            Afterwards::Next(stage) => {
                let answer = answers.next().expect("another task");
                assert!(stage.fits(&answer), "{stage:?} {answer:?}");
                let step = continue_uninstall(&request, stage, answer);
                notices.extend(step.notices);
                next = step.next;
            }
        }
    }
}

fn up_to_loading() -> Vec<Reply> {
    vec![
        Reply::Program(ProgramSeen::File),
        Reply::Plist(Ok(None)),
        Reply::Done(Ok(())),
        Reply::Done(Ok(())),
        Reply::Done(Ok(())),
    ]
}

#[test]
fn the_plist_runs_the_monitor_and_is_named_after_the_job() {
    let request = request();
    assert_eq!(request.plist_path(), format!("/agents/{LABEL}.plist"));
    assert_eq!(request.job.command_line(), "/usr/local/bin/amon watch");
    assert_eq!(request.job.log, "/base/state/amon.log");
    let plist = request.job.plist();
    assert!(plist.contains("<string>/usr/local/bin/amon</string>"), "{plist}");
    assert!(plist.contains("<string>/Users/someone</string>"), "{plist}");
}

#[test]
fn the_first_thing_that_is_missing_stands_in_the_way() {
    let homeless: Result<Paths, String> = Err("no home".to_string());
    let refused = Install::from_values(
        Err("gone".to_string()),
        homeless,
        Err("no directory".to_string()),
        vec![],
        None,
    );
    assert_eq!(
        refused.err().unwrap(),
        "this binary's own path could not be resolved (gone), and the plist has to name it absolutely"
    );
    let refused = Install::from_values(
        Ok("/amon".to_string()),
        Err("no home".to_string()),
        Err("no directory".to_string()),
        vec![],
        None,
    );
    assert_eq!(refused.err().unwrap(), "no home");
    let refused = Install::from_values(
        Ok("/amon".to_string()),
        Ok(Paths::with_base("/base")),
        Err("no directory".to_string()),
        vec![],
        None,
    );
    assert_eq!(refused.err().unwrap(), "no directory");
}

#[test]
fn an_installation_succeeds_only_where_launchd_confirms_it() {
    let mut replies = up_to_loading();
    replies.push(Reply::Done(Ok(())));
    replies.push(Reply::Job(JobQuery::Loaded(facts(Some(77)))));
    let (outcome, notices) = run(replies);
    assert!(outcome.is_installed());
    assert!(outcome.message().ends_with("running as pid 77"), "{}", outcome.message());
    assert!(notices[0].starts_with(&format!("about to create /agents/{LABEL}.plist")));
    assert!(notices.contains(&format!("created /agents/{LABEL}.plist")));
}

#[test]
fn the_state_directory_is_the_one_of_the_log() {
    let turn = continue_install(&request(), Stage::AgentsDirectory, Reply::Done(Ok(())));
    assert_eq!(turn.next, Then::Next(Stage::StateDirectory("/base/state".to_string())));
}

#[test]
fn a_refused_plist_is_removed_again() {
    let mut replies = up_to_loading();
    replies.push(Reply::Done(Err("5: Input/output error".to_string())));
    replies.push(Reply::Done(Err("no such job".to_string())));
    replies.push(Reply::Done(Ok(())));
    let (outcome, notices) = run(replies);
    match outcome {
        Installed::LoadFailed { reason, leftover, .. } => {
            assert_eq!(reason, "5: Input/output error");
            assert!(leftover.plist_remains.is_none());
        }
        other => panic!("{other:?}"),
    }
    assert!(notices.last().unwrap().ends_with("again, so this failed install left nothing behind"));
}

#[test]
fn an_unconfirmed_load_is_undone_and_what_remains_is_said() {
    let mut replies = up_to_loading();
    replies.push(Reply::Done(Ok(())));
    replies.push(Reply::Job(JobQuery::NotLoaded));
    replies.push(Reply::Done(Ok(())));
    replies.push(Reply::Done(Err("busy".to_string())));
    let (outcome, notices) = run(replies);
    match &outcome {
        Installed::LoadUnverified { reason, leftover, .. } => {
            assert_eq!(reason, "launchd does not have a job by that label");
            assert_eq!(leftover.plist_remains, Some("busy".to_string()));
        }
        other => panic!("{other:?}"),
    }
    assert!(!outcome.is_installed());
    assert!(notices.last().unwrap().starts_with("WARNING: "));
}

#[test]
fn an_installation_stops_at_the_first_thing_that_fails() {
    let (outcome, _) = run(vec![Reply::Program(ProgramSeen::Nothing)]);
    assert!(matches!(outcome, Installed::ProgramUnusable { .. }));
    assert!(outcome.message().contains("there is nothing at that path"));

    let (outcome, _) = run(vec![
        Reply::Program(ProgramSeen::File),
        Reply::Plist(Ok(Some(Ok("something else".to_string())))),
    ]);
    assert!(matches!(outcome, Installed::AlreadyInstalled { identical: false, .. }));

    let (outcome, _) = run(vec![
        Reply::Program(ProgramSeen::File),
        Reply::Plist(Ok(Some(Ok(request().job.plist())))),
    ]);
    assert!(matches!(outcome, Installed::AlreadyInstalled { identical: true, .. }));

    let (outcome, _) = run(vec![
        Reply::Program(ProgramSeen::File),
        Reply::Plist(Err("denied".to_string())),
    ]);
    assert!(matches!(outcome, Installed::DirectoryUnusable { .. }));

    let mut replies = up_to_loading();
    replies.truncate(3);
    replies.push(Reply::Done(Err("denied".to_string())));
    let (outcome, _) = run(replies);
    assert!(matches!(
        outcome,
        Installed::StateDirectoryUnusable { path, .. } if path == "/base/state"
    ));

    let mut replies = up_to_loading();
    replies[4] = Reply::Done(Err("full".to_string()));
    let (outcome, _) = run(replies);
    assert!(matches!(outcome, Installed::PlistUnwritable { .. }));
}

#[test]
fn a_plist_is_removed_only_once_launchd_says_the_job_is_gone() {
    let (outcome, notices) = undo(vec![
        Answer::Job(JobQuery::Loaded(facts(Some(9)))),
        Answer::Done(Ok(())),
        Answer::Job(JobQuery::NotLoaded),
        Answer::There(Ok(true)),
        Answer::Done(Ok(())),
    ]);
    assert!(matches!(outcome, Uninstalled::Removed { was_loaded: true, .. }));
    assert!(outcome.succeeded());
    assert!(notices.contains(&format!("launchd confirms {LABEL} is unloaded")));

    let (outcome, _) = undo(vec![
        Answer::Job(JobQuery::Loaded(facts(None))),
        Answer::Done(Err("no".to_string())),
        Answer::Job(JobQuery::Loaded(facts(None))),
    ]);
    assert!(matches!(outcome, Uninstalled::StillLoaded { .. }));
    assert!(!outcome.succeeded());
    assert!(outcome.message().contains("has been left in place"));

    let (outcome, _) = undo(vec![Answer::Job(JobQuery::Undetermined("deaf".to_string()))]);
    assert!(matches!(outcome, Uninstalled::Undetermined { .. }));

    let (outcome, _) = undo(vec![Answer::Job(JobQuery::NotLoaded), Answer::There(Ok(false))]);
    assert!(matches!(outcome, Uninstalled::NothingToRemove { .. }));
    assert!(outcome.succeeded());

    let (outcome, _) = undo(vec![
        Answer::Job(JobQuery::NotLoaded),
        Answer::There(Ok(true)),
        Answer::Done(Err("busy".to_string())),
    ]);
    assert!(matches!(outcome, Uninstalled::PlistRemains { .. }));
}

#[test]
fn a_step_takes_only_its_own_kind_of_answer() {
    assert!(!Stage::Program.fits(&Reply::Done(Ok(()))));
    assert!(!Removal::Asking.fits(&Answer::There(Ok(true))));
}

#[test]
fn launchd_is_believed_before_the_state_file() {
    let launchd = ProcessAnswer::determine(&JobQuery::Loaded(facts(Some(5))), Some(6), true);
    assert_eq!(launchd, ProcessAnswer::Running { pid: 5, from: Evidence::Launchd });
    let writer = ProcessAnswer::determine(&JobQuery::NotLoaded, Some(6), true);
    assert_eq!(writer, ProcessAnswer::Running { pid: 6, from: Evidence::StateFileWriter });
    let neither = ProcessAnswer::determine(&JobQuery::Undetermined("deaf".to_string()), None, false);
    assert_eq!(
        neither,
        ProcessAnswer::Undetermined(
            "launchd could not be asked (deaf) and state.json names no writer".to_string()
        )
    );
}

#[test]
fn a_status_lists_what_could_not_be_answered() {
    let store = StateStore::new(Paths::with_base("/base"));
    let now = SystemTime { nanos: 100_000_000_000 };
    let written = SystemTime { nanos: 40_000_000_000 };
    let last = LastWrite::of(&store, Examined::Modified(written), Some(6), now);
    match &last {
        LastWrite::Age { path, age, .. } => {
            assert_eq!(path, "/base/state/state.json");
            assert_eq!(age, &Duration::from_secs(60));
        }
        other => panic!("{other:?}"),
    }
    let good = status(&request(), Ok(true), JobQuery::Loaded(facts(Some(6))), last, true);
    assert!(good.complete() && good.unanswered().is_empty());
    assert!(good.lines().len() >= 4);

    let ahead = LastWrite::of(&store, Examined::Modified(now), None, written);
    assert!(matches!(ahead, LastWrite::AheadOfTheClock { .. }));
    let unknown = LastWrite::of(&store, Examined::Failed("denied".to_string()), None, now);
    assert!(!unknown.determined());
    let bad = status(
        &request(),
        Err("denied".to_string()),
        JobQuery::Undetermined("deaf".to_string()),
        unknown,
        false,
    );
    assert!(!bad.complete());
    assert!(bad.unanswered().len() >= 3, "{:?}", bad.unanswered());
}

#[test]
fn facts_that_launchd_did_not_give_are_not_made_up() {
    let none = JobFacts { running: None, pid: None, runs: None, last_exit: None };
    let some = facts(Some(5));
    assert_ne!(describe_facts(&none), describe_facts(&some));
    assert!(describe_facts(&some).contains("5"));
}
