use acmon::book::Book;
use acmon::collect::attribution::{is_inside, work_running_in};
use acmon::collect::workspaces::{unique_candidates, unique_workspaces};
use acmon::collect::LivenessUnknown;
use acmon::detect::{
    accept_user_detectors, find, merge_detectors, parse_user_detectors, Detector,
};
use acmon::liveness::{classify, read_seconds, Method, Observation, State, Thresholds};
use acmon::machtime::{MachTicks, MachTimebase};
use acmon::order::{arrange, stable_order};
use acmon::render::panel::Loss;
use acmon::time::{Duration, SystemTime};
use acmon::vcs::{classify as state_of, Unreadable, VcsFacts, WorkspaceState};
use acmon::world::ProcessRecord;

fn detector(id: &str, contains: &[&str], ends: &[&str]) -> Detector {
    Detector {
        id: id.to_string(),
        exe_contains: contains.iter().map(|one| one.to_string()).collect(),
        exe_ends_with: ends.iter().map(|one| one.to_string()).collect(),
    }
}

fn facts(entries: usize) -> Result<VcsFacts, Unreadable> {
    Ok(VcsFacts { root: "/w".to_string(), uncommitted_entries: entries, linked_worktree: false })
}

#[test]
fn a_workspace_is_clean_driven_stranded_or_unknown() {
    assert_eq!(state_of(&facts(0), false), WorkspaceState::Clean);
    assert_eq!(state_of(&facts(0), true), WorkspaceState::Clean);
    assert_eq!(state_of(&facts(2), true), WorkspaceState::DirtyDriven);
    assert_eq!(state_of(&facts(2), false), WorkspaceState::DirtyStranded);
    let unknown = state_of(&Err(Unreadable::TimedOut), true);
    assert_eq!(unknown, WorkspaceState::Unknown(Unreadable::TimedOut));
    assert!(unknown.at_risk() && WorkspaceState::DirtyStranded.at_risk());
    assert!(!WorkspaceState::Clean.at_risk() && !WorkspaceState::DirtyDriven.at_risk());
}

fn seen(silence: Option<u64>, resident: bool, working: bool, trusted: bool) -> (State, Method) {
    let verdict = classify(
        &Observation {
            silence: silence.map(Duration::from_secs),
            process_resident: resident,
            work_running_in_workspace: working,
            snapshot_trustworthy: trusted,
        },
        &Thresholds::default(),
    );
    (verdict.state, verdict.method)
}

#[test]
fn liveness_follows_what_was_seen() {
    assert_eq!(seen(None, true, false, true), (State::Unknown, Method::TranscriptActivityUnknown));
    assert_eq!(seen(Some(5), false, false, true), (State::Active, Method::TranscriptChangedRecently));
    assert_eq!(
        seen(Some(3600), true, false, true),
        (State::Waiting, Method::ProcessResidentButSilent)
    );
    assert_eq!(seen(Some(3600), false, true, true), (State::Waiting, Method::WorkRunningInWorkspace));
    assert_eq!(
        seen(Some(3600), false, false, true),
        (State::Unknown, Method::ProcessAbsentBeforeStallThreshold)
    );
    assert_eq!(
        seen(Some(90_000), false, false, true),
        (State::Stalled, Method::NoProcessAndSilencePastStall)
    );
    assert_eq!(
        seen(Some(90_000), false, false, false),
        (State::Unknown, Method::SnapshotCannotEstablishAbsence)
    );
}

#[test]
fn a_setting_is_a_number_of_seconds() {
    let usual = Duration::from_secs(9);
    assert_eq!(read_seconds(None, "X", usual), Ok(usual));
    assert_eq!(read_seconds(Some(" 12\n"), "X", usual), Ok(Duration::from_secs(12)));
    assert_eq!(
        read_seconds(Some("a\"b"), "X", usual).err().unwrap(),
        "X is \"a\\\"b\", which is not a number of seconds: invalid digit found in string"
    );
    assert_eq!(
        read_seconds(Some(""), "X", usual).err().unwrap(),
        "X is \"\", which is not a number of seconds: cannot parse integer from empty string"
    );
    assert_eq!(
        read_seconds(Some("18446744073709551616"), "X", usual).err().unwrap(),
        "X is \"18446744073709551616\", which is not a number of seconds: number too large to fit \
         in target type"
    );
}

#[test]
fn a_stall_shorter_than_a_silence_is_refused() {
    assert!(Thresholds::from_values(Some("60"), Some("120"), None).is_ok());
    assert!(Thresholds::from_values(Some("120"), Some("60"), None).is_err());
    assert!(Thresholds::from_values(None, None, Some("soon")).is_err());
}

#[test]
fn the_first_detector_that_matches_recognises_a_program() {
    let detectors =
        vec![detector("one", &["/one/"], &[]), detector("two", &[], &["/bin/two", "/one/x"])];
    assert_eq!(find(&detectors, "/one/x").unwrap().id, "one");
    assert_eq!(find(&detectors, "/opt/bin/two").unwrap().id, "two");
    assert!(find(&detectors, "/opt/bin/two/three").is_none());
}

#[test]
fn a_detector_without_a_rule_is_refused() {
    assert_eq!(
        accept_user_detectors(vec![detector("good", &["g"], &[]), detector("bad", &[], &[])])
            .err()
            .unwrap(),
        "detector \"bad\" has no matching rules — it would silently recognise nothing"
    );
    assert_eq!(
        parse_user_detectors(Err("expected `=`".to_string())).err().unwrap(),
        "could not parse detector configuration: expected `=`"
    );
    assert_eq!(parse_user_detectors(Ok(vec![detector("good", &["g"], &[])])).unwrap().len(), 1);
}

#[test]
fn a_users_detector_replaces_the_one_of_its_name() {
    let merged = merge_detectors(
        vec![detector("a", &["1"], &[]), detector("b", &["2"], &[])],
        vec![detector("b", &["3"], &[]), detector("c", &["4"], &[])],
    );
    let names: Vec<&str> = merged.iter().map(|one| one.id.as_str()).collect();
    assert_eq!(names, vec!["a", "b", "c"]);
    assert_eq!(merged[1].exe_contains, vec!["3"]);
}

#[test]
fn paths_that_differ_only_in_case_are_one_workspace() {
    let kept = unique_workspaces(vec![
        ("/Work/Ä".to_string(), false),
        ("/alpha".to_string(), true),
        ("/work/ä".to_string(), true),
    ]);
    assert_eq!(kept.len(), 2, "{kept:?}");
    let candidates =
        unique_candidates(vec!["/b".to_string(), "/a".to_string(), "/b".to_string()]);
    assert_eq!(candidates, vec!["/b".to_string(), "/a".to_string()]);
}

#[test]
fn a_directory_is_inside_itself_and_its_parents_only() {
    assert!(is_inside("/work", "/work"));
    assert!(is_inside("/work/deep/down", "/work"));
    assert!(!is_inside("/workshop", "/work"));
    assert!(!is_inside("/", "/work"));
}

#[test]
fn work_in_a_workspace_is_somebody_elses() {
    let record = |pid: i32| ProcessRecord {
        pid,
        exe_path: Ok("/bin/make".to_string()),
        cwd: Ok("/work/sub".to_string()),
        filed_under: "-work-sub".to_string(),
    };
    assert!(work_running_in("/work", Some(1), &vec![record(2)]));
    assert!(!work_running_in("/work", Some(2), &vec![record(2)]));
    assert!(work_running_in("/work", None, &vec![record(2)]));
    assert!(!work_running_in("/other", None, &vec![record(2)]));
}

#[test]
fn an_order_keeps_equals_as_they_stood() {
    let keys = vec![Loss { entries: 2 }, Loss { entries: 5 }, Loss { entries: 2 }, Loss { entries: 5 }];
    let order = stable_order(&keys);
    let first = order.iter().position(|at| *at == 0).unwrap();
    let third = order.iter().position(|at| *at == 2).unwrap();
    assert!(first < third);
    let placed = arrange(vec!["a", "b", "c", "d"], &order);
    assert_eq!(placed, vec!["b", "d", "a", "c"]);
}

#[test]
fn a_book_holds_one_value_under_each_name() {
    let mut book: Book<i32, &str> = Book::new();
    assert!(book.is_empty());
    book.insert(3, "old");
    book.insert(4, "other");
    book.insert(3, "new");
    assert_eq!(book.len(), 2);
    assert_eq!(book.get(&3), Some(&"new"));
    assert!(book.get(&5).is_none());
}

#[test]
fn ticks_become_nanoseconds_by_the_timebase() {
    let apple = MachTimebase::new(125, 3);
    assert_eq!(apple.duration(MachTicks(24)), Duration { nanos: 1000 });
    assert_eq!(apple.duration(MachTicks(1)), Duration { nanos: 41 });
}

#[test]
fn a_span_is_printed_as_the_standard_library_prints_it() {
    assert_eq!(Duration::from_millis(1500).to_debug(), "1.5s");
    assert_eq!(Duration { nanos: 3_200 }.to_debug(), "3.2µs");
    assert_eq!(Duration::from_millis(1250).to_tenths(), "1.2");
    let early = SystemTime { nanos: 5 };
    assert!(early.duration_since(SystemTime { nanos: 9 }).is_none());
}

#[test]
fn only_a_missing_transcript_store_is_structural() {
    assert!(LivenessUnknown::NoTranscriptStore { cli: "x".to_string() }.is_structural());
    assert!(!LivenessUnknown::TooSoonToTell.is_structural());
}
