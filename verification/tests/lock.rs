use acmon::lock::{pid_record, recorded_pid, Attempt, LockRefusal, Predecessor, WatchLock};

#[test]
fn a_refusal_naming_a_pid_carries_it_in_the_message() {
    let refusal = LockRefusal::HeldBy {
        pid: 4242,
        path: "/tmp/acmon/watch.lock".to_string(),
    };

    let message = refusal.to_text();
    assert!(message.contains("4242"), "{message}");
    assert!(message.contains("/tmp/acmon/watch.lock"), "{message}");
    assert_eq!(refusal.holder_pid(), Some(4242));
}

#[test]
fn contents_that_are_not_a_pid_are_an_error_rather_than_an_absent_record() {
    let reason = recorded_pid("the monitor was here").expect_err("not a pid");
    assert!(
        reason.contains("not a pid"),
        "the reason must say what was wrong; got {reason}"
    );
}

#[test]
fn a_pid_that_was_recorded_reads_back() {
    for pid in [0, 1, 4242, u32::MAX] {
        assert_eq!(recorded_pid(&pid_record(pid)), Ok(Some(pid)));
    }
    assert_eq!(recorded_pid(""), Ok(None));
}

fn attempt(attempt: Attempt) -> Result<WatchLock, LockRefusal> {
    WatchLock::acquire("/s/watch.lock".to_string(), 7, attempt)
}

fn unavailable(reason: &str) -> LockRefusal {
    LockRefusal::Unavailable { path: "/s/watch.lock".to_string(), reason: reason.to_string() }
}

#[test]
fn a_lock_that_cannot_be_taken_says_what_stood_in_the_way() {
    let no_directory =
        Attempt::NoDirectory { directory: "/s".to_string(), why: "denied".to_string() };
    assert_eq!(
        attempt(no_directory).expect_err("no directory"),
        unavailable("the state directory /s could not be created: denied")
    );
    assert_eq!(
        attempt(Attempt::NoFile { why: "denied".to_string() }).expect_err("no file"),
        unavailable("the lock file could not be opened: denied")
    );
    assert_eq!(
        attempt(Attempt::NoLock { why: "bad".to_string() }).expect_err("no lock"),
        unavailable("flock failed: bad")
    );
    let full = attempt(Attempt::Unrecorded { why: "full".to_string() }).expect_err("no record");
    assert_eq!(full, unavailable("full"));
    assert_eq!(full.to_text(), "the state lock /s/watch.lock could not be taken: full");
}

#[test]
fn a_second_monitor_learns_who_holds_the_lock() {
    let held = attempt(Attempt::Busy { contents: Ok(pid_record(42)) }).expect_err("held");
    assert_eq!(held.holder_pid(), Some(42));
    let silent = attempt(Attempt::Busy { contents: Ok(" \n".to_string()) }).expect_err("held");
    assert!(silent.to_text().contains("the lock file is empty; the holder may be exiting"));
    assert_eq!(silent.holder_pid(), None);
    let odd = attempt(Attempt::Busy { contents: Err("denied".to_string()) }).expect_err("held");
    assert!(odd.to_text().contains("(denied)"), "{}", odd.to_text());
}

#[test]
fn taking_over_tells_of_the_one_before() {
    let after = |contents: Result<String, String>| {
        attempt(Attempt::Taken { contents, predecessor_runs: false }).expect("taken")
    };
    let fresh = after(Ok(String::new()));
    assert_eq!((fresh.holder_pid(), fresh.path()), (7, "/s/watch.lock"));
    assert!(fresh.took_over_from().is_none() && fresh.unreadable_record().is_none());
    assert_eq!(
        after(Ok(pid_record(42))).took_over_from(),
        Some(Predecessor { pid: 42, still_running: false })
    );
    let odd = after(Ok("x".to_string()));
    assert!(odd.took_over_from().is_none());
    assert_eq!(
        odd.unreadable_record(),
        Some("the lock file contains \"x\", which is not a pid this tool wrote")
    );
}
