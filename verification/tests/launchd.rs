use acmon::launchd::install::{usable_program, ProgramSeen};
use acmon::launchd::report::describe_duration;
use acmon::launchd::{
    escape, launch_agents_dir_from_values, parse_print, JobQuery, Ran, SystemLaunchctl, LAUNCHCTL,
    LAUNCH_AGENTS_VARIABLE,
};
use acmon::time::Duration;

#[test]
fn a_launchctl_override_never_describes_itself_as_launchd() {
    let real = SystemLaunchctl::from_values(None, 501);
    assert!(real.override_in_use().is_none());
    assert!(real.describes_itself_as().contains(LAUNCHCTL));

    let fake = SystemLaunchctl::from_values(Some("/usr/bin/false"), 501);
    assert_eq!(fake.override_in_use(), Some("/usr/bin/false"));
    let described = fake.describes_itself_as();
    assert!(described.contains("NOT launchd"), "{described}");
    assert!(described.contains("/usr/bin/false"), "{described}");
}

#[test]
fn the_launch_agents_directory_falls_back_to_home_and_fails_without_one() {
    assert_eq!(
        launch_agents_dir_from_values(None, Some("/Users/someone")).expect("home is enough"),
        "/Users/someone/Library/LaunchAgents"
    );
    assert_eq!(
        launch_agents_dir_from_values(Some("/tmp/agents"), Some("/Users/someone"))
            .expect("explicit wins"),
        "/tmp/agents"
    );
    let reason = launch_agents_dir_from_values(None, None).expect_err("nothing to go on");
    assert!(reason.contains(LAUNCH_AGENTS_VARIABLE), "{reason}");
}

#[test]
fn a_relative_program_is_refused_before_anything_is_written() {
    let reason =
        usable_program("target/debug/amon", &ProgramSeen::File).expect_err("relative");
    assert!(reason.contains("absolute"), "{reason}");
}

#[test]
fn an_age_is_never_rounded_down_to_nothing() {
    assert_eq!(describe_duration(Duration::from_millis(1500)), "1s");
    assert_eq!(describe_duration(Duration::from_secs(61)), "1m 1s");
    assert_eq!(describe_duration(Duration::from_secs(3700)), "1h 1m");
    assert_eq!(describe_duration(Duration::from_secs(100_000)), "1d 3h");
}

#[test]
fn a_span_of_less_than_a_second_is_not_nothing() {
    assert_eq!(describe_duration(Duration { nanos: 0 }), "0s");
    assert_eq!(describe_duration(Duration { nanos: 1 }), "less than 1s");
    assert_eq!(describe_duration(Duration::from_millis(999)), "less than 1s");
    assert_eq!(describe_duration(Duration::from_millis(1_000)), "1s");
}

#[test]
fn a_program_has_to_be_a_file_that_is_there() {
    assert_eq!(usable_program("/usr/local/bin/amon", &ProgramSeen::File), Ok(()));
    for seen in [
        ProgramSeen::NotAFile,
        ProgramSeen::Nothing,
        ProgramSeen::Unchecked("no permission".to_string()),
    ] {
        assert!(usable_program("/usr/local/bin/amon", &seen).is_err(), "{seen:?}");
    }
}

#[test]
fn markup_does_not_survive_escaping() {
    let escaped = escape("a<b>&\"c\"");
    assert!(!escaped.contains('<') && !escaped.contains('>') && !escaped.contains('"'));
    assert!(escaped.starts_with("a&lt;b&gt;&amp;"), "{escaped}");
    assert_eq!(escape("plain"), "plain");
}

#[test]
fn launchd_is_read_for_what_it_prints() {
    let facts = parse_print("gui/501/x = {\n\tstate = running\n\tpid = 4242\n\truns = 3\n}\n");
    assert_eq!(facts.running, Some(true));
    assert_eq!(facts.pid, Some(4242));
    assert_eq!(facts.runs, Some(3));
    assert_eq!(facts.last_exit, None);
}

#[test]
fn a_launchctl_that_does_not_run_leaves_the_job_undetermined() {
    let control = SystemLaunchctl::from_values(None, 501);
    match control.query("x", Ran::Failed("no such file".to_string())) {
        JobQuery::Undetermined(why) => assert!(why.contains("no such file"), "{why}"),
        other => panic!("{other:?}"),
    }
}
