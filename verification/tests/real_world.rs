use acmon::deliver::{Bounds, CONCURRENCY};
use acmon::detect::Detector;
use acmon::machtime::MachTimebase;
use acmon::real_world::alerts::{
    curl_arguments, notify_local, notify_remote, Followed, Posted, Waited,
};
use acmon::real_world::files::{
    namespace_activity, read_detector_config, read_notify_config, read_state, where_to_store,
    Changed, ConfigFile, Entry, FileRead, Listing,
};
use acmon::real_world::{output_width, RealWorld, Settings};
use acmon::time::{Duration, SystemTime};
use acmon::world::{ActivityUnavailable, NotifyOutcome, StateRead};

fn settings(home: Result<&str, &str>) -> Settings {
    Settings {
        state: Some("  ".to_string()),
        notify_config: Some(" /etc/notify.toml ".to_string()),
        detectors: None,
        home: home.map(str::to_string).map_err(str::to_string),
    }
}

fn world(home: Result<&str, &str>) -> RealWorld {
    RealWorld::new(7, MachTimebase::new(1, 1), settings(home))
}

fn detector(id: &str, rule: &str) -> Detector {
    Detector {
        id: id.to_string(),
        exe_contains: vec![rule.to_string()],
        exe_ends_with: vec![],
    }
}

#[test]
fn files_are_where_a_variable_says_or_under_home() {
    let world = world(Ok("/Users/someone"));
    assert_eq!(world.state_file, Ok("/Users/someone/.acmon/state.json".to_string()));
    assert_eq!(world.notify_config_file, Ok(" /etc/notify.toml ".to_string()));
    assert_eq!(world.detectors_file, Ok("/Users/someone/.acmon/detectors.toml".to_string()));
    assert_eq!(world.notify_request_budget, Duration::from_secs(10));
}

#[test]
fn without_a_home_a_variable_has_to_name_the_file() {
    let world = world(Err("environment variable not found"));
    assert_eq!(
        world.state_file,
        Err("HOME is not readable, so ACMON_STATE must name the state file explicitly: \
             environment variable not found"
            .to_string())
    );
    assert!(world.notify_config_file.is_ok());
    assert!(world.detectors_file.is_err());
}

#[test]
fn a_world_can_be_told_where_its_files_are() {
    let world = world(Ok("/h"))
        .with_state_file("/s".to_string())
        .with_notify_config("/n".to_string())
        .with_detectors("/d".to_string())
        .with_notify_request_budget(Duration::from_secs(1));
    assert_eq!(world.state_file, Ok("/s".to_string()));
    assert_eq!(world.notify_config_file, Ok("/n".to_string()));
    assert_eq!(world.detectors_file, Ok("/d".to_string()));
    assert_eq!(
        world.notify_bounds(),
        Bounds { workers: CONCURRENCY, budget: Duration::from_secs(1) }
    );
}

#[test]
fn a_terminal_says_its_width_before_anything_else_does() {
    assert_eq!(output_width(Some(80), Some("100")), 80);
    assert_eq!(output_width(Some(0), Some(" 100 ")), 100);
    assert_eq!(output_width(None, Some("0")), 120);
    assert_eq!(output_width(None, Some("70000")), 120);
    assert_eq!(output_width(None, Some("wide")), 120);
    assert_eq!(output_width(None, None), 120);
}

#[test]
fn the_latest_transcript_dates_a_name() {
    let file = |name: &str, nanos: i128| Entry::Named {
        name: name.to_string(),
        changed: Changed::At(SystemTime { nanos }),
    };
    let listed = |entries: Vec<Entry>| namespace_activity("/p", Listing::Listed(entries));
    assert_eq!(
        listed(vec![file("a.jsonl", 5), file("b.jsonl", 9), file("c.txt", 50)]),
        Ok(SystemTime { nanos: 9 })
    );
    assert_eq!(listed(vec![file("c.txt", 50)]), Err(ActivityUnavailable::NoTranscripts));
    assert_eq!(
        namespace_activity("/p", Listing::NoSuchDirectory),
        Err(ActivityUnavailable::NotRecorded)
    );
    assert_eq!(
        namespace_activity("/p", Listing::NotListed("denied".to_string())),
        Err(ActivityUnavailable::Unreadable("/p: denied".to_string()))
    );
    assert_eq!(
        listed(vec![file("a.jsonl", 5), Entry::Unreadable("odd".to_string())]),
        Err(ActivityUnavailable::Unreadable("/p: odd".to_string()))
    );
    let named = |changed: Changed| Entry::Named { name: "a.jsonl".to_string(), changed };
    assert_eq!(
        listed(vec![named(Changed::NoFacts("gone".to_string()))]),
        Err(ActivityUnavailable::Unreadable("/p/a.jsonl: gone".to_string()))
    );
    assert_eq!(
        listed(vec![named(Changed::NoTime("none".to_string()))]),
        Err(ActivityUnavailable::Unreadable(
            "/p/a.jsonl: modification time unavailable: none".to_string()
        ))
    );
}

#[test]
fn a_history_that_is_absent_is_not_one_that_is_unreadable() {
    let path = Ok("/s/state.json".to_string());
    assert_eq!(read_state(&path, FileRead::NotFound), StateRead::Absent);
    assert_eq!(
        read_state(&path, FileRead::Read("{}".to_string())),
        StateRead::Found("{}".to_string())
    );
    assert_eq!(
        read_state(&path, FileRead::Failed("denied".to_string())),
        StateRead::Unreadable("/s/state.json: denied".to_string())
    );
    assert_eq!(
        read_state(&Err("no home".to_string()), FileRead::NotFound),
        StateRead::Unreadable("no home".to_string())
    );
}

#[test]
fn a_history_is_stored_in_the_directory_of_its_file() {
    assert_eq!(
        where_to_store(&Ok("/s/state.json".to_string())),
        Ok(("/s/state.json".to_string(), "/s".to_string()))
    );
    assert_eq!(
        where_to_store(&Ok("/".to_string())),
        Err("/ has no parent directory".to_string())
    );
    assert_eq!(where_to_store(&Err("no home".to_string())), Err("no home".to_string()));
}

#[test]
fn a_configuration_that_cannot_be_used_says_so_and_reaches_nobody() {
    let path = Ok("/n".to_string());
    let nothing = || Err::<ConfigFile, String>("unused".to_string());
    let absent = read_notify_config(&path, &FileRead::NotFound, nothing());
    assert_eq!((absent.has_any(), absent.unusable), (false, None));
    let failed = read_notify_config(&path, &FileRead::Failed("denied".to_string()), nothing());
    assert_eq!(failed.unusable, Some("/n could not be read: denied".to_string()));
    let read = FileRead::Read(String::new());
    let garbled = read_notify_config(&path, &read, Err("bad key".to_string()));
    assert_eq!(
        garbled.unusable,
        Some("/n is not readable as configuration: bad key".to_string())
    );
    let usable = read_notify_config(
        &path,
        &read,
        Ok(ConfigFile {
            local_command: Some(" ".to_string()),
            remote_url: Some("http://here".to_string()),
        }),
    );
    assert_eq!(usable.local_command, None);
    assert_eq!(usable.remote_url, Some("http://here".to_string()));
}

#[test]
fn detectors_of_a_user_are_laid_over_the_others_or_refused() {
    let path = Ok("/d".to_string());
    let read = FileRead::Read(String::new());
    let embedded = || vec![detector("one", "/one")];
    let merged = read_detector_config(
        &path,
        &read,
        Ok(vec![detector("one", "/mine"), detector("two", "/two")]),
        embedded(),
    );
    assert_eq!(merged.detectors, vec![detector("one", "/mine"), detector("two", "/two")]);
    let toothless = Detector {
        id: "none".to_string(),
        exe_contains: vec![],
        exe_ends_with: vec![],
    };
    let refused = read_detector_config(&path, &read, Ok(vec![toothless]), embedded());
    assert_eq!(refused.detectors, embedded());
    assert_eq!(
        refused.unusable,
        Some(
            "/d: detector \"none\" has no matching rules — it would silently recognise nothing"
                .to_string()
        )
    );
    let garbled = read_detector_config(&path, &read, Err("line 1".to_string()), embedded());
    assert_eq!(
        garbled.unusable,
        Some("/d: could not parse detector configuration: line 1".to_string())
    );
}

#[test]
fn a_command_that_does_not_end_has_delivered_nothing() {
    let budget = Duration::from_millis(1500);
    assert_eq!(notify_local(Waited::StillRunning, Duration { nanos: 0 }, budget), Followed::Wait);
    assert_eq!(
        notify_local(Waited::StillRunning, budget, budget),
        Followed::Stop(NotifyOutcome::Failed(
            "the local command did not exit within 1.5s, so nothing can be said to have been \
             delivered"
                .to_string()
        ))
    );
    assert_eq!(
        notify_local(Waited::Succeeded, budget, budget),
        Followed::Ended(NotifyOutcome::Delivered)
    );
    assert_eq!(
        notify_local(Waited::Failed("exit status: 2".to_string()), budget, budget),
        Followed::Ended(NotifyOutcome::Failed("exited exit status: 2".to_string()))
    );
    assert_eq!(
        notify_local(Waited::NotStarted("no sh".to_string()), budget, budget),
        Followed::Ended(NotifyOutcome::Failed("could not spawn: no sh".to_string()))
    );
    assert_eq!(
        notify_local(Waited::Lost("gone".to_string()), budget, budget),
        Followed::Stop(NotifyOutcome::Failed("wait failed: gone".to_string()))
    );
}

#[test]
fn curl_is_believed_about_what_it_posted() {
    assert_eq!(notify_remote(Posted::Succeeded), NotifyOutcome::Delivered);
    assert_eq!(
        notify_remote(Posted::NotRun("no curl".to_string())),
        NotifyOutcome::Failed("could not spawn curl: no curl".to_string())
    );
    assert_eq!(
        notify_remote(Posted::Failed {
            status: "exit status: 22".to_string(),
            complaint: " 404\n".to_string(),
        }),
        NotifyOutcome::Failed("curl exited exit status: 22: 404".to_string())
    );
    assert_eq!(
        curl_arguments("http://here", "{}", "10.000"),
        [
            "--fail",
            "--silent",
            "--show-error",
            "--max-time",
            "10.000",
            "-X",
            "POST",
            "-H",
            "Content-Type: application/json",
            "--data",
            "{}",
            "http://here",
        ]
    );
}
