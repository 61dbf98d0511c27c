use acmon::lock::Predecessor;
use acmon::starts::{
    decide, downtime_from, first_launch, history, record_lines, short_run, DecodedLine, Downtime,
    History, LastStateWrite, LaunchLog, PreviousExit, StartRecord, Uptime,
};
use acmon::state::{Paths, StateStore};
use acmon::time::{Duration, SystemTime};

#[test]
fn an_unclean_exit_is_never_reported_as_clean_and_never_as_absent() {
    let exit = PreviousExit::Unclean {
        pid: 4242,
        still_running: false,
    };
    assert_eq!(exit.label(), "unclean");
    assert_eq!(exit.clean(), Some(false));
    assert!(exit.describe().contains("4242"), "{}", exit.describe());
}

#[test]
fn an_absent_previous_exit_is_not_a_boolean_at_all() {
    assert_eq!(PreviousExit::Absent.clean(), None);
    assert_eq!(PreviousExit::Unknown("no idea".to_string()).clean(), None);
}

#[test]
fn a_downtime_that_cannot_be_measured_carries_a_reason_instead_of_a_zero() {
    for downtime in [
        Downtime::NoPreviousWrite,
        Downtime::LastWriteAheadOfLaunch(Duration::from_secs(5)),
        Downtime::Unreadable("the disk said no".to_string()),
    ] {
        let seconds = downtime.seconds();
        assert_eq!(seconds.value, None, "{downtime:?}");
        assert!(seconds.unavailable.is_some(), "{downtime:?}");
    }
}

#[test]
fn an_unknown_run_length_is_not_a_short_run() {
    assert_eq!(Uptime::NoPreviousLaunch.was_short(), None);
    assert_eq!(Uptime::Unknown("who knows".to_string()).was_short(), None);
    assert_eq!(Uptime::Ran(Duration::from_secs(1)).was_short(), Some(true));
    let twice = Duration { nanos: short_run().nanos * 2 };
    assert_eq!(Uptime::Ran(twice).was_short(), Some(false));
}

#[test]
fn only_a_write_before_the_launch_gives_a_downtime() {
    let launch = SystemTime { nanos: 10_000_000_000 };
    let earlier = LastStateWrite::At(SystemTime { nanos: 4_000_000_000 });
    let later = LastStateWrite::At(SystemTime { nanos: 12_000_000_000 });
    assert_eq!(downtime_from(launch, &earlier), Downtime::Since(Duration::from_secs(6)));
    assert_eq!(
        downtime_from(launch, &later),
        Downtime::LastWriteAheadOfLaunch(Duration::from_secs(2))
    );
    assert_eq!(downtime_from(launch, &LastStateWrite::Never), Downtime::NoPreviousWrite);
    assert_eq!(
        downtime_from(launch, &LastStateWrite::Unreadable("no".to_string())),
        Downtime::Unreadable(
            "the last state write could not be established, so the downtime cannot be measured: no"
                .to_string()
        )
    );
}

fn store() -> StateStore {
    StateStore::new(Paths::with_base("/base"))
}

fn after(seconds: i128) -> SystemTime {
    SystemTime { nanos: seconds * 1_000_000_000 }
}

/// Launches that each follow a run of one second.
fn restarted(times: i128) -> Vec<StartRecord> {
    let mut records: Vec<StartRecord> = vec![first_launch(after(0), 1).record];
    for time in 1..times {
        let told = History::Recorded { launches: time as u64, recent: records.clone() };
        records.push(decide(
            after(10 * time),
            1,
            &LastStateWrite::At(after(10 * time - 9)),
            Some(&Predecessor { pid: 1, still_running: false }),
            None,
            &told,
        ));
    }
    records
}

#[test]
fn a_first_launch_follows_nothing() {
    let record = first_launch(after(0), 12).record;
    assert_eq!(record.launches.value, Some(1));
    assert_eq!(record.previous_exit, "absent");
    assert_eq!(record.started_at, "1970-01-01T00:00:00Z");
    assert!(record.downtime_secs.value.is_none());
    assert!(!record.is_cycling());
}

#[test]
fn a_monitor_that_keeps_dying_is_cycling() {
    let records = restarted(4);
    assert!(!records[2].is_cycling());
    assert_eq!(records[2].previous_uptime_secs.value, Some(Duration::from_secs(1)));
    assert_eq!((records[3].launches_considered, records[3].short_runs), (4, 3));
    assert_eq!(records[3].unclean_exits, 3);
    assert!(records[3].is_cycling());
    assert!(records[3]
        .cycling
        .as_deref()
        .unwrap()
        .starts_with("3 of the last 4 launches followed a run shorter than "));
}

#[test]
fn how_the_last_run_ended_is_known_or_said_not_to_be() {
    let exit = |dead: Option<&Predecessor>, unread: Option<&str>, told: &History| {
        decide(after(9), 1, &LastStateWrite::At(after(1)), dead, unread, told).previous_exit
    };
    let recorded = History::Recorded { launches: 1, recent: restarted(1) };
    assert_eq!(exit(None, None, &recorded), "clean");
    assert_eq!(exit(Some(&Predecessor { pid: 3, still_running: true }), None, &recorded), "unclean");
    assert_eq!(exit(None, Some("garbled"), &recorded), "unknown");
    assert_eq!(exit(None, None, &History::Unreadable("torn".to_string())), "unknown");
    assert_eq!(exit(None, None, &History::NothingRecorded), "unknown");
}

#[test]
fn every_launch_on_record_is_counted_and_a_torn_line_spoils_the_record() {
    let lines = record_lines("one\n\n  \ntwo\n");
    let numbers: Vec<usize> = lines.iter().map(|line| line.number).collect();
    assert_eq!(numbers, vec![1, 4]);
    let all: Vec<DecodedLine> = restarted(7)
        .into_iter()
        .enumerate()
        .map(|(at, record)| DecodedLine { number: at + 1, record: Ok(record) })
        .collect();
    let told = history(&store(), LaunchLog::Lines(all));
    assert_eq!(told.launches().value, Some(7));
    assert_eq!(told.last().unwrap().started_at, "1970-01-01T00:01:00Z");
    assert!(told.determined());

    let torn = vec![DecodedLine { number: 3, record: Err("cut off".to_string()) }];
    match history(&store(), LaunchLog::Lines(torn)) {
        History::Unreadable(why) => {
            assert!(why.contains("line 3") && why.contains("cut off"), "{why}")
        }
        _ => panic!("a torn line"),
    }
    assert!(matches!(history(&store(), LaunchLog::Absent), History::NothingRecorded));
}
