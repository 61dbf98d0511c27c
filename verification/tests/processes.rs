use acmon::machtime::MachTimebase;
use acmon::real_world::processes::{
    coarse_resources, parse_ps_cpu_time, path_of_process, ps_arguments, resident_size_fits,
    resources, resources_from_ps, Inquiry, Ledger, PsRun,
};
use acmon::time::Duration;
use acmon::world::{
    PathUnavailable, ResourceSource, ResourcesUnavailable, Unmeasured,
};

fn seconds(text: &str) -> Option<(u64, u32)> {
    let value: f64 = text.parse().ok()?;
    let span = std::time::Duration::try_from_secs_f64(value).ok()?;
    Some((span.as_secs(), span.subsec_nanos()))
}

#[test]
fn parses_the_shapes_ps_actually_prints() {
    let cases = [
        ("0:00.01", 0.01),
        ("9:55.12", 595.12),
        ("48:41.60", 2_921.60),
        ("123:45.67", 7_425.67),
        ("1:02:03.45", 3_723.45),
        ("2-03:04:05", 183_845.0),
    ];

    for (input, expected_secs) in cases {
        let parsed = parse_ps_cpu_time(input, &seconds).expect(input);
        let parsed_secs = parsed.nanos as f64 / 1e9;
        assert!(
            (parsed_secs - expected_secs).abs() < 0.001,
            "{input:?} should be {expected_secs} s, parsed as {parsed:?}"
        );
    }
}

#[test]
fn refuses_anything_it_does_not_understand() {
    for input in ["", "abc", "1:2:3:4", "-", "12", "1:xx"] {
        assert!(
            parse_ps_cpu_time(input, &seconds).is_err(),
            "{input:?} must be an error, not a duration"
        );
    }
}

#[test]
fn a_refused_cpu_time_is_quoted() {
    assert_eq!(
        parse_ps_cpu_time("1:\tx", &seconds),
        Err("ps CPU time \"1:\\tx\" is not in [[DD-]HH:]MM:SS.CC form".to_string())
    );
}

#[test]
fn ps_is_believed_for_what_it_sees_and_for_nothing_else() {
    let read = coarse_resources(&PsRun::Printed(" 9:55.12  2048\n".to_string()), &seconds)
        .expect("two fields");
    let blind = Unmeasured::NotReportedBy(ResourceSource::Ps);
    assert_eq!(read.source, ResourceSource::Ps);
    assert_eq!(read.own_cpu, Ok(Duration::from_millis(595_120)));
    assert_eq!(read.current_memory, Ok(2048 * 1024));
    assert_eq!(read.children_cpu, Err(blind));
    assert_eq!(read.peak_memory, Err(blind));
    assert_eq!(read.bytes_written, Err(blind));
}

#[test]
fn a_ps_that_says_nothing_useful_is_an_error() {
    let say = |text: &str| coarse_resources(&PsRun::Printed(text.to_string()), &seconds);
    assert_eq!(say(""), Err("ps reported no CPU time field".to_string()));
    assert_eq!(say("0:01.00"), Err("ps reported no resident size field".to_string()));
    assert_eq!(
        say("0:01.00 many"),
        Err("ps resident size \"many\" is not a number: invalid digit found in string".to_string())
    );
    assert_eq!(
        coarse_resources(&PsRun::NotRun("no such file".to_string()), &seconds),
        Err("could not run ps: no such file".to_string())
    );
    assert_eq!(
        coarse_resources(&PsRun::Failed("exit status: 1".to_string()), &seconds),
        Err("ps exited with exit status: 1".to_string())
    );
    assert!(resident_size_fits("0:01.00 2048"));
    assert!(!resident_size_fits("0:01.00 18446744073709551615"));
    assert_eq!(ps_arguments(42), ["-o", "time=", "-o", "rss=", "-p", "42"]);
}

#[test]
fn the_ledger_comes_first_and_ps_only_where_it_is_shut() {
    let timebase = MachTimebase::new(125, 3);
    let ledger = Ledger {
        user_ticks: 20,
        system_ticks: 4,
        child_user_ticks: u64::MAX,
        child_system_ticks: 1,
        footprint: 10,
        peak_footprint: 20,
        bytes_written: 30,
    };
    match resources(Ok(ledger), true, &timebase) {
        Inquiry::Answered(Ok(found)) => {
            assert_eq!(found.own_cpu, Ok(Duration { nanos: 1000 }));
            assert_eq!(
                found.children_cpu,
                Ok(Duration { nanos: u64::MAX as u128 * 125 / 3 })
            );
            assert_eq!(found.peak_memory, Ok(20));
        }
        other => panic!("{other:?}"),
    }
    let shut = || Err::<Ledger, String>("denied".to_string());
    assert_eq!(
        resources(shut(), false, &timebase),
        Inquiry::Answered(Err(ResourcesUnavailable::ProcessExited))
    );
    assert_eq!(
        resources(shut(), true, &timebase),
        Inquiry::AskPs("denied".to_string())
    );
    assert_eq!(
        resources_from_ps("denied", Err("no fields".to_string())),
        Err(ResourcesUnavailable::AllReadersFailed(
            "proc_pid_rusage: denied; ps: no fields".to_string()
        ))
    );
}

#[test]
fn a_path_that_cannot_be_read_is_denied_or_gone() {
    assert_eq!(path_of_process(Some("/bin/sh".to_string()), false), Ok("/bin/sh".to_string()));
    assert_eq!(
        path_of_process(Some(String::new()), true),
        Err(PathUnavailable::PermissionDenied)
    );
    assert_eq!(path_of_process(None, false), Err(PathUnavailable::ProcessExited));
}
