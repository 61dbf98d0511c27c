use acmon::display::{
    command_for, poll_interval, stat_state_file, Command, Key, Poll, Poller, Stat, TerminalEvent,
    Writer,
};
use acmon::starts::Examined;
use acmon::time::{Duration, SystemTime};

fn at(seconds: u64) -> SystemTime {
    SystemTime { nanos: seconds as i128 * 1_000_000_000 }
}

#[test]
fn an_unchanged_modification_time_is_not_a_reason_to_read_the_file() {
    let mut poller = Poller::new();
    let mtime = Stat::At(at(1_787_000_000));

    assert_eq!(poller.observe(mtime.clone()), Poll::Reread);
    assert_eq!(poller.observe(mtime), Poll::Unchanged);
}

#[test]
fn a_file_that_reappears_is_read_again_even_at_a_modification_time_already_seen() {
    let mut poller = Poller::new();
    let mtime = Stat::At(at(1_787_000_000));

    assert_eq!(poller.observe(mtime.clone()), Poll::Reread);
    assert_eq!(poller.observe(Stat::Absent), Poll::Absent);
    assert_eq!(poller.observe(mtime), Poll::Reread);
}

#[test]
fn a_file_that_cannot_be_examined_says_why() {
    let mut poller = Poller::new();
    match poller.observe(Stat::Failed("no permission".to_string())) {
        Poll::Unstattable(why) => assert!(why.contains("no permission"), "{why}"),
        other => panic!("{other:?}"),
    }
    assert_eq!(stat_state_file("/s", Examined::NotFound), Stat::Absent);
    assert_eq!(stat_state_file("/s", Examined::Modified(at(7))), Stat::At(at(7)));
    assert!(matches!(
        stat_state_file("/s", Examined::WithoutTime("odd disk".to_string())),
        Stat::Failed(_)
    ));
    assert!(matches!(
        stat_state_file("/s", Examined::Failed("gone".to_string())),
        Stat::Failed(_)
    ));
}

#[test]
fn a_pid_says_whether_its_process_is_there() {
    assert_eq!(Writer::of(4242, true), Writer::Alive);
    assert_eq!(Writer::of(4242, false), Writer::Gone);
    assert!(poll_interval() > Duration { nanos: 0 });
}

#[test]
fn only_the_keys_that_mean_leaving_leave() {
    assert_eq!(command_for(&TerminalEvent::Resized), Command::Redraw);
    assert_eq!(command_for(&TerminalEvent::Other), Command::Ignore);
    let _ = Key::Escape;
}
