use acmon::schedule::{
    resized_slice, stalest_first, tiers, Pace, Schedule, MAX_SLICE,
};
use acmon::state::Tier;
use acmon::time::Duration;

const ZERO: Duration = Duration { nanos: 0 };

#[test]
fn a_tier_that_has_never_run_is_due_however_long_the_loop_has_been_up() {
    let schedule = Schedule::new();
    for tier in tiers() {
        assert!(
            schedule.is_due(tier, ZERO),
            "{tier:?} has never run, so it is due at once"
        );
    }
}

#[test]
fn the_stalest_workspace_is_read_before_one_that_was_read_recently() {
    // Two read, one never. The never-read one first, then the older of the two.
    let age = [
        Some(Duration::from_secs(10)),
        None,
        Some(Duration::from_secs(600)),
    ];
    assert_eq!(stalest_first(&age, 3), vec![1, 2, 0]);
}

#[test]
fn a_slice_that_overran_its_budget_is_halved_and_one_well_inside_it_grows() {
    let budget = Duration::from_millis(1_000);
    assert_eq!(resized_slice(16, Duration::from_millis(1_400), budget), 8);
    // Inside the budget but not by half: leave it alone rather than hunting.
    assert_eq!(resized_slice(16, Duration::from_millis(800), budget), 16);
    assert_eq!(resized_slice(16, Duration::from_millis(500), budget), 16);
    // Under half the budget: creep up.
    assert_eq!(resized_slice(16, Duration::from_millis(499), budget), 20);
    assert_eq!(resized_slice(16, Duration::from_millis(250), budget), 20);
    assert_eq!(
        resized_slice(MAX_SLICE, ZERO, budget),
        MAX_SLICE,
        "and never past the bound, however cheap the pass looked"
    );
    // Never zero, whatever it cost. A slice of nothing never reads anything again.
    assert_eq!(resized_slice(1, Duration::from_secs(30), budget), 1);
}

#[test]
fn a_tier_waits_for_its_interval_and_no_longer() {
    let mut schedule = Schedule::new();
    for tier in tiers() {
        schedule.begun(tier, ZERO);
    }
    let wait = schedule.cadence().interval(Tier::Fast);
    assert!(!schedule.is_due(Tier::Fast, ZERO));
    assert!(schedule.is_due(Tier::Fast, wait));
    assert_eq!(schedule.next_wake(ZERO), wait);
    assert_eq!(schedule.next_wake(wait), ZERO);
}

#[test]
fn a_pace_is_adopted_once() {
    let mut schedule = Schedule::new();
    assert!(schedule.adopt(Pace::Idle));
    assert!(!schedule.adopt(Pace::Idle));
    assert_eq!(Pace::for_live_sessions(0), Pace::Idle);
    assert_eq!(Pace::for_live_sessions(1), Pace::Active);
    assert_eq!(Pace::from_name(Pace::Idle.name()), Some(Pace::Idle));
    assert_eq!(Pace::from_name("brisk"), None);
}
