use acmon::meter::{Measured, Meter, Share};
use acmon::schedule::Budgets;
use acmon::time::Duration;

const ZERO: Duration = Duration { nanos: 0 };

#[test]
fn one_cpu_sample_yields_no_duty_cycle_rather_than_a_zero_one() {
    let mut meter = Meter::default();
    meter.sampled(ZERO, ZERO);

    let why = meter.duty_cycle().expect_err("a rate needs two samples");
    assert!(why.contains("two"), "{why}");
}

#[test]
fn the_duty_cycle_is_cpu_over_the_span_of_the_samples_it_was_measured_across() {
    let mut meter = Meter::default();
    meter.sampled(ZERO, ZERO);
    meter.sampled(Duration::from_secs(60), Duration::from_millis(600));

    let share = meter.duty_cycle().expect("two samples");
    let duty = share.spent.nanos as f64 / share.span.nanos as f64;
    assert!(
        (duty - 0.01).abs() < 1e-9,
        "600 ms of CPU in 60 s is 1% of one core; got {duty}"
    );
}

#[test]
fn a_rate_over_its_budget_is_told_from_one_within_it() {
    let within = Share { spent: Duration::from_millis(10), span: Duration::from_secs(60) };
    let over = Share { spent: Duration::from_secs(59), span: Duration::from_secs(60) };
    assert!(within.within_budget());
    assert!(!over.within_budget());
}

#[test]
fn a_figure_is_there_or_a_reason_is() {
    let known = Measured::from(Ok::<u64, String>(3));
    assert_eq!((known.value, known.unavailable), (Some(3), None));
    let unknown = Measured::<u64>::from(Err("no ledger".to_string()));
    assert_eq!((unknown.value, unknown.unavailable), (None, Some("no ledger".to_string())));
}

#[test]
fn a_report_at_the_very_start_says_why_there_is_no_busy_fraction() {
    let report = Meter::default().report(ZERO, "active", &Budgets::standard());
    assert!(report.busy_fraction.value.is_none());
    assert_eq!(
        report.busy_fraction.unavailable.as_deref(),
        Some("the loop has not been running long enough to have a busy fraction yet")
    );
}
