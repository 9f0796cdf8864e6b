use hitprob::ProgressReporter;
use hitprob::Regime;
use hitprob::update_regime;

#[test]
fn progress_reports_every_five_percent() {
    let mut reporter = ProgressReporter::new(100);
    assert_eq!(reporter.update(3), None);
    assert_eq!(reporter.update(5), Some(5));
    assert_eq!(reporter.update(7), None);
    assert_eq!(reporter.update(9), None);
    assert_eq!(reporter.update(10), Some(10));
    assert_eq!(reporter.update(42), Some(42));
}

#[test]
fn progress_always_reports_completion() {
    let mut reporter = ProgressReporter::new(100);
    assert_eq!(reporter.update(96), Some(96));
    // advanced by less than the threshold, but the run is complete
    assert_eq!(reporter.update(100), Some(100));
}

#[test]
fn progress_with_small_total_reports_every_update() {
    // a total under twenty makes the threshold zero
    let mut reporter = ProgressReporter::new(10);
    assert_eq!(reporter.update(1), Some(10));
    assert_eq!(reporter.update(2), Some(20));
    assert_eq!(reporter.update(10), Some(100));
}

#[test]
fn progress_percent_rounds_down() {
    let mut reporter = ProgressReporter::new(3);
    assert_eq!(reporter.update(1), Some(33));
    assert_eq!(reporter.update(2), Some(66));
    assert_eq!(reporter.update(3), Some(100));
}

#[test]
fn regime_flips_only_on_transition() {
    assert_eq!(update_regime(Regime::Bull, false), Regime::Bull);
    assert_eq!(update_regime(Regime::Bear, false), Regime::Bear);
    assert_eq!(update_regime(Regime::Bull, true), Regime::Bear);
    assert_eq!(update_regime(Regime::Bear, true), Regime::Bull);
}
