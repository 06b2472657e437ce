use cubechance::progress::{LoadEvent, Phase, ProgressEstimator};
use cubechance::ratio::Ratio;

/// `num/den == expect_num/expect_den`, exactly.
fn ratio_is(r: Ratio, expect_num: u128, expect_den: u128) -> bool {
    (r.num as u128) * expect_den == expect_num * (r.den as u128)
}

#[test]
fn primary_tick_half_done_after_five_seconds() {
    // Cycle starts, the fetch reports 50 of 100 records after 5 seconds:
    // fraction = 0.7376 * 0.5 = 0.3688, rate = 0.3688 / 5 = 0.07376 per second.
    let mut est = ProgressEstimator::start();
    let (frac, rate) = est.observe(LoadEvent::RecordPhaseTick(50, 100), 5);
    assert!(ratio_is(frac, 3688, 10000));
    assert!(ratio_is(rate, 7376, 100000));
}

#[test]
fn secondary_tick_half_done_after_two_seconds() {
    // After the phase boundary, 10 of 20 details after 2 seconds in phase 2:
    // fraction = 0.7376 + 0.2624 * 0.5 = 0.8688.
    let mut est = ProgressEstimator::start();
    est.observe(LoadEvent::SecondaryPhaseStart, 10);
    let (frac, rate) = est.observe(LoadEvent::SecondaryPhaseTick(10, 20), 12);
    assert!(ratio_is(frac, 8688, 10000));
    // rate = 0.2624 * 0.5 / 2 = 0.0656 per second.
    assert!(ratio_is(rate, 656, 10000));
}

#[test]
fn zip_fetched_reports_zero_progress() {
    let mut est = ProgressEstimator::start();
    let (frac, rate) = est.observe(LoadEvent::ZipFetched, 0);
    assert!(ratio_is(frac, 0, 1));
    assert!(ratio_is(rate, 0, 1));
}

#[test]
fn fraction_is_monotone_within_a_cycle() {
    let mut est = ProgressEstimator::start();
    let (f1, _) = est.observe(LoadEvent::RecordPhaseTick(80, 100), 5);
    // A later, smaller tick may not pull the published fraction back down.
    let (f2, _) = est.observe(LoadEvent::RecordPhaseTick(10, 100), 6);
    assert!(f1.le_exec(&f2));
    assert!(f2.le_exec(&f1));
    // Progress again: strictly larger.
    let (f3, _) = est.observe(LoadEvent::RecordPhaseTick(90, 100), 7);
    assert!(f2.le_exec(&f3));
    assert!(!f3.le_exec(&f2));
}

#[test]
fn phase_boundary_snaps_fraction_to_w1() {
    let mut est = ProgressEstimator::start();
    est.observe(LoadEvent::RecordPhaseTick(1, 2), 1);
    let (frac, _) = est.observe(LoadEvent::SecondaryPhaseStart, 2);
    assert_eq!(est.phase, Phase::Secondary);
    assert!(ratio_is(frac, 7376, 10000));
}

#[test]
fn zero_total_tick_contributes_nothing() {
    // total == 0 is guarded: the fraction stays at the phase floor, the
    // rate is zero.
    let mut est = ProgressEstimator::start();
    let (frac, rate) = est.observe(LoadEvent::RecordPhaseTick(3, 0), 1);
    assert!(ratio_is(frac, 0, 1));
    assert!(ratio_is(rate, 0, 1));
}

#[test]
fn zero_elapsed_rate_is_zero() {
    let mut est = ProgressEstimator::start();
    let (frac, rate) = est.observe(LoadEvent::RecordPhaseTick(50, 100), 0);
    assert!(ratio_is(frac, 3688, 10000));
    assert!(ratio_is(rate, 0, 1));
}

#[test]
fn secondary_tick_before_boundary_uses_primary_weight() {
    // The phase, not the event variant, decides the weight.
    let mut est = ProgressEstimator::start();
    let (frac, _) = est.observe(LoadEvent::SecondaryPhaseTick(50, 100), 1);
    assert_eq!(est.phase, Phase::Primary);
    assert!(ratio_is(frac, 3688, 10000));
}
