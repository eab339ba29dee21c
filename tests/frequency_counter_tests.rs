use immutable_cosmic_borrow::fixed_point::{
    compute_decay_factor, scale, share, PROBABILITY_HALF, PROBABILITY_ONE,
};
use immutable_cosmic_borrow::frequency_counter::FrequencyCounter;

const MILLI: u64 = 1_000_000;

#[test]
fn new_counter_reports_half() {
    for half_life in [0, 1, 100 * MILLI, 1_000 * MILLI, u64::MAX] {
        let mut counter = FrequencyCounter::new(half_life, 1_000 * MILLI);
        assert_eq!(counter.sunray_probability(123 * MILLI), PROBABILITY_HALF);
        assert_eq!(counter.last_update(), Some(123 * MILLI));
    }
}

#[test]
fn sunrays_only_raise_the_estimate_towards_one() {
    let mut counter = FrequencyCounter::new(100 * MILLI, 1_000 * MILLI);
    let mut previous = counter.sunray_probability(0);
    for i in 0..50u64 {
        counter.update_sunray(i * 10 * MILLI);
        let p = counter.sunray_probability(i * 10 * MILLI);
        assert!(p >= previous, "estimate fell from {} to {}", previous, p);
        previous = p;
    }
    assert_eq!(previous, 999_831_656);
}

#[test]
fn symmetric_events_give_half() {
    let mut counter = FrequencyCounter::new(100 * MILLI, 1_000 * MILLI);
    for i in 0..5u64 {
        counter.update_sunray(i * 10 * MILLI);
        counter.update_asteroid(i * 10 * MILLI);
    }
    assert_eq!(counter.sunray_probability(40 * MILLI), PROBABILITY_HALF);
}

#[test]
fn instant_pause_keeps_last_update() {
    let mut counter = FrequencyCounter::new(100 * MILLI, 1_000 * MILLI);
    counter.update_sunray(5 * MILLI);
    counter.stop(20 * MILLI);
    counter.restart(20 * MILLI);
    assert_eq!(counter.last_update(), Some(5 * MILLI));
}

#[test]
fn pause_shifts_last_update_by_stopped_time() {
    let mut counter = FrequencyCounter::new(100 * MILLI, 1_000 * MILLI);
    counter.update_asteroid(5 * MILLI);
    counter.stop(20 * MILLI);
    counter.restart(70 * MILLI);
    assert_eq!(counter.last_update(), Some(55 * MILLI));
}

#[test]
fn restart_without_baseline_changes_nothing() {
    let mut counter = FrequencyCounter::new(100 * MILLI, 1_000 * MILLI);
    counter.stop(20 * MILLI);
    counter.restart(70 * MILLI);
    assert_eq!(counter.last_update(), None);
}

#[test]
fn passive_read_is_throttled() {
    let mut counter = FrequencyCounter::new(100 * MILLI, 1_000 * MILLI);
    counter.update_sunray(0);
    let p = counter.sunray_probability(0);
    assert_eq!(counter.sunray_probability(999 * MILLI), p);
    assert_eq!(counter.last_update(), Some(0));
    // Once the throttle has passed, the decay is applied, the estimate kept.
    assert_eq!(counter.sunray_probability(1_000 * MILLI), p);
    assert_eq!(counter.last_update(), Some(1_000 * MILLI));
}

#[test]
fn long_silence_forgets_everything() {
    let mut counter = FrequencyCounter::new(100 * MILLI, 1_000 * MILLI);
    counter.update_asteroid(0);
    counter.update_asteroid(0);
    assert!(counter.sunray_probability(0) < PROBABILITY_HALF);
    // After 40 half-lives both intensities have decayed to zero.
    counter.update_sunray(4_000 * MILLI);
    assert_eq!(counter.sunray_probability(4_000 * MILLI), PROBABILITY_ONE);
}

#[test]
fn decay_factor_values() {
    assert_eq!(compute_decay_factor(0, 100), 1_000_000_000);
    assert_eq!(compute_decay_factor(100, 100), 500_000_000);
    assert_eq!(compute_decay_factor(50, 100), 707_106_781);
    assert_eq!(compute_decay_factor(25, 100), 840_896_415);
    assert_eq!(compute_decay_factor(1, 100), 993_216_525);
    assert_eq!(compute_decay_factor(150, 100), 353_553_390);
    assert_eq!(compute_decay_factor(200, 100), 250_000_000);
    assert_eq!(compute_decay_factor(3_199, 100), 0);
    assert_eq!(compute_decay_factor(3_200, 100), 0);
    assert_eq!(compute_decay_factor(u64::MAX, u64::MAX), 500_000_000);
}

#[test]
fn scale_and_share_values() {
    assert_eq!(scale(1_000, 500_000_000), 500);
    assert_eq!(scale(u64::MAX, PROBABILITY_ONE as u64), u64::MAX);
    assert_eq!(scale(7, 0), 0);
    assert_eq!(share(3, 1), 750_000_000);
    assert_eq!(share(1, 2), 333_333_333);
    assert_eq!(share(0, 0), PROBABILITY_HALF);
    assert_eq!(share(0, 5), 0);
    assert_eq!(share(u64::MAX, u64::MAX), PROBABILITY_HALF);
}

#[test]
fn saturated_intensities_stay_balanced() {
    let mut counter = FrequencyCounter::new(1, 0);
    for _ in 0..40 {
        counter.update_sunray(7);
        counter.update_asteroid(7);
    }
    assert_eq!(counter.sunray_probability(7), PROBABILITY_HALF);
}
