use immutable_cosmic_borrow::Ai;

const SECOND: u64 = 1_000_000_000;

/// A coefficient in the parts per billion that `Ai::new` takes.
fn coefficient(c: f32) -> i64 {
    (f64::from(c) * 1e9).round() as i64
}

/// Test that AI coefficients within the valid range [0.0, 1.0] are preserved
#[test]
fn planet_ai_valid_coefficient_creation() {
    let planet_ai_min = Ai::new(true, coefficient(0.0), coefficient(0.0), SECOND, SECOND);
    let planet_ai_max = Ai::new(false, coefficient(1.0), coefficient(1.0), SECOND, SECOND);
    let planet_ai_mid = Ai::new(true, coefficient(0.5), coefficient(0.7), SECOND, SECOND);

    assert_eq!(
        planet_ai_min.basic_gen_coeff(),
        0,
        "Basic resource coefficient at minimum should be 0.0"
    );
    assert_eq!(
        planet_ai_min.complex_gen_coeff(),
        0,
        "Complex resource coefficient at minimum should be 0.0"
    );
    assert_eq!(
        planet_ai_max.basic_gen_coeff(),
        1_000_000_000,
        "Basic resource coefficient at maximum should be 1.0"
    );
    assert_eq!(
        planet_ai_max.complex_gen_coeff(),
        1_000_000_000,
        "Complex resource coefficient at maximum should be 1.0"
    );
    assert_eq!(
        i64::from(planet_ai_mid.basic_gen_coeff()),
        coefficient(0.5),
        "Basic resource coefficient in range should be preserved"
    );
    assert_eq!(
        i64::from(planet_ai_mid.complex_gen_coeff()),
        coefficient(0.7),
        "Complex resource coefficient in range should be preserved"
    );
}

/// Test that AI coefficients are correctly clamped to the valid range [0.0, 1.0]
#[test]
fn planet_ai_wrong_coefficient_creation() {
    let test_cases = [
        ((-0.7, 0.0), (0.0, 0.0)),
        ((7.9, 0.0), (1.0, 0.0)),
        ((0.7, -0.6), (0.7, 0.0)),
        ((0.7, 3.5), (0.7, 1.0)),
        ((0.7, 0.6), (0.7, 0.6)),
        ((0.7, 0.6), (0.7, 0.6)),
    ];

    for ((basic_in, complex_in), (basic_out, complex_out)) in test_cases {
        let ai = Ai::new(true, coefficient(basic_in), coefficient(complex_in), SECOND, SECOND);

        assert_eq!(
            i64::from(ai.basic_gen_coeff()),
            coefficient(basic_out),
            "Basic resource coefficient {} should be clamped to {}",
            basic_in,
            basic_out
        );
        assert_eq!(
            i64::from(ai.complex_gen_coeff()),
            coefficient(complex_out),
            "Complex resource coefficient {} should be clamped to {}",
            complex_in,
            complex_out
        );
    }
}

#[test]
fn new_ai_starts_inactive_with_estimator() {
    let ai = Ai::new(false, 300_000_000, 400_000_000, SECOND, SECOND / 10);
    assert!(!ai.is_ai_active());
    assert!(!ai.random_mode());
    let mut ai = ai;
    assert!(ai.counters_mut().is_some());
}

#[test]
fn coefficient_extremes_clamp() {
    let ai = Ai::new(true, i64::MIN, i64::MAX, SECOND, SECOND);
    assert_eq!(ai.basic_gen_coeff(), 0);
    assert_eq!(ai.complex_gen_coeff(), 1_000_000_000);
    let ai = Ai::with_counters(true, 1_000_000_001, -1, None);
    assert_eq!(ai.basic_gen_coeff(), 1_000_000_000);
    assert_eq!(ai.complex_gen_coeff(), 0);
}
