use immutable_cosmic_borrow::ai::asteroid::{handle_asteroid, RocketSource};
use immutable_cosmic_borrow::ai::orchestrator::{handle_start_ai, handle_sunray, SunrayAction};
use immutable_cosmic_borrow::ai::Reserves;
use immutable_cosmic_borrow::Ai;

const MILLI: u64 = 1_000_000;

/// The AI of the test planet: random mode, both tolerances zero.
fn test_planet_ai() -> Ai {
    Ai::new(true, 0, 0, 100 * MILLI, 1_000 * MILLI)
}

#[test]
fn test_handle_asteroid() {
    let mut ai = test_planet_ai();
    let mut reserves = Reserves { cell_charged: false, has_rocket: false };

    // The orchestrator starts the planet.
    handle_start_ai(&mut ai, 0);

    // Two sunrays: the second banks the first one's charge into a rocket.
    assert_eq!(
        handle_sunray(&mut ai, 50 * MILLI, &mut reserves),
        Some(SunrayAction::Charge),
        "Expected SunrayAck but got a different message"
    );
    assert_eq!(
        handle_sunray(&mut ai, 100 * MILLI, &mut reserves),
        Some(SunrayAction::BuildRocketThenCharge),
        "Expected SunrayAck but got a different message"
    );

    // The first asteroid meets the stored rocket.
    let rocket = handle_asteroid(&mut ai, 150 * MILLI, &mut reserves);
    assert!(rocket.is_some(), "Expected Rocket but got None, planet would be destroyed");

    // The second one meets a rocket built from the cell.
    let rocket = handle_asteroid(&mut ai, 200 * MILLI, &mut reserves);
    assert!(rocket.is_some(), "Expected Rocket but got None, planet would be destroyed");

    // Nothing is left for the third.
    let rocket = handle_asteroid(&mut ai, 250 * MILLI, &mut reserves);
    assert!(rocket.is_none(), "Expected None but got Rocket, but planet did not have a rocket");
}

#[test]
fn asteroid_launches_stored_rocket_then_none() {
    let mut ai = test_planet_ai();
    handle_start_ai(&mut ai, 0);
    let mut reserves = Reserves { cell_charged: false, has_rocket: true };
    assert_eq!(handle_asteroid(&mut ai, MILLI, &mut reserves), Some(RocketSource::Stored));
    assert_eq!(reserves, Reserves { cell_charged: false, has_rocket: false });
    assert_eq!(handle_asteroid(&mut ai, MILLI, &mut reserves), None);
    assert_eq!(reserves, Reserves { cell_charged: false, has_rocket: false });
}

#[test]
fn asteroid_keeps_charge_when_rocket_is_stored() {
    let mut ai = test_planet_ai();
    handle_start_ai(&mut ai, 0);
    let mut reserves = Reserves { cell_charged: true, has_rocket: true };
    assert_eq!(handle_asteroid(&mut ai, MILLI, &mut reserves), Some(RocketSource::Stored));
    assert_eq!(reserves, Reserves { cell_charged: true, has_rocket: false });
    assert_eq!(handle_asteroid(&mut ai, 2 * MILLI, &mut reserves), Some(RocketSource::Built));
    assert_eq!(reserves, Reserves { cell_charged: false, has_rocket: false });
}

#[test]
fn inactive_ai_ignores_asteroid() {
    let mut ai = test_planet_ai();
    let mut reserves = Reserves { cell_charged: true, has_rocket: true };
    assert_eq!(handle_asteroid(&mut ai, MILLI, &mut reserves), None);
    assert_eq!(reserves, Reserves { cell_charged: true, has_rocket: true });
}

#[test]
fn asteroid_lowers_the_estimate() {
    let mut ai = Ai::new(false, 0, 0, 100 * MILLI, 0);
    handle_start_ai(&mut ai, 0);
    let mut reserves = Reserves { cell_charged: false, has_rocket: false };
    handle_asteroid(&mut ai, 0, &mut reserves);
    let counter = ai.counters_mut().as_mut().unwrap();
    let p = counter.sunray_probability(0);
    assert!(p < 500_000_000);
}
