use immutable_cosmic_borrow::ai::asteroid::{handle_asteroid, RocketSource};
use immutable_cosmic_borrow::ai::explorer::{
    combine_resource, generate_resource, handle_message, ExplorerAction, ExplorerRequest,
};
use immutable_cosmic_borrow::ai::orchestrator::{handle_start_ai, handle_sunray, SunrayAction};
use immutable_cosmic_borrow::ai::Reserves;
use immutable_cosmic_borrow::Ai;

const MILLI: u64 = 1_000_000;

fn running_ai(random_mode: bool, coefficient: i64) -> Ai {
    let mut ai = Ai::new(random_mode, coefficient, coefficient, 100 * MILLI, 0);
    handle_start_ai(&mut ai, 0);
    ai
}

#[test]
fn held_rocket_meets_first_asteroid_only() {
    let mut ai = running_ai(false, 0);
    let mut reserves = Reserves { cell_charged: false, has_rocket: true };
    assert_eq!(handle_asteroid(&mut ai, MILLI, &mut reserves), Some(RocketSource::Stored));
    assert!(!reserves.has_rocket);
    assert_eq!(handle_asteroid(&mut ai, MILLI, &mut reserves), None);
    assert!(!reserves.has_rocket);
}

#[test]
fn sunray_on_charged_cell_banks_then_recharges() {
    let mut ai = running_ai(false, 0);
    let mut reserves = Reserves { cell_charged: true, has_rocket: false };
    assert_eq!(
        handle_sunray(&mut ai, MILLI, &mut reserves),
        Some(SunrayAction::BuildRocketThenCharge)
    );
    assert_eq!(reserves, Reserves { cell_charged: true, has_rocket: true });
}

#[test]
fn refused_combination_returns_inputs() {
    // Tolerance zero in adaptive mode with a fresh estimate: refused.
    let mut ai = running_ai(false, 0);
    let reserves = Reserves { cell_charged: true, has_rocket: false };
    let request = (String::from("hydrogen"), String::from("oxygen"));
    match combine_resource(&mut ai, MILLI, reserves, request.clone()) {
        Err((reason, returned)) => {
            assert_eq!(reason, "Keeping the energy cell");
            assert_eq!(returned, request);
        }
        Ok(_) => panic!("combination should have been refused"),
    }
    let response = handle_message::<u8, (u8, u8)>(
        &mut ai,
        MILLI,
        reserves,
        ExplorerRequest::CombineResource((3, 4)),
    );
    match response {
        Some(ExplorerAction::RefuseCombination(reason, (a, b))) => {
            assert_eq!(reason, "Keeping the energy cell");
            assert_eq!((a, b), (3, 4));
        }
        other => panic!("expected a refusal, got {:?}", other),
    }
}

#[test]
fn uncharged_cell_refuses_combination() {
    let mut ai = running_ai(true, 0);
    let reserves = Reserves { cell_charged: false, has_rocket: true };
    assert_eq!(
        combine_resource(&mut ai, MILLI, reserves, 9u8),
        Err((String::from("Keeping the energy cell"), 9u8))
    );
}

#[test]
fn granted_combination_passes_request_on() {
    let mut ai = running_ai(false, 1_000_000_000);
    let reserves = Reserves { cell_charged: true, has_rocket: false };
    assert_eq!(combine_resource(&mut ai, MILLI, reserves, 9u8), Ok(9u8));
    let response = handle_message::<u8, u8>(&mut ai, MILLI, reserves, ExplorerRequest::CombineResource(5));
    assert!(matches!(response, Some(ExplorerAction::Combine(5))));
}

#[test]
fn generation_decision() {
    let mut ai = running_ai(false, 1_000_000_000);
    let charged = Reserves { cell_charged: true, has_rocket: false };
    let empty = Reserves { cell_charged: false, has_rocket: false };
    assert_eq!(generate_resource(&mut ai, MILLI, charged, 'H'), Some('H'));
    assert_eq!(generate_resource(&mut ai, MILLI, empty, 'H'), None);
    let response = handle_message::<char, u8>(&mut ai, MILLI, empty, ExplorerRequest::GenerateResource('O'));
    assert!(matches!(response, Some(ExplorerAction::NoResource)));
}
