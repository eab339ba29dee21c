//! The response to an asteroid.
use super::{Ai, Reserves};
use vstd::prelude::*;

verus! {

/// Where the rocket launched against an asteroid comes from.
#[derive(Clone, Copy, PartialEq, Eq, Debug, Structural)]
pub enum RocketSource {
    /// The rocket already held.
    Stored,
    /// A rocket built from the charged cell, then launched.
    Built,
}

impl Reserves {
    /// The rocket launched against an asteroid, if any can be had.
    pub open spec fn asteroid_defense(self) -> Option<RocketSource> {
        if self.has_rocket {
            Some(RocketSource::Stored)
        } else if self.cell_charged {
            Some(RocketSource::Built)
        } else {
            None
        }
    }

    /// The reserves after an asteroid: no rocket is left, and the cell is
    /// spent unless a stored rocket was launched.
    pub open spec fn after_asteroid(self) -> Reserves {
        Reserves { cell_charged: self.cell_charged && self.has_rocket, has_rocket: false }
    }
}

/// Handles an asteroid at `now`. An active AI records it, then launches the
/// stored rocket, or else builds one from the charged cell and launches it;
/// `None` means the planet has no defense. An inactive AI ignores it.
pub fn handle_asteroid(ai: &mut Ai, now: u64, reserves: &mut Reserves) -> (r: Option<
    RocketSource,
>)
    ensures
        old(ai)@.is_ai_active ==> {
            &&& r == old(reserves).asteroid_defense()
            &&& *final(reserves) == old(reserves).after_asteroid()
            &&& final(ai)@ == old(ai)@.after_counter_event(now, false)
        },
        !old(ai)@.is_ai_active ==> {
            &&& r is None
            &&& *final(reserves) == *old(reserves)
            &&& final(ai)@ == old(ai)@
        },
{
    if !ai.is_ai_active {
        return None;
    }
    if let Some(counters) = &mut ai.counters {
        counters.update_asteroid(now);
    }
    if reserves.has_rocket {
        reserves.has_rocket = false;
        Some(RocketSource::Stored)
    } else if reserves.cell_charged {
        // The cell's charge goes into a rocket, which is launched at once.
        reserves.cell_charged = false;
        Some(RocketSource::Built)
    } else {
        None
    }
}

} // verus!
