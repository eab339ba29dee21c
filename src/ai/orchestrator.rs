//! The responses to sunrays and to the lifecycle commands.
use super::{Ai, AiState, Reserves};
use vstd::prelude::*;

verus! {

/// What to do with the planet's state when a sunray arrives.
#[derive(Clone, Copy, PartialEq, Eq, Debug, Structural)]
pub enum SunrayAction {
    /// Charge the cell with the sunray.
    Charge,
    /// Build a rocket from the current charge, then charge the cell.
    BuildRocketThenCharge,
}

impl Reserves {
    /// A charged cell with no rocket held is banked into a rocket first.
    pub open spec fn sunray_action(self) -> SunrayAction {
        if self.cell_charged && !self.has_rocket {
            SunrayAction::BuildRocketThenCharge
        } else {
            SunrayAction::Charge
        }
    }

    /// The reserves after a sunray: the cell is charged, and a rocket is held
    /// if one was held or the old charge was banked.
    pub open spec fn after_sunray(self) -> Reserves {
        Reserves { cell_charged: true, has_rocket: self.has_rocket || self.cell_charged }
    }
}

impl AiState {
    /// The AI after a start command at `now`.
    pub open spec fn after_start(self, now: u64) -> AiState {
        AiState {
            is_ai_active: true,
            counters: match self.counters {
                Some(c) => Some(c.after_restart(now)),
                None => None,
            },
            ..self
        }
    }

    /// The AI after a stop command at `now`.
    pub open spec fn after_stop(self, now: u64) -> AiState {
        AiState {
            is_ai_active: false,
            counters: match self.counters {
                Some(c) => Some(c.after_stop(now)),
                None => None,
            },
            ..self
        }
    }
}

/// Handles a sunray at `now`. An active AI banks a charged cell into a rocket
/// when none is held, charges the cell, then records the sunray. An inactive
/// AI ignores it.
pub fn handle_sunray(ai: &mut Ai, now: u64, reserves: &mut Reserves) -> (r: Option<SunrayAction>)
    ensures
        old(ai)@.is_ai_active ==> {
            &&& r == Some(old(reserves).sunray_action())
            &&& *final(reserves) == old(reserves).after_sunray()
            &&& final(ai)@ == old(ai)@.after_counter_event(now, true)
        },
        !old(ai)@.is_ai_active ==> {
            &&& r is None
            &&& *final(reserves) == *old(reserves)
            &&& final(ai)@ == old(ai)@
        },
{
    if !ai.is_ai_active {
        return None;
    }
    let action = if reserves.cell_charged && !reserves.has_rocket {
        reserves.has_rocket = true;
        SunrayAction::BuildRocketThenCharge
    } else {
        SunrayAction::Charge
    };
    reserves.cell_charged = true;
    if let Some(counters) = &mut ai.counters {
        counters.update_sunray(now);
    }
    Some(action)
}

/// Activates the AI at `now`; its estimator skips the time spent stopped.
pub fn handle_start_ai(ai: &mut Ai, now: u64)
    ensures
        final(ai)@ == old(ai)@.after_start(now),
{
    ai.is_ai_active = true;
    if let Some(counter) = &mut ai.counters {
        counter.restart(now);
    }
}

/// Deactivates the AI at `now`, marking the moment on its estimator.
pub fn handle_stop_ai(ai: &mut Ai, now: u64)
    ensures
        final(ai)@ == old(ai)@.after_stop(now),
{
    ai.is_ai_active = false;
    if let Some(counter) = &mut ai.counters {
        counter.stop(now);
    }
}

} // verus!
