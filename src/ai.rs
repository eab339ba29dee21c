//! The planet's AI: whether it is active, how eager it is to spend its energy
//! cell, and the estimator it consults.
pub mod asteroid;
pub mod decide;
pub mod explorer;
pub mod orchestrator;

use crate::fixed_point::PROBABILITY_ONE;
use crate::frequency_counter::{CounterState, FrequencyCounter};
use vstd::prelude::*;

verus! {

/// What an `Ai` holds.
pub struct AiState {
    pub is_ai_active: bool,
    pub random_mode: bool,
    /// Tolerance for basic resource requests, in parts per billion.
    pub basic_gen_coeff: u32,
    /// Tolerance for complex resource requests, in parts per billion.
    pub complex_gen_coeff: u32,
    pub counters: Option<CounterState>,
}

/// The view of an optional counter.
pub open spec fn counters_view(c: Option<FrequencyCounter>) -> Option<CounterState> {
    match c {
        Some(counter) => Some(counter@),
        None => None,
    }
}

/// A coefficient in parts per billion, clamped to `[0, 1]`.
pub open spec fn clamp_coefficient(c: i64) -> u32 {
    if c < 0 {
        0
    } else if c > PROBABILITY_ONE {
        PROBABILITY_ONE
    } else {
        c as u32
    }
}

impl AiState {
    pub open spec fn wf(self) -> bool {
        &&& self.basic_gen_coeff <= PROBABILITY_ONE
        &&& self.complex_gen_coeff <= PROBABILITY_ONE
        &&& (self.counters matches Some(c) ==> c.wf())
    }

    /// The AI after its estimator (if any) records a sunray (`is_sunray`) or
    /// an asteroid at `now`.
    pub open spec fn after_counter_event(self, now: u64, is_sunray: bool) -> AiState {
        match self.counters {
            Some(c) => AiState { counters: Some(c.after_event(now, is_sunray)), ..self },
            None => self,
        }
    }
}

/// The planet's single energy cell and its rocket slot, as the handlers see
/// them.
#[derive(Clone, Copy, PartialEq, Eq, Debug, Structural)]
pub struct Reserves {
    pub cell_charged: bool,
    pub has_rocket: bool,
}

fn clamp_to_unit(c: i64) -> (r: u32)
    ensures
        r == clamp_coefficient(c),
{
    if c < 0 {
        0
    } else if c > PROBABILITY_ONE as i64 {
        PROBABILITY_ONE
    } else {
        c as u32
    }
}

/// The planet's AI. It starts inactive.
pub struct Ai {
    is_ai_active: bool,
    random_mode: bool,
    basic_gen_coeff: u32,
    complex_gen_coeff: u32,
    counters: Option<FrequencyCounter>,
}

impl View for Ai {
    type V = AiState;

    closed spec fn view(&self) -> AiState {
        AiState {
            is_ai_active: self.is_ai_active,
            random_mode: self.random_mode,
            basic_gen_coeff: self.basic_gen_coeff,
            complex_gen_coeff: self.complex_gen_coeff,
            counters: counters_view(self.counters),
        }
    }
}

impl Ai {
    /// An inactive AI with an estimator of the given half-life and throttle
    /// (nanoseconds). The coefficients are in parts per billion and are
    /// clamped to `[0, 1]`.
    pub fn new(
        random_mode: bool,
        basic_gen_coeff: i64,
        complex_gen_coeff: i64,
        half_life: u64,
        min_time_constant: u64,
    ) -> (r: Ai)
        ensures
            r@ == (AiState {
                is_ai_active: false,
                random_mode,
                basic_gen_coeff: clamp_coefficient(basic_gen_coeff),
                complex_gen_coeff: clamp_coefficient(complex_gen_coeff),
                counters: Some(CounterState::initial(half_life, min_time_constant)),
            }),
            r@.wf(),
    {
        Ai::with_counters(
            random_mode,
            basic_gen_coeff,
            complex_gen_coeff,
            Some(FrequencyCounter::new(half_life, min_time_constant)),
        )
    }

    /// An inactive AI that consults `counters`, or, without one, refuses every
    /// request in adaptive mode.
    pub fn with_counters(
        random_mode: bool,
        basic_gen_coeff: i64,
        complex_gen_coeff: i64,
        counters: Option<FrequencyCounter>,
    ) -> (r: Ai)
        ensures
            r@ == (AiState {
                is_ai_active: false,
                random_mode,
                basic_gen_coeff: clamp_coefficient(basic_gen_coeff),
                complex_gen_coeff: clamp_coefficient(complex_gen_coeff),
                counters: counters_view(counters),
            }),
    {
        Ai {
            is_ai_active: false,
            random_mode,
            basic_gen_coeff: clamp_to_unit(basic_gen_coeff),
            complex_gen_coeff: clamp_to_unit(complex_gen_coeff),
            counters,
        }
    }

    /// Whether the AI currently reacts to events and requests.
    pub fn is_ai_active(&self) -> (r: bool)
        ensures
            r == self@.is_ai_active,
    {
        self.is_ai_active
    }

    /// The estimator, for reading or updating it in place.
    pub fn counters_mut(&mut self) -> (r: &mut Option<FrequencyCounter>)
        ensures
            counters_view(*r) == old(self)@.counters,
            final(self)@ == (AiState { counters: counters_view(*final(r)), ..old(self)@ }),
    {
        &mut self.counters
    }

    /// Whether decisions draw a random sample instead of consulting the estimator.
    pub fn random_mode(&self) -> (r: bool)
        ensures
            r == self@.random_mode,
    {
        self.random_mode
    }

    /// The tolerance for basic resource requests, in parts per billion.
    pub fn basic_gen_coeff(&self) -> (r: u32)
        ensures
            r == self@.basic_gen_coeff,
    {
        self.basic_gen_coeff
    }

    /// The tolerance for complex resource requests, in parts per billion.
    pub fn complex_gen_coeff(&self) -> (r: u32)
        ensures
            r == self@.complex_gen_coeff,
    {
        self.complex_gen_coeff
    }
}

} // verus!
