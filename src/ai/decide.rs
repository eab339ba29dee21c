//! Whether to spend the charged energy cell on a resource request.
//!
//! In random mode a uniform sample from `[0, 1)` must exceed the tolerance.
//! In adaptive mode the estimated risk that an asteroid comes before the next
//! sunray must be within the tolerance; with a rocket in reserve, the risk is
//! that of two asteroids in a row.
use super::{Ai, AiState};
use crate::fixed_point::PROBABILITY_ONE;
use vstd::prelude::*;

verus! {

/// The kind of resource a request asks for.
#[derive(Clone, Copy, PartialEq, Eq, Debug, Structural)]
pub enum ResourceKind {
    Basic,
    Complex,
}

/// Whether the risk of running out of defense, given the estimate `p_sunray`
/// that the next event is a sunray, is within `threshold` (all in parts per
/// billion).
pub open spec fn risk_accepted(p_sunray: u32, threshold: u32, has_rocket: bool) -> bool {
    let p_asteroid = PROBABILITY_ONE - p_sunray;
    if has_rocket {
        p_asteroid * p_asteroid <= threshold * PROBABILITY_ONE
    } else {
        p_asteroid <= threshold
    }
}

impl AiState {
    /// The tolerance configured for `kind`.
    pub open spec fn threshold(self, kind: ResourceKind) -> u32 {
        match kind {
            ResourceKind::Basic => self.basic_gen_coeff,
            ResourceKind::Complex => self.complex_gen_coeff,
        }
    }

    /// The AI after deciding at `now`: an adaptive decision on a charged cell
    /// reads the estimator, which may decay it.
    pub open spec fn after_decision(self, now: u64, cell_charged: bool) -> AiState {
        if cell_charged && !self.random_mode {
            match self.counters {
                Some(c) => AiState { counters: Some(c.decayed(now, false)), ..self },
                None => self,
            }
        } else {
            self
        }
    }

    /// Whether a request of `kind` at `now` is granted; `sample` is the uniform
    /// draw from `[0, 1)` that random mode compares with the tolerance.
    pub open spec fn grants(
        self,
        kind: ResourceKind,
        now: u64,
        cell_charged: bool,
        has_rocket: bool,
        sample: u32,
    ) -> bool {
        if !cell_charged {
            false
        } else if self.random_mode {
            sample > self.threshold(kind)
        } else {
            match self.counters {
                Some(c) => risk_accepted(
                    c.decayed(now, false).sunray_probability,
                    self.threshold(kind),
                    has_rocket,
                ),
                None => false,
            }
        }
    }
}

/// Computes `risk_accepted`.
pub fn accepts_risk(p_sunray: u32, threshold: u32, has_rocket: bool) -> (r: bool)
    requires
        p_sunray <= PROBABILITY_ONE,
    ensures
        r == risk_accepted(p_sunray, threshold, has_rocket),
{
    let p_asteroid: u64 = (PROBABILITY_ONE - p_sunray) as u64;
    if has_rocket {
        proof {
            vstd::arithmetic::mul::lemma_mul_upper_bound(
                p_asteroid as int,
                PROBABILITY_ONE as int,
                p_asteroid as int,
                PROBABILITY_ONE as int,
            );
            vstd::arithmetic::mul::lemma_mul_upper_bound(
                threshold as int,
                u32::MAX as int,
                PROBABILITY_ONE as int,
                PROBABILITY_ONE as int,
            );
        }
        p_asteroid * p_asteroid <= (threshold as u64) * (PROBABILITY_ONE as u64)
    } else {
        p_asteroid <= threshold as u64
    }
}

/// Relies on `rand::Rng::gen_range` over `rand::thread_rng()`: a value drawn
/// from `[0, bound)`; the call panics on an empty range.
#[verifier::external_body]
fn uniform_below(bound: u32) -> (r: u32)
    requires
        bound > 0,
    ensures
        r < bound,
{
    rand::Rng::gen_range(&mut rand::thread_rng(), 0..bound)
}

/// Decides a request of `kind` at `now`, with `sample` as random mode's draw.
pub fn decide_with_sample(
    ai: &mut Ai,
    kind: ResourceKind,
    now: u64,
    cell_charged: bool,
    has_rocket: bool,
    sample: u32,
) -> (r: bool)
    ensures
        r == old(ai)@.grants(kind, now, cell_charged, has_rocket, sample),
        final(ai)@ == old(ai)@.after_decision(now, cell_charged),
{
    if !cell_charged {
        return false;
    }
    let threshold: u32 = match kind {
        ResourceKind::Basic => ai.basic_gen_coeff,
        ResourceKind::Complex => ai.complex_gen_coeff,
    };
    if ai.random_mode {
        sample > threshold
    } else if let Some(counters) = &mut ai.counters {
        let p_sunray: u32 = counters.sunray_probability(now);
        accepts_risk(p_sunray, threshold, has_rocket)
    } else {
        false
    }
}

/// Decides a request of `kind` at `now`, drawing the sample in random mode.
pub fn should_produce(
    ai: &mut Ai,
    kind: ResourceKind,
    now: u64,
    cell_charged: bool,
    has_rocket: bool,
) -> (r: bool)
    ensures
        final(ai)@ == old(ai)@.after_decision(now, cell_charged),
        exists|sample: u32|
            sample < PROBABILITY_ONE && r == old(ai)@.grants(
                kind,
                now,
                cell_charged,
                has_rocket,
                sample,
            ),
{
    let sample: u32 = if cell_charged && ai.random_mode {
        uniform_below(PROBABILITY_ONE)
    } else {
        0
    };
    decide_with_sample(ai, kind, now, cell_charged, has_rocket, sample)
}

/// Whether to spend the cell on a basic resource request at `now`.
pub fn generate_basic_resource(ai: &mut Ai, now: u64, cell_charged: bool, has_rocket: bool) -> (r:
    bool)
    ensures
        final(ai)@ == old(ai)@.after_decision(now, cell_charged),
        exists|sample: u32|
            sample < PROBABILITY_ONE && r == old(ai)@.grants(
                ResourceKind::Basic,
                now,
                cell_charged,
                has_rocket,
                sample,
            ),
{
    should_produce(ai, ResourceKind::Basic, now, cell_charged, has_rocket)
}

/// Whether to spend the cell on a complex resource request at `now`.
pub fn generate_complex_resource(
    ai: &mut Ai,
    now: u64,
    cell_charged: bool,
    has_rocket: bool,
) -> (r: bool)
    ensures
        final(ai)@ == old(ai)@.after_decision(now, cell_charged),
        exists|sample: u32|
            sample < PROBABILITY_ONE && r == old(ai)@.grants(
                ResourceKind::Complex,
                now,
                cell_charged,
                has_rocket,
                sample,
            ),
{
    should_produce(ai, ResourceKind::Complex, now, cell_charged, has_rocket)
}

/// Without a charged cell no request is granted, in either mode, whatever the
/// tolerance, the estimate or the sample.
pub proof fn lemma_uncharged_cell_never_produces(
    ai: AiState,
    kind: ResourceKind,
    now: u64,
    has_rocket: bool,
    sample: u32,
)
    ensures
        !ai.grants(kind, now, false, has_rocket, sample),
{
}

/// In adaptive mode a rocket in reserve only widens what is granted: the
/// squared risk is at most the plain risk, so whatever is granted without a
/// rocket is granted with one.
pub proof fn lemma_rocket_only_widens(
    ai: AiState,
    kind: ResourceKind,
    now: u64,
    cell_charged: bool,
    sample: u32,
)
    requires
        ai.wf(),
        !ai.random_mode,
    ensures
        ai.grants(kind, now, cell_charged, false, sample) ==> ai.grants(
            kind,
            now,
            cell_charged,
            true,
            sample,
        ),
{
    if let Some(c) = ai.counters {
        let p = PROBABILITY_ONE - c.decayed(now, false).sunray_probability;
        let t = ai.threshold(kind) as int;
        assert(0 <= p <= PROBABILITY_ONE);
        if p <= t {
            assert(p * p <= t * PROBABILITY_ONE) by (nonlinear_arith)
                requires
                    0 <= p <= PROBABILITY_ONE,
                    p <= t,
            ;
        }
    }
}

/// In adaptive mode with a tolerance of zero, a request is granted only when
/// the estimated risk of an asteroid is exactly zero.
pub proof fn lemma_zero_tolerance_needs_certainty(
    ai: AiState,
    kind: ResourceKind,
    now: u64,
    cell_charged: bool,
    has_rocket: bool,
    sample: u32,
)
    requires
        ai.wf(),
        !ai.random_mode,
        ai.threshold(kind) == 0,
        ai.grants(kind, now, cell_charged, has_rocket, sample),
    ensures
        ai.counters matches Some(c) && c.decayed(now, false).sunray_probability == PROBABILITY_ONE,
{
    let c = ai.counters->Some_0;
    let p = PROBABILITY_ONE - c.decayed(now, false).sunray_probability;
    if has_rocket {
        assert(p == 0) by (nonlinear_arith)
            requires
                p * p <= 0,
        ;
    }
}

} // verus!
