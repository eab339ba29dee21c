//! The responses to explorers' requests.
//!
//! The requests are generic in what names a basic resource (`B`) and what
//! carries a combination request with its two inputs (`C`): the handlers only
//! decide, and hand these values back untouched.
use super::decide::{generate_basic_resource, generate_complex_resource, ResourceKind};
use super::{Ai, AiState, Reserves};
use crate::fixed_point::PROBABILITY_ONE;
use vstd::prelude::*;

verus! {

/// An explorer's request.
#[derive(Debug)]
pub enum ExplorerRequest<B, C> {
    SupportedResources,
    SupportedCombinations,
    GenerateResource(B),
    CombineResource(C),
    AvailableEnergyCells,
}

/// How to answer an explorer's request.
#[derive(Debug)]
pub enum ExplorerAction<B, C> {
    /// List the basic resources the planet can generate.
    ReportSupportedResources,
    /// List the complex resources the planet can combine.
    ReportSupportedCombinations,
    /// Generate this basic resource from the cell and send it (or none, if
    /// generation fails).
    Generate(B),
    /// Answer that no resource was generated.
    NoResource,
    /// Combine the two inputs of this request using the cell, and send the
    /// product or the failure.
    Combine(C),
    /// Answer with a failure: the reason, and the request's two inputs given back.
    RefuseCombination(String, C),
    /// Report this many charged cells.
    AvailableEnergyCells(u32),
}

/// The reason given when a combination is refused to save the energy cell.
pub open spec fn refusal_reason() -> Seq<char> {
    "Keeping the energy cell"@
}

/// Decides a request to generate `to_generate` at `now`: `Some(to_generate)`
/// to go ahead, `None` to answer that no resource was produced.
pub fn generate_resource<B>(ai: &mut Ai, now: u64, reserves: Reserves, to_generate: B) -> (r:
    Option<B>)
    ensures
        final(ai)@ == old(ai)@.after_decision(now, reserves.cell_charged),
        exists|sample: u32|
            sample < PROBABILITY_ONE && if old(ai)@.grants(
                ResourceKind::Basic,
                now,
                reserves.cell_charged,
                reserves.has_rocket,
                sample,
            ) {
                r == Some(to_generate)
            } else {
                r is None
            },
{
    if generate_basic_resource(ai, now, reserves.cell_charged, reserves.has_rocket) {
        Some(to_generate)
    } else {
        None
    }
}

/// Decides a combination request at `now`: `Ok(request)` to go ahead, or
/// `Err` with the refusal reason and the request, whose inputs go back to the
/// explorer unconsumed.
pub fn combine_resource<C>(ai: &mut Ai, now: u64, reserves: Reserves, request: C) -> (r: Result<
    C,
    (String, C),
>)
    ensures
        final(ai)@ == old(ai)@.after_decision(now, reserves.cell_charged),
        exists|sample: u32|
            sample < PROBABILITY_ONE && if old(ai)@.grants(
                ResourceKind::Complex,
                now,
                reserves.cell_charged,
                reserves.has_rocket,
                sample,
            ) {
                r == Ok::<C, (String, C)>(request)
            } else {
                (r matches Err((reason, returned)) && reason@ == refusal_reason() && returned
                    == request)
            },
{
    if generate_complex_resource(ai, now, reserves.cell_charged, reserves.has_rocket) {
        Ok(request)
    } else {
        Err(("Keeping the energy cell".to_owned(), request))
    }
}

/// The number of charged cells: the planet has one cell.
pub open spec fn charged_cells(reserves: Reserves) -> u32 {
    if reserves.cell_charged {
        1
    } else {
        0
    }
}

/// Whether `action` is how an active AI answers `msg` at `now`, with `sample`
/// as random mode's draw.
pub open spec fn answers<B, C>(
    ai: AiState,
    now: u64,
    reserves: Reserves,
    msg: ExplorerRequest<B, C>,
    sample: u32,
    action: ExplorerAction<B, C>,
) -> bool {
    match msg {
        ExplorerRequest::SupportedResources => action is ReportSupportedResources,
        ExplorerRequest::SupportedCombinations => action is ReportSupportedCombinations,
        ExplorerRequest::GenerateResource(b) => if ai.grants(
            ResourceKind::Basic,
            now,
            reserves.cell_charged,
            reserves.has_rocket,
            sample,
        ) {
            action == ExplorerAction::<B, C>::Generate(b)
        } else {
            action is NoResource
        },
        ExplorerRequest::CombineResource(c) => if ai.grants(
            ResourceKind::Complex,
            now,
            reserves.cell_charged,
            reserves.has_rocket,
            sample,
        ) {
            action == ExplorerAction::<B, C>::Combine(c)
        } else {
            (action matches ExplorerAction::RefuseCombination(reason, returned) && reason@
                == refusal_reason() && returned == c)
        },
        ExplorerRequest::AvailableEnergyCells => action == ExplorerAction::<
            B,
            C,
        >::AvailableEnergyCells(charged_cells(reserves)),
    }
}

/// Whether `msg` asks for a decision that reads the estimator.
pub open spec fn needs_decision<B, C>(msg: ExplorerRequest<B, C>) -> bool {
    msg is GenerateResource || msg is CombineResource
}

/// Answers an explorer's request at `now`. An inactive AI drops it.
pub fn handle_message<B, C>(
    ai: &mut Ai,
    now: u64,
    reserves: Reserves,
    msg: ExplorerRequest<B, C>,
) -> (r: Option<ExplorerAction<B, C>>)
    ensures
        !old(ai)@.is_ai_active ==> r is None && final(ai)@ == old(ai)@,
        old(ai)@.is_ai_active ==> {
            &&& final(ai)@ == if needs_decision(msg) {
                old(ai)@.after_decision(now, reserves.cell_charged)
            } else {
                old(ai)@
            }
            &&& exists|sample: u32|
                sample < PROBABILITY_ONE && r is Some && #[trigger] answers(
                    old(ai)@,
                    now,
                    reserves,
                    msg,
                    sample,
                    r->Some_0,
                )
        },
{
    if !ai.is_ai_active {
        return None;
    }
    match msg {
        ExplorerRequest::SupportedResources => {
            let r = Some(ExplorerAction::ReportSupportedResources);
            assert(answers(old(ai)@, now, reserves, msg, 0, r->Some_0));
            r
        },
        ExplorerRequest::SupportedCombinations => {
            let r = Some(ExplorerAction::ReportSupportedCombinations);
            assert(answers(old(ai)@, now, reserves, msg, 0, r->Some_0));
            r
        },
        ExplorerRequest::GenerateResource(b) => {
            let ghost requested = b;
            let decided = generate_resource(ai, now, reserves, b);
            let r = match decided {
                Some(b) => Some(ExplorerAction::Generate(b)),
                None => Some(ExplorerAction::NoResource),
            };
            proof {
                let sample = choose|sample: u32|
                    sample < PROBABILITY_ONE && if old(ai)@.grants(
                        ResourceKind::Basic,
                        now,
                        reserves.cell_charged,
                        reserves.has_rocket,
                        sample,
                    ) {
                        decided == Some(requested)
                    } else {
                        decided is None
                    };
                assert(answers(old(ai)@, now, reserves, msg, sample, r->Some_0));
            }
            r
        },
        ExplorerRequest::CombineResource(c) => {
            let ghost requested = c;
            let decided = combine_resource(ai, now, reserves, c);
            let r = match decided {
                Ok(c) => Some(ExplorerAction::Combine(c)),
                Err((reason, c)) => Some(ExplorerAction::RefuseCombination(reason, c)),
            };
            proof {
                let sample = choose|sample: u32|
                    sample < PROBABILITY_ONE && if old(ai)@.grants(
                        ResourceKind::Complex,
                        now,
                        reserves.cell_charged,
                        reserves.has_rocket,
                        sample,
                    ) {
                        decided == Ok::<C, (String, C)>(requested)
                    } else {
                        (decided matches Err((reason, returned)) && reason@ == refusal_reason()
                            && returned == requested)
                    };
                assert(answers(old(ai)@, now, reserves, msg, sample, r->Some_0));
            }
            r
        },
        ExplorerRequest::AvailableEnergyCells => {
            let cells: u32 = if reserves.cell_charged {
                1
            } else {
                0
            };
            let r = Some(ExplorerAction::AvailableEnergyCells(cells));
            assert(answers(old(ai)@, now, reserves, msg, 0, r->Some_0));
            r
        },
    }
}

} // verus!
