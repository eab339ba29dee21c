//! The autonomous behaviour of a planet: an adaptive estimate of whether the
//! next event is a sunray or an asteroid, the decision whether to spend the
//! energy cell on an explorer's request, and the handlers that answer the
//! orchestrator's events and the explorers' requests.
//!
//! Probabilities and tolerances are fixed-point values in parts per billion,
//! and times are nanosecond readings of a monotonic clock supplied by the
//! caller. The handlers work on a model of the planet's cell and rocket slot
//! and return what to do with the real ones.
pub mod ai;
pub mod fixed_point;
pub mod frequency_counter;

pub use ai::Ai;
