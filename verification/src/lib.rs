//! Stochastic simulation of nano-particle attachment kinetics.
//!
//! Each particle model is a continuous-time Markov chain: a state type
//! together with a rate-labelled transition relation.  The simulation engine
//! draws exact Gillespie steps from that relation and maintains per-particle
//! transition histories and ensemble observables.
//!
//! All rates and times are fixed-point numbers with [`fixed::SCALE`]
//! fractional resolution, so every quantity in a contract is an exact
//! integer; see [`fixed`] for the arithmetic.  Waiting times follow the
//! base-two convention `-log2(u) / rate`, quantised to ticks so that every
//! transition advances the clock by at least one tick; event selection
//! uses the first event whose cumulative rate strictly exceeds the drawn
//! threshold.  Randomness comes from per-simulator deterministic streams
//! ([`rng`]), seeded either from fresh entropy or from a caller-supplied
//! seed for reproducible runs.

use vstd::prelude::*;

pub mod fixed;
pub mod rng;
pub mod particle;
pub mod simulation;

verus! {

} // verus!
