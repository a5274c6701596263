//! Modelling of particles as Markov chains with an enumerable state space.

use vstd::prelude::*;

use crate::particle::Particle;

verus! {

/// Particles whose state space can be enumerated exhaustively.
///
/// The enumeration is used by analysis tooling to build rate matrices; the
/// simulation engine never calls it.
pub trait MarkovChain: Particle {
    /// The exact sequence of states the enumeration produces.
    spec fn spec_states(&self) -> Seq<Self::State>;

    /// Enumeration of all possible states for the particle.
    fn states(&self) -> (r: Vec<Self::State>)
        requires
            self.wf(),
        ensures
            r@ == self.spec_states(),
    ;
}

} // verus!
