//! A particle with a single ligand that can attach to a receptor.

use vstd::prelude::*;

use crate::fixed::spec_fp_mul;
use crate::fixed::fp_mul;
use crate::particle::Attach;
use crate::particle::Event;
use crate::particle::Particle;
use crate::simulation::markov::MarkovChain;

verus! {

/// The state of a [`MonoLigand`] particle: attached to the host or not.
#[derive(Clone, Copy, Debug, Default, PartialEq, Eq, Structural)]
pub struct MonoLigandState {
    /// Whether the single ligand is bound to a receptor.
    pub is_attached: bool,
}

impl Attach for MonoLigandState {
    open spec fn spec_is_attached(&self) -> bool {
        self.is_attached
    }

    fn is_attached(&self) -> bool {
        self.is_attached
    }
}

impl MonoLigand {
    /// Law: every state offers exactly one event, so a simulation of this
    /// model never fails to advance.
    pub proof fn lemma_events_nonempty(&self, s: MonoLigandState)
        ensures
            self.spec_events(s).len() == 1,
    {
    }
}

impl MonoLigandState {
    /// The state with the opposite attachment reading.
    pub fn toggle(&self) -> (r: Self)
        ensures
            r.is_attached == !self.is_attached,
    {
        MonoLigandState { is_attached: !self.is_attached }
    }
}

/// A particle that can attach to a receptor through one ligand.
///
/// The binding strength scales how likely an attachment is, and the
/// receptor density scales how many receptors are available to attach to.
/// All parameters are fixed-point numbers (see [`crate::fixed`]).
#[derive(Clone, Copy, Debug, Default, PartialEq, Eq, Structural)]
pub struct MonoLigand {
    /// Density of receptors relative to the number of particles.
    pub receptor_density: u64,

    /// The strength the particle binds with.
    pub binding_strength: u64,

    /// Rate at which the particle binds.
    pub on_rate: u64,

    /// Rate at which the particle unbinds.
    pub off_rate: u64,
}

impl Particle for MonoLigand {
    type State = MonoLigandState;

    open spec fn wf(&self) -> bool {
        true
    }

    open spec fn valid_state(&self, s: MonoLigandState) -> bool {
        true
    }

    open spec fn spec_initial(&self) -> MonoLigandState {
        MonoLigandState { is_attached: false }
    }

    open spec fn spec_events(&self, s: MonoLigandState) -> Seq<Event<MonoLigandState>> {
        if s.is_attached {
            seq![
                Event { rate: self.off_rate, target: MonoLigandState { is_attached: false } },
            ]
        } else {
            seq![
                Event {
                    rate: spec_fp_mul(
                        spec_fp_mul(self.on_rate, self.receptor_density),
                        self.binding_strength,
                    ),
                    target: MonoLigandState { is_attached: true },
                },
            ]
        }
    }

    fn new_state(&self) -> (s: MonoLigandState) {
        MonoLigandState { is_attached: false }
    }

    fn events(&self, state: &MonoLigandState) -> (evs: Vec<Event<MonoLigandState>>) {
        let mut evs: Vec<Event<MonoLigandState>> = Vec::new();
        if state.is_attached {
            evs.push(Event { rate: self.off_rate, target: state.toggle() });
        } else {
            let rate = fp_mul(fp_mul(self.on_rate, self.receptor_density), self.binding_strength);
            evs.push(Event { rate, target: state.toggle() });
        }
        proof {
            assert(evs@ =~= self.spec_events(*state));
        }
        evs
    }

    fn duplicate(&self) -> (r: Self) {
        *self
    }

    proof fn lemma_initial_valid(&self) {
    }

    proof fn lemma_events_valid(&self, s: MonoLigandState) {
    }
}

impl MarkovChain for MonoLigand {
    open spec fn spec_states(&self) -> Seq<MonoLigandState> {
        seq![
            MonoLigandState { is_attached: true },
            MonoLigandState { is_attached: false },
        ]
    }

    fn states(&self) -> (r: Vec<MonoLigandState>) {
        let mut r: Vec<MonoLigandState> = Vec::new();
        r.push(MonoLigandState { is_attached: true });
        r.push(MonoLigandState { is_attached: false });
        proof {
            assert(r@ =~= self.spec_states());
        }
        r
    }
}

} // verus!
