//! A particle with many ligands, each able to attach and detach from the
//! host, with per-occupancy rate tables.

use vstd::prelude::*;

use crate::fixed::SCALE;
use crate::fixed::spec_fp_mul;
use crate::fixed::fp_mul;
use crate::particle::Attach;
use crate::particle::ConstructionError;
use crate::particle::Event;
use crate::particle::Particle;
use crate::particle::spec_matches;
use crate::simulation::markov::MarkovChain;

verus! {

/// The state of a [`MultiLigand`] particle: how many of its ligands are
/// bound.
///
/// A state is valid for a model when `attached_ligands <= total_ligands`
/// and `total_ligands` agrees with the model's rate tables.
#[derive(Clone, Copy, Debug, Default, PartialEq, Eq, Structural)]
pub struct MultiLigandState {
    /// The number of ligands the particle has in total.
    pub total_ligands: u16,

    /// The number of ligands currently bound to a receptor.
    pub attached_ligands: u16,
}

impl Attach for MultiLigandState {
    open spec fn spec_is_attached(&self) -> bool {
        self.attached_ligands > 0
    }

    fn is_attached(&self) -> bool {
        self.attached_ligands > 0
    }
}

impl MultiLigandState {
    /// The state with one more ligand bound.
    pub fn bind(&self) -> (r: Self)
        requires
            self.attached_ligands < u16::MAX,
        ensures
            r.attached_ligands == self.attached_ligands + 1,
            r.total_ligands == self.total_ligands,
    {
        MultiLigandState { attached_ligands: self.attached_ligands + 1, ..*self }
    }

    /// The state with one less ligand bound.
    pub fn unbind(&self) -> (r: Self)
        requires
            self.attached_ligands >= 1,
        ensures
            r.attached_ligands == self.attached_ligands - 1,
            r.total_ligands == self.total_ligands,
    {
        MultiLigandState { attached_ligands: self.attached_ligands - 1, ..*self }
    }
}

/// A particle with many ligands, where each one can attach and detach from
/// the host.
///
/// The rate of the next binding or unbinding is looked up in a table
/// indexed by the current occupancy, so the two tables must have the same
/// length; that length is the number of ligands.  All rates are fixed-point
/// numbers (see [`crate::fixed`]).
#[derive(Clone, Debug, Default)]
pub struct MultiLigand {
    /// The density of receptors available to bind to.
    ///
    /// The value one corresponds to one receptor per ligand.
    pub receptor_density: u64,

    /// The binding strength of the particle.  It makes all transitions
    /// occur more often.
    pub binding_strength: u64,

    /// The rates for binding, indexed by the current occupancy.
    pub on_rates: Vec<u64>,

    /// The rates for unbinding, indexed by the occupancy reached.
    pub off_rates: Vec<u64>,
}

impl MultiLigand {
    /// The number of ligands: the common length of the rate tables.
    pub open spec fn spec_total_ligands(&self) -> u16 {
        self.on_rates@.len() as u16
    }

    /// The number of ligands the modelled particle has.
    pub fn total_ligands(&self) -> (r: u16)
        requires
            self.wf(),
        ensures
            r == self.spec_total_ligands(),
    {
        self.on_rates.len() as u16
    }

    /// Law: with at least one ligand, every valid state offers at least
    /// one event; only the ligand-free model has an event-less state.
    pub proof fn lemma_events_nonempty(&self, s: MultiLigandState)
        requires
            self.wf(),
            self.valid_state(s),
            self.spec_total_ligands() > 0,
        ensures
            self.spec_events(s).len() >= 1,
    {
    }

    /// Builds a model after validating that the rate tables have the same
    /// length and fit the occupancy counter.
    pub fn new(
        receptor_density: u64,
        binding_strength: u64,
        on_rates: Vec<u64>,
        off_rates: Vec<u64>,
    ) -> (r: Result<Self, ConstructionError>)
        ensures
            on_rates@.len() != off_rates@.len() ==> r == Err::<Self, _>(
                ConstructionError::MismatchedRateTables,
            ),
            on_rates@.len() == off_rates@.len() && on_rates@.len() > u16::MAX ==> r == Err::<
                Self,
                _,
            >(ConstructionError::TooManyLigands),
            on_rates@.len() == off_rates@.len() && on_rates@.len() <= u16::MAX ==> (r matches Ok(m)
                && m.wf() && m.receptor_density == receptor_density && m.binding_strength
                == binding_strength && m.on_rates@ == on_rates@ && m.off_rates@ == off_rates@),
    {
        if on_rates.len() != off_rates.len() {
            return Err(ConstructionError::MismatchedRateTables);
        }
        if on_rates.len() > u16::MAX as usize {
            return Err(ConstructionError::TooManyLigands);
        }
        Ok(MultiLigand { receptor_density, binding_strength, on_rates, off_rates })
    }
}

impl Particle for MultiLigand {
    type State = MultiLigandState;

    open spec fn wf(&self) -> bool {
        self.on_rates@.len() == self.off_rates@.len() && self.on_rates@.len() <= u16::MAX
    }

    open spec fn valid_state(&self, s: MultiLigandState) -> bool {
        s.total_ligands == self.spec_total_ligands() && s.attached_ligands <= s.total_ligands
    }

    open spec fn spec_initial(&self) -> MultiLigandState {
        MultiLigandState { total_ligands: self.spec_total_ligands(), attached_ligands: 0 }
    }

    open spec fn spec_events(&self, s: MultiLigandState) -> Seq<Event<MultiLigandState>> {
        let bind_ev = Event {
            rate: spec_fp_mul(
                spec_fp_mul(
                    self.on_rates@[s.attached_ligands as int],
                    if s.attached_ligands == 0 {
                        self.receptor_density
                    } else {
                        SCALE
                    },
                ),
                self.binding_strength,
            ),
            target: MultiLigandState {
                total_ligands: s.total_ligands,
                attached_ligands: (s.attached_ligands + 1) as u16,
            },
        };
        let unbind_ev = Event {
            rate: self.off_rates@[s.attached_ligands - 1],
            target: MultiLigandState {
                total_ligands: s.total_ligands,
                attached_ligands: (s.attached_ligands - 1) as u16,
            },
        };
        if s.attached_ligands < self.spec_total_ligands() && s.attached_ligands > 0 {
            seq![bind_ev, unbind_ev]
        } else if s.attached_ligands < self.spec_total_ligands() {
            seq![bind_ev]
        } else if s.attached_ligands > 0 {
            seq![unbind_ev]
        } else {
            Seq::empty()
        }
    }

    fn new_state(&self) -> (s: MultiLigandState) {
        MultiLigandState { attached_ligands: 0, total_ligands: self.total_ligands() }
    }

    fn events(&self, state: &MultiLigandState) -> (evs: Vec<Event<MultiLigandState>>) {
        let mut evs: Vec<Event<MultiLigandState>> = Vec::new();

        if state.attached_ligands < self.total_ligands() {
            let base = self.on_rates[state.attached_ligands as usize];
            let factor = if state.attached_ligands == 0 {
                self.receptor_density
            } else {
                SCALE
            };
            let rate = fp_mul(fp_mul(base, factor), self.binding_strength);
            evs.push(Event { rate, target: state.bind() });
        }

        if state.attached_ligands > 0 {
            let rate = self.off_rates[state.attached_ligands as usize - 1];
            evs.push(Event { rate, target: state.unbind() });
        }

        proof {
            assert(evs@ =~= self.spec_events(*state));
        }
        evs
    }

    fn duplicate(&self) -> (r: Self) {
        let r = MultiLigand {
            receptor_density: self.receptor_density,
            binding_strength: self.binding_strength,
            on_rates: self.on_rates.clone(),
            off_rates: self.off_rates.clone(),
        };
        proof {
            assert(r.on_rates@ =~= self.on_rates@);
            assert(r.off_rates@ =~= self.off_rates@);
            assert forall|s: MultiLigandState| self.spec_events(s) == r.spec_events(s) by {
                assert(self.spec_events(s) =~= r.spec_events(s));
            }
        }
        r
    }

    proof fn lemma_initial_valid(&self) {
    }

    proof fn lemma_events_valid(&self, s: MultiLigandState) {
    }
}

impl MarkovChain for MultiLigand {
    open spec fn spec_states(&self) -> Seq<MultiLigandState> {
        Seq::new(
            (self.spec_total_ligands() + 1) as nat,
            |i: int|
                MultiLigandState {
                    attached_ligands: i as u16,
                    total_ligands: self.spec_total_ligands(),
                },
        )
    }

    fn states(&self) -> (r: Vec<MultiLigandState>) {
        let total = self.total_ligands();
        let mut r: Vec<MultiLigandState> = Vec::new();
        let mut attached: u32 = 0;
        while attached <= total as u32
            invariant
                self.wf(),
                total == self.spec_total_ligands(),
                attached <= total + 1,
                r@ =~= self.spec_states().take(attached as int),
            decreases total + 1 - attached,
        {
            r.push(MultiLigandState { attached_ligands: attached as u16, total_ligands: total });
            attached = attached + 1;
        }
        proof {
            assert(r@ =~= self.spec_states());
        }
        r
    }
}

} // verus!
