//! A multivalent particle that can attach to and enter a host, where
//! attached ligands obstruct entry.

use vstd::prelude::*;

use crate::fixed::SCALE;
use crate::fixed::spec_count_mul;
use crate::fixed::spec_fp_mul;
use crate::fixed::spec_fp_pow;
use crate::fixed::count_mul;
use crate::fixed::fp_mul;
use crate::fixed::fp_pow;
use crate::particle::Attach;
use crate::particle::Event;
use crate::particle::Particle;
use crate::simulation::markov::MarkovChain;

verus! {

/// The state of an [`Interfering`] particle.
///
/// A state is valid for a model when `attached_ligands` does not exceed the
/// model's total and the particle has not both entered and exited.
#[derive(Clone, Copy, Debug, Default, PartialEq, Eq, Structural)]
pub struct InterferingState {
    /// Whether the particle has entered the host.
    pub has_entered: bool,

    /// Whether the particle has fully detached from the host again.
    pub has_exited: bool,

    /// The number of ligands currently bound to a receptor.
    pub attached_ligands: u16,
}

impl Attach for InterferingState {
    open spec fn spec_is_attached(&self) -> bool {
        self.has_entered
    }

    fn is_attached(&self) -> bool {
        self.has_entered
    }
}

impl InterferingState {
    /// The state with the entered flag flipped.
    pub fn toggle_entered(&self) -> (r: Self)
        ensures
            r == (InterferingState { has_entered: !self.has_entered, ..*self }),
    {
        InterferingState { has_entered: !self.has_entered, ..*self }
    }

    /// The state with one more ligand bound.
    pub fn bind(&self) -> (r: Self)
        requires
            self.attached_ligands < u16::MAX,
        ensures
            r == (InterferingState {
                attached_ligands: (self.attached_ligands + 1) as u16,
                ..*self
            }),
    {
        InterferingState { attached_ligands: self.attached_ligands + 1, ..*self }
    }

    /// The state with one less ligand bound; losing the last bound ligand
    /// means the particle leaves the host for good.
    pub fn unbind(&self) -> (r: Self)
        requires
            self.attached_ligands >= 1,
        ensures
            r == if self.attached_ligands == 1 {
                InterferingState { attached_ligands: 0, has_exited: true, ..*self }
            } else {
                InterferingState {
                    attached_ligands: (self.attached_ligands - 1) as u16,
                    ..*self
                }
            },
    {
        if self.attached_ligands == 1 {
            return InterferingState { attached_ligands: 0, has_exited: true, ..*self };
        }
        InterferingState { attached_ligands: self.attached_ligands - 1, ..*self }
    }
}

/// A multivalent particle that can attach to and enter a host.
///
/// Ligands obstruct the particle from entering: for each additional
/// attached ligand the entering rate is decreased by a constant factor.
/// All parameters are fixed-point numbers (see [`crate::fixed`]).
#[derive(Clone, Copy, Debug, Default, PartialEq, Eq, Structural)]
pub struct Interfering {
    /// Total number of ligands of the particle.
    pub total_ligands: u16,

    /// Rate at which an individual ligand attaches to a host: with `n` free
    /// ligands the binding rate is `n` times this rate, scaled by the
    /// receptor density.
    pub attachment_rate: u64,

    /// Rate at which an individual ligand detaches from a host; multiplies
    /// by the attached count the same way.
    pub deattachment_rate: u64,

    /// The rate at which an unobstructed particle enters the host.
    pub enter_rate: u64,

    /// Factor for the increased difficulty of the first ligand attaching,
    /// as opposed to the rest of them.
    pub inital_collision_factor: u64,

    /// Factor by which the entering rate decreases for each additionally
    /// attached ligand.
    pub obstruction_factor: u64,

    /// The density of receptors available to bind to; the value one
    /// corresponds to one receptor per ligand.
    pub receptor_density: u64,
}

impl Interfering {
    /// The number of free ligands of a particle in state `s`.
    pub open spec fn spec_free_ligands(&self, s: InterferingState) -> u16 {
        (self.total_ligands - s.attached_ligands) as u16
    }

    /// The number of ligands not currently bound.
    pub fn free_ligands(&self, state: &InterferingState) -> (r: u16)
        requires
            self.valid_state(*state),
        ensures
            r == self.spec_free_ligands(*state),
    {
        self.total_ligands - state.attached_ligands
    }

    /// Law: every state offers at least one event — a terminal state its
    /// sentinel self-loop — so a simulation of this model never fails to
    /// advance.
    pub proof fn lemma_events_nonempty(&self, s: InterferingState)
        ensures
            self.spec_events(s).len() >= 1,
    {
    }

    /// One block of the state enumeration: every occupancy with the given
    /// flag pair.
    pub open spec fn spec_states_block(&self, has_entered: bool, has_exited: bool) -> Seq<
        InterferingState,
    > {
        Seq::new(
            (self.total_ligands + 1) as nat,
            |i: int|
                InterferingState { has_entered, has_exited, attached_ligands: i as u16 },
        )
    }

    fn states_block(&self, has_entered: bool, has_exited: bool) -> (r: Vec<InterferingState>)
        ensures
            r@ == self.spec_states_block(has_entered, has_exited),
    {
        let mut r: Vec<InterferingState> = Vec::new();
        let mut attached: u32 = 0;
        while attached <= self.total_ligands as u32
            invariant
                attached <= self.total_ligands + 1,
                r@ =~= self.spec_states_block(has_entered, has_exited).take(attached as int),
            decreases self.total_ligands + 1 - attached,
        {
            r.push(
                InterferingState { has_entered, has_exited, attached_ligands: attached as u16 },
            );
            attached = attached + 1;
        }
        proof {
            assert(r@ =~= self.spec_states_block(has_entered, has_exited));
        }
        r
    }
}

impl Particle for Interfering {
    type State = InterferingState;

    open spec fn wf(&self) -> bool {
        self.total_ligands < u16::MAX
    }

    open spec fn valid_state(&self, s: InterferingState) -> bool {
        s.attached_ligands <= self.total_ligands && !(s.has_entered && s.has_exited)
    }

    open spec fn spec_initial(&self) -> InterferingState {
        InterferingState { has_entered: false, has_exited: false, attached_ligands: 0 }
    }

    open spec fn spec_events(&self, s: InterferingState) -> Seq<Event<InterferingState>> {
        if s.has_entered || s.has_exited {
            seq![Event { rate: 0u64, target: s }]
        } else {
            let enter_ev = Event {
                rate: spec_fp_mul(
                    spec_count_mul(s.attached_ligands, self.enter_rate),
                    spec_fp_pow(self.obstruction_factor, (s.attached_ligands - 1) as nat),
                ),
                target: InterferingState { has_entered: true, ..s },
            };
            let unbind_ev = Event {
                rate: spec_count_mul(s.attached_ligands, self.deattachment_rate),
                target: if s.attached_ligands == 1 {
                    InterferingState { attached_ligands: 0, has_exited: true, ..s }
                } else {
                    InterferingState {
                        attached_ligands: (s.attached_ligands - 1) as u16,
                        ..s
                    }
                },
            };
            let bind_ev = Event {
                rate: spec_fp_mul(
                    spec_fp_mul(
                        spec_count_mul(self.spec_free_ligands(s), self.attachment_rate),
                        self.receptor_density,
                    ),
                    if s.attached_ligands == 0 {
                        self.inital_collision_factor
                    } else {
                        SCALE
                    },
                ),
                target: InterferingState {
                    attached_ligands: (s.attached_ligands + 1) as u16,
                    ..s
                },
            };
            if s.attached_ligands > 0 {
                seq![enter_ev, unbind_ev, bind_ev]
            } else {
                seq![bind_ev]
            }
        }
    }

    fn new_state(&self) -> (s: InterferingState) {
        InterferingState { attached_ligands: 0, has_entered: false, has_exited: false }
    }

    fn events(&self, state: &InterferingState) -> (evs: Vec<Event<InterferingState>>) {
        if state.has_entered || state.has_exited {
            let mut evs: Vec<Event<InterferingState>> = Vec::new();
            evs.push(Event { rate: 0u64, target: *state });
            proof {
                assert(evs@ =~= self.spec_events(*state));
            }
            return evs;
        }

        let mut evs: Vec<Event<InterferingState>> = Vec::new();

        if state.attached_ligands > 0 {
            let obstruction = fp_pow(self.obstruction_factor, state.attached_ligands - 1);
            evs.push(
                Event {
                    rate: fp_mul(count_mul(state.attached_ligands, self.enter_rate), obstruction),
                    target: state.toggle_entered(),
                },
            );

            evs.push(
                Event {
                    rate: count_mul(state.attached_ligands, self.deattachment_rate),
                    target: state.unbind(),
                },
            );
        }

        let collision_factor = if state.attached_ligands == 0 {
            self.inital_collision_factor
        } else {
            SCALE
        };
        evs.push(
            Event {
                rate: fp_mul(
                    fp_mul(
                        count_mul(self.free_ligands(state), self.attachment_rate),
                        self.receptor_density,
                    ),
                    collision_factor,
                ),
                target: state.bind(),
            },
        );

        proof {
            assert(evs@ =~= self.spec_events(*state));
        }
        evs
    }

    fn duplicate(&self) -> (r: Self) {
        *self
    }

    proof fn lemma_initial_valid(&self) {
    }

    proof fn lemma_events_valid(&self, s: InterferingState) {
        let evs = self.spec_events(s);
        if !(s.has_entered || s.has_exited) {
            let free = self.spec_free_ligands(s);
            let b1 = spec_count_mul(free, self.attachment_rate);
            let b2 = spec_fp_mul(b1, self.receptor_density);
            let cf = if s.attached_ligands == 0 {
                self.inital_collision_factor
            } else {
                SCALE
            };
            let b3 = spec_fp_mul(b2, cf);
            if free == 0 {
                assert(free * self.attachment_rate == 0) by (nonlinear_arith)
                    requires
                        free == 0,
                ;
                assert(b1 == 0);
                assert(b1 * self.receptor_density == 0) by (nonlinear_arith)
                    requires
                        b1 == 0,
                ;
                assert(b2 == 0);
                assert(b2 * cf == 0) by (nonlinear_arith)
                    requires
                        b2 == 0,
                ;
                assert(b3 == 0);
            }
            assert(evs.last().rate == b3);
            assert(evs.last().rate > 0 ==> free > 0);
        }
    }
}

impl MarkovChain for Interfering {
    open spec fn spec_states(&self) -> Seq<InterferingState> {
        self.spec_states_block(true, true) + self.spec_states_block(true, false)
            + self.spec_states_block(false, true) + self.spec_states_block(false, false)
    }

    fn states(&self) -> (r: Vec<InterferingState>) {
        let mut r = self.states_block(true, true);
        let mut b = self.states_block(true, false);
        r.append(&mut b);
        let mut b = self.states_block(false, true);
        r.append(&mut b);
        let mut b = self.states_block(false, false);
        r.append(&mut b);
        proof {
            assert(r@ =~= self.spec_states());
        }
        r
    }
}

} // verus!
