//! A fatigue-interference particle model.
//!
//! Ligands that were bound but disconnected again from the cell do not go
//! back to their original state: they are "fatigued" and rebind at a
//! distinct, typically much lower, rate, and each fatigued ligand further
//! obstructs entry.

use vstd::prelude::*;

use crate::fixed::SCALE;
use crate::fixed::spec_count_mul;
use crate::fixed::spec_fp_mul;
use crate::fixed::spec_fp_pow;
use crate::fixed::count_mul;
use crate::fixed::fp_mul;
use crate::fixed::fp_pow;
use crate::particle::Attach;
use crate::particle::Event;
use crate::particle::Particle;
use crate::simulation::markov::MarkovChain;

verus! {

/// The state of a [`Fatiguing`] particle.
///
/// A state is valid for a model when `attached_ligands + fatigued_ligands`
/// does not exceed the model's total and the particle has not both entered
/// and exited.
#[derive(Clone, Copy, Debug, Default, PartialEq, Eq, Structural)]
pub struct FatiguingState {
    /// Whether the particle has entered the host.
    pub has_entered: bool,

    /// Whether the particle has fully detached from the host again.
    pub has_exited: bool,

    /// The number of ligands currently bound to a receptor.
    pub attached_ligands: u16,

    /// The number of ligands that have unbound and are now fatigued.
    pub fatigued_ligands: u16,
}

impl Attach for FatiguingState {
    open spec fn spec_is_attached(&self) -> bool {
        self.has_entered
    }

    fn is_attached(&self) -> bool {
        self.has_entered
    }
}

impl FatiguingState {
    /// The state with the entered flag flipped.
    pub fn toggle_entered(&self) -> (r: Self)
        ensures
            r == (FatiguingState { has_entered: !self.has_entered, ..*self }),
    {
        FatiguingState { has_entered: !self.has_entered, ..*self }
    }

    /// The state with one more fresh ligand bound.
    pub fn bind_regular(&self) -> (r: Self)
        requires
            self.attached_ligands < u16::MAX,
        ensures
            r == (FatiguingState {
                attached_ligands: (self.attached_ligands + 1) as u16,
                ..*self
            }),
    {
        FatiguingState { attached_ligands: self.attached_ligands + 1, ..*self }
    }

    /// The state with one fatigued ligand re-bound.
    pub fn bind_fatigued(&self) -> (r: Self)
        requires
            self.attached_ligands < u16::MAX,
            self.fatigued_ligands >= 1,
        ensures
            r == (FatiguingState {
                attached_ligands: (self.attached_ligands + 1) as u16,
                fatigued_ligands: (self.fatigued_ligands - 1) as u16,
                ..*self
            }),
    {
        FatiguingState {
            attached_ligands: self.attached_ligands + 1,
            fatigued_ligands: self.fatigued_ligands - 1,
            ..*self
        }
    }

    /// The state with one less ligand bound.  Losing the last bound ligand
    /// means the particle leaves the host for good; otherwise the released
    /// ligand joins the fatigued pool.
    pub fn unbind(&self) -> (r: Self)
        requires
            self.attached_ligands >= 1,
            self.attached_ligands == 1 || self.fatigued_ligands < u16::MAX,
        ensures
            r == if self.attached_ligands == 1 {
                FatiguingState { attached_ligands: 0, has_exited: true, ..*self }
            } else {
                FatiguingState {
                    attached_ligands: (self.attached_ligands - 1) as u16,
                    fatigued_ligands: (self.fatigued_ligands + 1) as u16,
                    ..*self
                }
            },
    {
        if self.attached_ligands == 1 {
            return FatiguingState { attached_ligands: 0, has_exited: true, ..*self };
        }
        FatiguingState {
            attached_ligands: self.attached_ligands - 1,
            fatigued_ligands: self.fatigued_ligands + 1,
            ..*self
        }
    }
}

/// A fatigue-interference particle model.
///
/// Generalises [`crate::particle::Interfering`] with a pool of fatigued
/// ligands: a ligand released by unbinding moves to the fatigued pool
/// (except when that unbinding causes exit), rebinds at a distinct rate,
/// and contributes an additional obstruction factor to entry.  All
/// parameters are fixed-point numbers (see [`crate::fixed`]).
#[derive(Clone, Copy, Debug, Default, PartialEq, Eq, Structural)]
pub struct Fatiguing {
    /// Total number of ligands of the particle.
    pub total_ligands: u16,

    /// Rate at which an individual non-fatigued ligand attaches to a host:
    /// with `n` free ligands the binding rate is `n` times this rate,
    /// scaled by the receptor density.
    pub attachment_rate: u64,

    /// Rate at which an individual fatigued ligand attaches to a host;
    /// multiplies by the fatigued count the same way.
    pub fatigued_attachment_rate: u64,

    /// Rate at which an individual ligand detaches from a host; multiplies
    /// by the attached count the same way.
    pub deattachment_rate: u64,

    /// The rate at which an unobstructed particle enters the host.
    pub enter_rate: u64,

    /// Factor for the increased difficulty of the first ligand attaching,
    /// as opposed to the rest of them.
    pub initial_collision_factor: u64,

    /// Factor by which the entering rate decreases for each additionally
    /// attached ligand.
    pub obstruction_factor: u64,

    /// Factor by which the entering rate decreases for each fatigued
    /// ligand.
    pub fatigued_obstruction_factor: u64,

    /// The density of receptors available to bind to; the value one
    /// corresponds to one receptor per ligand.
    pub receptor_density: u64,
}

impl Fatiguing {
    /// The number of free ligands of a particle in state `s`: neither
    /// bound nor fatigued.
    pub open spec fn spec_free_ligands(&self, s: FatiguingState) -> u16 {
        (self.total_ligands - s.fatigued_ligands - s.attached_ligands) as u16
    }

    /// The number of ligands that are neither bound nor fatigued.
    pub fn free_ligands(&self, state: &FatiguingState) -> (r: u16)
        requires
            self.valid_state(*state),
        ensures
            r == self.spec_free_ligands(*state),
    {
        self.total_ligands - state.fatigued_ligands - state.attached_ligands
    }
}

impl Fatiguing {
    /// Law: every state offers at least one event — a terminal state its
    /// sentinel self-loop — so a simulation of this model never fails to
    /// advance.
    pub proof fn lemma_events_nonempty(&self, s: FatiguingState)
        ensures
            self.spec_events(s).len() >= 1,
    {
    }
}

impl Particle for Fatiguing {
    type State = FatiguingState;

    open spec fn wf(&self) -> bool {
        self.total_ligands < u16::MAX
    }

    open spec fn valid_state(&self, s: FatiguingState) -> bool {
        s.attached_ligands + s.fatigued_ligands <= self.total_ligands && !(s.has_entered
            && s.has_exited)
    }

    open spec fn spec_initial(&self) -> FatiguingState {
        FatiguingState {
            has_entered: false,
            has_exited: false,
            attached_ligands: 0,
            fatigued_ligands: 0,
        }
    }

    open spec fn spec_events(&self, s: FatiguingState) -> Seq<Event<FatiguingState>> {
        if s.has_entered || s.has_exited {
            seq![Event { rate: 0u64, target: s }]
        } else {
            let enter_ev = Event {
                rate: spec_fp_mul(
                    spec_fp_mul(
                        spec_count_mul(s.attached_ligands, self.enter_rate),
                        spec_fp_pow(self.obstruction_factor, (s.attached_ligands - 1) as nat),
                    ),
                    spec_fp_pow(self.fatigued_obstruction_factor, s.fatigued_ligands as nat),
                ),
                target: FatiguingState { has_entered: true, ..s },
            };
            let unbind_ev = Event {
                rate: spec_count_mul(s.attached_ligands, self.deattachment_rate),
                target: if s.attached_ligands == 1 {
                    FatiguingState { attached_ligands: 0, has_exited: true, ..s }
                } else {
                    FatiguingState {
                        attached_ligands: (s.attached_ligands - 1) as u16,
                        fatigued_ligands: (s.fatigued_ligands + 1) as u16,
                        ..s
                    }
                },
            };
            let cf = if s.attached_ligands == 0 {
                self.initial_collision_factor
            } else {
                SCALE
            };
            let bind_ev = Event {
                rate: spec_fp_mul(
                    spec_fp_mul(
                        spec_count_mul(self.spec_free_ligands(s), self.attachment_rate),
                        self.receptor_density,
                    ),
                    cf,
                ),
                target: FatiguingState {
                    attached_ligands: (s.attached_ligands + 1) as u16,
                    ..s
                },
            };
            let bind_fat_ev = Event {
                rate: spec_fp_mul(
                    spec_fp_mul(
                        spec_count_mul(s.fatigued_ligands, self.fatigued_attachment_rate),
                        self.receptor_density,
                    ),
                    cf,
                ),
                target: FatiguingState {
                    attached_ligands: (s.attached_ligands + 1) as u16,
                    fatigued_ligands: (s.fatigued_ligands - 1) as u16,
                    ..s
                },
            };
            if s.attached_ligands > 0 && s.fatigued_ligands > 0 {
                seq![enter_ev, unbind_ev, bind_ev, bind_fat_ev]
            } else if s.attached_ligands > 0 {
                seq![enter_ev, unbind_ev, bind_ev]
            } else if s.fatigued_ligands > 0 {
                seq![bind_ev, bind_fat_ev]
            } else {
                seq![bind_ev]
            }
        }
    }

    fn new_state(&self) -> (s: FatiguingState) {
        FatiguingState {
            attached_ligands: 0,
            fatigued_ligands: 0,
            has_entered: false,
            has_exited: false,
        }
    }

    fn events(&self, state: &FatiguingState) -> (evs: Vec<Event<FatiguingState>>) {
        if state.has_entered || state.has_exited {
            let mut evs: Vec<Event<FatiguingState>> = Vec::new();
            evs.push(Event { rate: 0u64, target: *state });
            proof {
                assert(evs@ =~= self.spec_events(*state));
            }
            return evs;
        }

        let mut evs: Vec<Event<FatiguingState>> = Vec::new();

        if state.attached_ligands > 0 {
            let obstruction = fp_pow(self.obstruction_factor, state.attached_ligands - 1);
            let fat_obstruction = fp_pow(
                self.fatigued_obstruction_factor,
                state.fatigued_ligands,
            );
            evs.push(
                Event {
                    rate: fp_mul(
                        fp_mul(count_mul(state.attached_ligands, self.enter_rate), obstruction),
                        fat_obstruction,
                    ),
                    target: state.toggle_entered(),
                },
            );

            evs.push(
                Event {
                    rate: count_mul(state.attached_ligands, self.deattachment_rate),
                    target: state.unbind(),
                },
            );
        }

        let collision_factor = if state.attached_ligands == 0 {
            self.initial_collision_factor
        } else {
            SCALE
        };

        evs.push(
            Event {
                rate: fp_mul(
                    fp_mul(
                        count_mul(self.free_ligands(state), self.attachment_rate),
                        self.receptor_density,
                    ),
                    collision_factor,
                ),
                target: state.bind_regular(),
            },
        );

        if state.fatigued_ligands > 0 {
            evs.push(
                Event {
                    rate: fp_mul(
                        fp_mul(
                            count_mul(state.fatigued_ligands, self.fatigued_attachment_rate),
                            self.receptor_density,
                        ),
                        collision_factor,
                    ),
                    target: state.bind_fatigued(),
                },
            );
        }

        proof {
            assert(evs@ =~= self.spec_events(*state));
        }
        evs
    }

    fn duplicate(&self) -> (r: Self) {
        *self
    }

    proof fn lemma_initial_valid(&self) {
    }

    proof fn lemma_events_valid(&self, s: FatiguingState) {
        let evs = self.spec_events(s);
        if !(s.has_entered || s.has_exited) {
            let free = self.spec_free_ligands(s);
            let b1 = spec_count_mul(free, self.attachment_rate);
            let b2 = spec_fp_mul(b1, self.receptor_density);
            let cf = if s.attached_ligands == 0 {
                self.initial_collision_factor
            } else {
                SCALE
            };
            let b3 = spec_fp_mul(b2, cf);
            if free == 0 {
                assert(free * self.attachment_rate == 0) by (nonlinear_arith)
                    requires
                        free == 0,
                ;
                assert(b1 == 0);
                assert(b1 * self.receptor_density == 0) by (nonlinear_arith)
                    requires
                        b1 == 0,
                ;
                assert(b2 == 0);
                assert(b2 * cf == 0) by (nonlinear_arith)
                    requires
                        b2 == 0,
                ;
                assert(b3 == 0);
            }
            let bind_index: int = if s.attached_ligands > 0 {
                2
            } else {
                0
            };
            assert(evs[bind_index].rate == b3);
            assert(evs[bind_index].rate > 0 ==> free > 0);
        }
    }
}

impl MarkovChain for Fatiguing {
    open spec fn spec_states(&self) -> Seq<FatiguingState> {
        self.spec_states_from(0)
    }

    fn states(&self) -> (r: Vec<FatiguingState>) {
        let total = self.total_ligands;
        let mut r: Vec<FatiguingState> = Vec::new();
        let mut attached: u32 = 0;
        while attached <= total as u32
            invariant
                self.wf(),
                total == self.total_ligands,
                attached <= total + 1,
                r@ + self.spec_states_from(attached as int) == self.spec_states(),
            decreases total + 1 - attached,
        {
            let mut fatigued: u32 = 0;
            while fatigued <= (total - attached as u16) as u32
                invariant
                    self.wf(),
                    total == self.total_ligands,
                    attached <= total,
                    fatigued <= total - attached + 1,
                    r@ + self.spec_fatigued_row(attached as int, fatigued as int)
                        + self.spec_states_from(attached as int + 1) == self.spec_states(),
                decreases total - attached + 1 - fatigued,
            {
                let a = attached as u16;
                let f = fatigued as u16;
                r.push(
                    FatiguingState {
                        attached_ligands: a,
                        fatigued_ligands: f,
                        has_entered: true,
                        has_exited: true,
                    },
                );
                r.push(
                    FatiguingState {
                        attached_ligands: a,
                        fatigued_ligands: f,
                        has_entered: true,
                        has_exited: false,
                    },
                );
                r.push(
                    FatiguingState {
                        attached_ligands: a,
                        fatigued_ligands: f,
                        has_entered: false,
                        has_exited: true,
                    },
                );
                r.push(
                    FatiguingState {
                        attached_ligands: a,
                        fatigued_ligands: f,
                        has_entered: false,
                        has_exited: false,
                    },
                );
                proof {
                    assert(r@ + self.spec_fatigued_row(attached as int, fatigued as int + 1)
                        + self.spec_states_from(attached as int + 1) =~= self.spec_states());
                }
                fatigued = fatigued + 1;
            }
            proof {
                assert(self.spec_fatigued_row(attached as int, fatigued as int)
                    =~= Seq::<FatiguingState>::empty());
                assert(r@ + self.spec_states_from(attached as int + 1) =~= self.spec_states());
            }
            attached = attached + 1;
        }
        proof {
            assert(self.spec_states_from(attached as int) =~= Seq::<FatiguingState>::empty());
            assert(r@ =~= self.spec_states());
        }
        r
    }
}

impl Fatiguing {
    /// The four flag combinations of one occupancy cell, in enumeration
    /// order.
    pub open spec fn spec_state_quad(&self, att: int, fat: int) -> Seq<FatiguingState> {
        seq![
            FatiguingState {
                attached_ligands: att as u16,
                fatigued_ligands: fat as u16,
                has_entered: true,
                has_exited: true,
            },
            FatiguingState {
                attached_ligands: att as u16,
                fatigued_ligands: fat as u16,
                has_entered: true,
                has_exited: false,
            },
            FatiguingState {
                attached_ligands: att as u16,
                fatigued_ligands: fat as u16,
                has_entered: false,
                has_exited: true,
            },
            FatiguingState {
                attached_ligands: att as u16,
                fatigued_ligands: fat as u16,
                has_entered: false,
                has_exited: false,
            },
        ]
    }

    /// The enumeration cells with `att` attached ligands, from `fat`
    /// fatigued ligands upward.
    pub open spec fn spec_fatigued_row(&self, att: int, fat: int) -> Seq<FatiguingState>
        decreases self.total_ligands - att - fat + 1,
    {
        if att < 0 || fat < 0 || att > self.total_ligands || fat > self.total_ligands - att {
            Seq::empty()
        } else {
            self.spec_state_quad(att, fat) + self.spec_fatigued_row(att, fat + 1)
        }
    }

    /// The enumeration blocks from `att` attached ligands upward.
    pub open spec fn spec_states_from(&self, att: int) -> Seq<FatiguingState>
        decreases self.total_ligands - att + 1,
    {
        if att < 0 || att > self.total_ligands {
            Seq::empty()
        } else {
            self.spec_fatigued_row(att, 0) + self.spec_states_from(att + 1)
        }
    }
}

} // verus!
