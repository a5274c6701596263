//! Simulation of [`particles`](crate::particle) over time.

pub mod markov;
mod many;
mod single;

pub use many::Simulation;
pub use many::Theta;
pub use many::spec_count_attached;
pub use many::spec_member_seed;
pub use many::spec_stream_counter;
pub use many::lemma_count_attached_bounds;

pub use single::SimCore;
pub use single::SimulationSingle;
pub use single::spec_advance_contract;
pub use single::spec_core_wf;
pub use single::spec_init_core;
pub use single::spec_last_index;
pub use single::lemma_init_congruence;
pub use single::lemma_run_congruence;
pub use single::lemma_run_props;
pub use single::lemma_run_total;
pub use single::spec_loop_measure;
pub use single::spec_run_core;
pub use single::spec_step_core;

use vstd::prelude::*;

use crate::fixed::ExtTime;

verus! {

/// A transition into a particular `State` that happened at some point in
/// time.
#[derive(Clone, Copy, Debug, Default, PartialEq, Eq, Structural)]
pub struct Transition<State> {
    /// The time at which the transition happened, in ticks.
    pub time: u64,

    /// The state that was transitioned to.
    pub target: State,
}

/// The next scheduled transition of a chain: the transition the chain will
/// make once the clock passes its time.
///
/// Its time is extended: a chain sitting in an absorbing state schedules its
/// next transition at [`ExtTime::Never`].
#[derive(Clone, Copy, Debug, PartialEq, Eq, Structural)]
pub struct Pending<State> {
    /// The extended time at which the chain will enter `target`.
    pub time: ExtTime,

    /// The state the chain will enter.
    pub target: State,
}

} // verus!
