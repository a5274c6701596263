//! Simulation of many particles at once.

use rayon::iter::IntoParallelRefMutIterator;
use rayon::iter::ParallelIterator;

use vstd::prelude::*;

use crate::particle::Attach;
use crate::particle::Particle;
use crate::particle::SimError;
use crate::rng::StreamRng;
use crate::rng::spec_stream_draw;
use crate::rng::spec_stream_step;
use crate::simulation::SimulationSingle;
use crate::simulation::Transition;
use crate::simulation::spec_advance_contract;
use crate::simulation::spec_init_core;
use crate::simulation::spec_run_core;
use crate::simulation::single::lemma_init_congruence;

verus! {

/// An attachment fraction: how many members out of how many count as
/// attached.  The real-valued fraction is `attached / total`.
#[derive(Clone, Copy, Debug, PartialEq, Eq, Structural)]
pub struct Theta {
    /// The number of members whose state counts as attached.
    pub attached: usize,

    /// The number of members.
    pub total: usize,
}

/// The stream counter reached after `i` draws from a stream seeded with
/// `seed`.
pub open spec fn spec_stream_counter(seed: u64, i: int) -> u64
    decreases i,
{
    if i <= 0 {
        seed
    } else {
        spec_stream_step(spec_stream_counter(seed, i - 1))
    }
}

/// The seed handed to ensemble member `i` by a master seed: the `i`-th
/// draw of the master stream.
pub open spec fn spec_member_seed(master_seed: u64, i: int) -> u64 {
    spec_stream_draw(spec_stream_counter(master_seed, i))
}

/// The number of attached states in a sequence.
pub open spec fn spec_count_attached<S: Attach>(states: Seq<S>) -> int
    decreases states.len(),
{
    if states.len() == 0 {
        0
    } else {
        spec_count_attached(states.drop_last()) + if states.last().spec_is_attached() {
            1int
        } else {
            0int
        }
    }
}

/// The attached count never exceeds the number of states, which bounds
/// every attachment fraction by one.
pub proof fn lemma_count_attached_bounds<S: Attach>(states: Seq<S>)
    ensures
        0 <= spec_count_attached(states) <= states.len(),
    decreases states.len(),
{
    if states.len() > 0 {
        lemma_count_attached_bounds(states.drop_last());
    }
}

/// Simulation of many independent particles of the same kind.
///
/// All members are built from operational copies of one model and advance
/// to the same target times, so their clocks always agree; their random
/// streams are independent, so their histories are independent samples.
pub struct Simulation<P: Particle> {
    /// All individual member simulations.
    pub simulations: Vec<SimulationSingle<P>>,
}

/// Relies on rayon's `par_iter_mut` and `collect`: the closure is applied
/// to every member exactly once, in place, and collecting an indexed
/// parallel iterator keeps index order.  The closure only calls the
/// verified `SimulationSingle::advance_until`, so each member and its
/// result satisfy exactly that function's contract,
/// [`spec_advance_contract`].
#[verifier::external_body]
fn advance_members<P: Particle + Send + Sync>(
    members: &mut Vec<SimulationSingle<P>>,
    t: u64,
) -> (rs: Vec<Result<(), SimError>>)
    where P::State: Send + Sync,
    requires
        forall|i: int| 0 <= i < old(members)@.len() ==> (#[trigger] old(members)@[i]).wf(),
    ensures
        rs@.len() == old(members)@.len(),
        final(members)@.len() == old(members)@.len(),
        forall|i: int|
            0 <= i < old(members)@.len() ==> spec_advance_contract(
                old(members)@[i],
                final(members)@[i],
                t,
                (#[trigger] rs@[i]) is Ok,
            ),
{
    members.par_iter_mut().map(|m| m.advance_until(t)).collect()
}

impl<P: Particle> Simulation<P> {
    /// The shared clock of the ensemble.
    pub open spec fn spec_time(&self) -> u64 {
        self.simulations@[0].time
    }

    /// Well-formedness of an ensemble: every member is well-formed and all
    /// members are on the same time.
    pub open spec fn wf(&self) -> bool {
        &&& forall|i: int|
            0 <= i < self.simulations@.len() ==> (#[trigger] self.simulations@[i]).wf()
        &&& forall|i: int|
            0 <= i < self.simulations@.len() ==> (#[trigger] self.simulations@[i]).time
                == self.spec_time()
    }

    /// Law: the ensemble clock is synchronous — any two members are on
    /// the same time.
    pub proof fn lemma_synchronous_clock(&self)
        requires
            self.wf(),
        ensures
            forall|i: int, j: int|
                0 <= i < self.simulations@.len() && 0 <= j < self.simulations@.len()
                    ==> (#[trigger] self.simulations@[i]).time == (
                #[trigger] self.simulations@[j]).time,
    {
    }

    /// Constructs an ensemble of `n` members whose streams are seeded by
    /// the draws of a master stream seeded with `master_seed`, so a run is
    /// reproducible from `(particle, n, master_seed)` alone.
    ///
    /// Fails only when the model's initial state has an empty event list.
    pub fn new_seeded(particle: P, n: usize, master_seed: u64) -> (r: Result<Self, SimError>)
        requires
            particle.wf(),
        ensures
            r is Ok <==> (n == 0 || particle.spec_events(particle.spec_initial()).len() > 0),
            r matches Ok(sim) ==> {
                &&& sim.wf()
                &&& sim.simulations@.len() == n
                &&& forall|i: int|
                    0 <= i < n ==> crate::particle::spec_matches(
                        particle,
                        (#[trigger] sim.simulations@[i]).particle,
                    )
                &&& forall|i: int|
                    0 <= i < n ==> Some((#[trigger] sim.simulations@[i]).spec_core())
                        == spec_init_core(particle, spec_member_seed(master_seed, i))
                &&& forall|i: int| 0 <= i < n ==> (#[trigger] sim.simulations@[i]).time == 0
            },
            r matches Err(e) ==> e == SimError::NoEvents,
    {
        let mut seeder = StreamRng::seeded(master_seed);
        let mut members: Vec<SimulationSingle<P>> = Vec::new();
        let mut i: usize = 0;
        while i < n
            invariant
                particle.wf(),
                i <= n,
                members@.len() == i,
                i > 0 ==> particle.spec_events(particle.spec_initial()).len() > 0,
                seeder@ == spec_stream_counter(master_seed, i as int),
                forall|k: int| 0 <= k < i ==> (#[trigger] members@[k]).wf(),
                forall|k: int| 0 <= k < i ==> (#[trigger] members@[k]).time == 0,
                forall|k: int|
                    0 <= k < i ==> crate::particle::spec_matches(
                        particle,
                        (#[trigger] members@[k]).particle,
                    ),
                forall|k: int|
                    0 <= k < i ==> Some((#[trigger] members@[k]).spec_core()) == spec_init_core(
                        particle,
                        spec_member_seed(master_seed, k),
                    ),
            decreases n - i,
        {
            let seed = seeder.next_value();
            let copy = particle.duplicate();
            match SimulationSingle::new_seeded(copy, seed) {
                Ok(member) => {
                    proof {
                        lemma_init_congruence(particle, member.particle, seed);
                    }
                    members.push(member);
                },
                Err(e) => {
                    return Err(e);
                },
            }
            i = i + 1;
        }
        Ok(Simulation { simulations: members })
    }

    /// Constructs an ensemble of `n` members of the given kind, seeded
    /// from fresh entropy.
    pub fn new(particle: P, n: usize) -> (r: Result<Self, SimError>)
        requires
            particle.wf(),
        ensures
            r is Ok <==> (n == 0 || particle.spec_events(particle.spec_initial()).len() > 0),
            r matches Ok(sim) ==> {
                &&& sim.wf()
                &&& sim.simulations@.len() == n
                &&& forall|i: int|
                    0 <= i < n ==> crate::particle::spec_matches(
                        particle,
                        (#[trigger] sim.simulations@[i]).particle,
                    )
                &&& forall|i: int| 0 <= i < n ==> (#[trigger] sim.simulations@[i]).time == 0
            },
            r matches Err(e) ==> e == SimError::NoEvents,
    {
        let master_seed = crate::rng::entropy_seed();
        Self::new_seeded(particle, n, master_seed)
    }

    /// The current time of the simulation; members agree on it.
    pub fn time(&self) -> (r: u64)
        requires
            self.simulations@.len() > 0,
        ensures
            r == self.spec_time(),
    {
        self.simulations[0].time()
    }

    /// Advances all members concurrently until at least time `t`.
    ///
    /// The members are advanced independently and their failures are
    /// collected after the parallel phase; the first failure, if any, is
    /// returned.  On success all members sit at the same time again.
    pub fn advance_until(&mut self, t: u64) -> (r: Result<(), SimError>)
        where P: Send + Sync, P::State: Send + Sync,
        requires
            old(self).wf(),
        ensures
            final(self).simulations@.len() == old(self).simulations@.len(),
            forall|i: int|
                0 <= i < old(self).simulations@.len() ==> spec_advance_contract(
                    old(self).simulations@[i],
                    (#[trigger] final(self).simulations@[i]),
                    t,
                    t <= old(self).simulations@[i].time || spec_run_core(
                        old(self).simulations@[i].particle,
                        old(self).simulations@[i].spec_core(),
                        t,
                    ) is Some,
                ),
            r is Ok <==> (forall|i: int|
                0 <= i < old(self).simulations@.len() ==> t <= (
                #[trigger] old(self).simulations@[i]).time || spec_run_core(
                    old(self).simulations@[i].particle,
                    old(self).simulations@[i].spec_core(),
                    t,
                ) is Some),
            r is Ok ==> final(self).wf(),
            r is Ok && old(self).simulations@.len() > 0 ==> final(self).spec_time() == if t
                >= old(self).spec_time() {
                t
            } else {
                old(self).spec_time()
            },
    {
        let rs = advance_members(&mut self.simulations, t);
        proof {
            assert forall|k: int| 0 <= k < old(self).simulations@.len() implies {
                &&& spec_advance_contract(
                    old(self).simulations@[k],
                    self.simulations@[k],
                    t,
                    t <= (#[trigger] old(self).simulations@[k]).time || spec_run_core(
                        old(self).simulations@[k].particle,
                        old(self).simulations@[k].spec_core(),
                        t,
                    ) is Some,
                )
                &&& ((rs@[k] is Ok) == (t <= old(self).simulations@[k].time || spec_run_core(
                    old(self).simulations@[k].particle,
                    old(self).simulations@[k].spec_core(),
                    t,
                ) is Some))
            } by {
                assert(spec_advance_contract(
                    old(self).simulations@[k],
                    self.simulations@[k],
                    t,
                    rs@[k] is Ok,
                ));
            }
        }
        let mut i: usize = 0;
        while i < rs.len()
            invariant
                rs@.len() == old(self).simulations@.len(),
                self.simulations@.len() == old(self).simulations@.len(),
                forall|k: int|
                    0 <= k < old(self).simulations@.len() ==> spec_advance_contract(
                        old(self).simulations@[k],
                        self.simulations@[k],
                        t,
                        t <= (#[trigger] old(self).simulations@[k]).time || spec_run_core(
                            old(self).simulations@[k].particle,
                            old(self).simulations@[k].spec_core(),
                            t,
                        ) is Some,
                    ),
                forall|k: int|
                    0 <= k < old(self).simulations@.len() ==> ((#[trigger] rs@[k]) is Ok == (t
                        <= old(self).simulations@[k].time || spec_run_core(
                        old(self).simulations@[k].particle,
                        old(self).simulations@[k].spec_core(),
                        t,
                    ) is Some)),
                forall|k: int| 0 <= k < i ==> (#[trigger] rs@[k]) is Ok,
            decreases rs@.len() - i,
        {
            match rs[i] {
                Ok(()) => {},
                Err(e) => {
                    proof {
                        assert(!(rs@[i as int] is Ok));
                    }
                    return Err(e);
                },
            }
            i = i + 1;
        }
        proof {
            assert forall|k: int|
                0 <= k < self.simulations@.len() implies (#[trigger] self.simulations@[k]).wf()
                && self.simulations@[k].time == if t >= old(self).simulations@[k].time {
                t
            } else {
                old(self).simulations@[k].time
            } by {
                assert(rs@[k] is Ok);
                assert(spec_advance_contract(
                    old(self).simulations@[k],
                    self.simulations@[k],
                    t,
                    true,
                ));
            }
        }
        Ok(())
    }

    /// The transition histories of all member simulations, as one list
    /// per member.
    pub fn transition_histories(&self) -> (r: Vec<Vec<Transition<P::State>>>)
        ensures
            r@.len() == self.simulations@.len(),
            forall|i: int|
                0 <= i < r@.len() ==> (#[trigger] r@[i])@ == self.simulations@[i]
                    .transition_history@,
    {
        let mut r: Vec<Vec<Transition<P::State>>> = Vec::new();
        let mut i: usize = 0;
        while i < self.simulations.len()
            invariant
                i <= self.simulations@.len(),
                r@.len() == i,
                forall|k: int|
                    0 <= k < i ==> (#[trigger] r@[k])@ == self.simulations@[k]
                        .transition_history@,
            decreases self.simulations@.len() - i,
        {
            let h = &self.simulations[i].transition_history;
            let mut copy: Vec<Transition<P::State>> = Vec::new();
            let mut j: usize = 0;
            while j < h.len()
                invariant
                    j <= h@.len(),
                    copy@ =~= h@.take(j as int),
                decreases h@.len() - j,
            {
                copy.push(h[j]);
                j = j + 1;
            }
            proof {
                assert(copy@ =~= h@);
            }
            r.push(copy);
            i = i + 1;
        }
        r
    }

    /// Collects the states of all members at a particular time, or `None`
    /// if the time falls outside any member's simulated window.
    ///
    /// Calling this at the current time is guaranteed to return `Some`.
    pub fn states_at_time(&self, time: u64) -> (r: Option<Vec<P::State>>)
        ensures
            r is Some <==> (forall|i: int|
                0 <= i < self.simulations@.len() ==> (#[trigger] self.simulations@[i])
                    .spec_state_at(time) is Some),
            r matches Some(v) ==> v@.len() == self.simulations@.len() && (forall|i: int|
                0 <= i < v@.len() ==> Some(v@[i]) == (#[trigger] self.simulations@[i])
                    .spec_state_at(time)),
    {
        let mut out: Vec<P::State> = Vec::new();
        let mut i: usize = 0;
        while i < self.simulations.len()
            invariant
                i <= self.simulations@.len(),
                out@.len() == i,
                forall|k: int|
                    0 <= k < i ==> Some(out@[k]) == (#[trigger] self.simulations@[k])
                        .spec_state_at(time),
            decreases self.simulations@.len() - i,
        {
            match self.simulations[i].state_at_time(time) {
                Some(s) => out.push(s),
                None => {
                    return None;
                },
            }
            i = i + 1;
        }
        Some(out)
    }

    /// Takes `n` evenly spaced samples of the member states between time
    /// zero and the current time: sample `k` is taken at `k * time / n`.
    pub fn sample(&self, n: usize) -> (r: Vec<Vec<P::State>>)
        requires
            self.wf(),
            self.simulations@.len() > 0,
        ensures
            r@.len() == n,
            forall|k: int|
                0 <= k < n ==> {
                    let tk = (k * self.spec_time() / (n as int)) as u64;
                    (#[trigger] r@[k])@.len() == self.simulations@.len() && (forall|i: int|
                        0 <= i < self.simulations@.len() ==> Some(r@[k]@[i]) == (
                        #[trigger] self.simulations@[i]).spec_state_at(tk))
                },
    {
        let t0 = self.time();
        let mut r: Vec<Vec<P::State>> = Vec::new();
        let mut k: usize = 0;
        while k < n
            invariant
                self.wf(),
                self.simulations@.len() > 0,
                t0 == self.spec_time(),
                k <= n,
                r@.len() == k,
                forall|m: int|
                    0 <= m < k ==> {
                        let tm = (m * self.spec_time() / (n as int)) as u64;
                        (#[trigger] r@[m])@.len() == self.simulations@.len() && (forall|i: int|
                            0 <= i < self.simulations@.len() ==> Some(r@[m]@[i]) == (
                            #[trigger] self.simulations@[i]).spec_state_at(tm))
                    },
            decreases n - k,
        {
            proof {
                assert(k * t0 <= n * t0) by (nonlinear_arith)
                    requires
                        0 <= k <= n,
                        t0 >= 0,
                ;
                assert(k * t0 / (n as int) <= t0) by (nonlinear_arith)
                    requires
                        k * t0 <= n * t0,
                        n >= 1,
                        t0 >= 0,
                ;
                assert(k * t0 <= usize::MAX * u64::MAX) by (nonlinear_arith)
                    requires
                        k <= usize::MAX,
                        t0 <= u64::MAX,
                ;
            }
            let tk: u64 = ((k as u128) * (t0 as u128) / (n as u128)) as u64;
            proof {
                assert forall|i: int|
                    0 <= i < self.simulations@.len() implies (#[trigger] self.simulations@[i])
                    .spec_state_at(tk) is Some by {
                    self.simulations@[i].lemma_window_some(tk);
                }
            }
            match self.states_at_time(tk) {
                Some(states) => {
                    r.push(states);
                },
                None => {
                    proof {
                        assert(false);
                    }
                },
            }
            k = k + 1;
        }
        r
    }

    /// Returns the states of all members at the current time.
    pub fn last_states(&self) -> (r: Vec<P::State>)
        requires
            self.wf(),
            self.simulations@.len() > 0,
        ensures
            r@.len() == self.simulations@.len(),
            forall|i: int|
                0 <= i < r@.len() ==> r@[i] == (#[trigger] self.simulations@[i])
                    .spec_last_state(),
    {
        let t0 = self.time();
        let mut out: Vec<P::State> = Vec::new();
        let mut i: usize = 0;
        while i < self.simulations.len()
            invariant
                self.wf(),
                i <= self.simulations@.len(),
                out@.len() == i,
                forall|k: int|
                    0 <= k < i ==> out@[k] == (#[trigger] self.simulations@[k])
                        .spec_last_state(),
            decreases self.simulations@.len() - i,
        {
            out.push(self.simulations[i].last_state());
            i = i + 1;
        }
        out
    }

    /// The sequence of member states at the current time.
    pub open spec fn spec_last_states(&self) -> Seq<P::State> {
        Seq::new(self.simulations@.len(), |i: int| self.simulations@[i].spec_last_state())
    }

    /// Returns the attachment fraction at the current time, commonly
    /// denoted theta: the number of members whose state counts as
    /// attached, out of all members.
    ///
    /// The fraction is at most one: `attached <= total` always.
    pub fn last_theta(&self) -> (r: Theta) where P::State: Attach
        requires
            self.wf(),
            self.simulations@.len() > 0,
        ensures
            r.total == self.simulations@.len(),
            r.attached == spec_count_attached(self.spec_last_states()),
            r.attached <= r.total,
    {
        let mut attached: usize = 0;
        let mut i: usize = 0;
        while i < self.simulations.len()
            invariant
                self.wf(),
                i <= self.simulations@.len(),
                attached <= i,
                attached == spec_count_attached(self.spec_last_states().take(i as int)),
            decreases self.simulations@.len() - i,
        {
            proof {
                assert(self.spec_last_states().take(i + 1).drop_last() =~= self
                    .spec_last_states()
                    .take(i as int));
                assert(self.spec_last_states().take(i + 1).last() == self.spec_last_states()[
                    i as int]);
            }
            let s = self.simulations[i].last_state();
            if s.is_attached() {
                attached = attached + 1;
            }
            i = i + 1;
        }
        proof {
            assert(self.spec_last_states().take(self.simulations@.len() as int) =~= self
                .spec_last_states());
        }
        Theta { attached, total: self.simulations.len() }
    }

    /// Returns the attachment fraction at `n` evenly spaced sample times,
    /// using the same sample times as [`Simulation::sample`].
    pub fn thetas(&self, n: usize) -> (r: Vec<Theta>) where P::State: Attach
        requires
            self.wf(),
            self.simulations@.len() > 0,
        ensures
            r@.len() == n,
            forall|k: int|
                0 <= k < n ==> {
                    let tk = (k * self.spec_time() / (n as int)) as u64;
                    (#[trigger] r@[k]).total == self.simulations@.len() && r@[k].attached
                        == spec_count_attached(
                        Seq::new(
                            self.simulations@.len(),
                            |i: int| self.simulations@[i].spec_state_at(tk)->Some_0,
                        ),
                    ) && r@[k].attached <= r@[k].total
                },
    {
        let samples = self.sample(n);
        let mut r: Vec<Theta> = Vec::new();
        let mut k: usize = 0;
        while k < n
            invariant
                self.wf(),
                self.simulations@.len() > 0,
                k <= n,
                r@.len() == k,
                samples@.len() == n,
                forall|m: int|
                    0 <= m < n ==> {
                        let tm = (m * self.spec_time() / (n as int)) as u64;
                        (#[trigger] samples@[m])@.len() == self.simulations@.len() && (forall|
                            i: int,
                        |
                            0 <= i < self.simulations@.len() ==> Some(samples@[m]@[i]) == (
                            #[trigger] self.simulations@[i]).spec_state_at(tm))
                    },
                forall|m: int|
                    0 <= m < k ==> {
                        let tm = (m * self.spec_time() / (n as int)) as u64;
                        (#[trigger] r@[m]).total == self.simulations@.len() && r@[m].attached
                            == spec_count_attached(
                            Seq::new(
                                self.simulations@.len(),
                                |i: int| self.simulations@[i].spec_state_at(tm)->Some_0,
                            ),
                        ) && r@[m].attached <= r@[m].total
                    },
            decreases n - k,
        {
            let ghost tk = (k * self.spec_time() / (n as int)) as u64;
            let ghost target_states = Seq::new(
                self.simulations@.len(),
                |i: int| self.simulations@[i].spec_state_at(tk)->Some_0,
            );
            let states = &samples[k];
            proof {
                assert(states@ =~= target_states);
            }
            let mut attached: usize = 0;
            let mut i: usize = 0;
            while i < states.len()
                invariant
                    i <= states@.len(),
                    attached <= i,
                    states@ == target_states,
                    attached == spec_count_attached(states@.take(i as int)),
                decreases states@.len() - i,
            {
                proof {
                    assert(states@.take(i + 1).drop_last() =~= states@.take(i as int));
                    assert(states@.take(i + 1).last() == states@[i as int]);
                }
                if states[i].is_attached() {
                    attached = attached + 1;
                }
                i = i + 1;
            }
            proof {
                assert(states@.take(states@.len() as int) =~= states@);
            }
            r.push(Theta { attached, total: states.len() });
            k = k + 1;
        }
        r
    }
}

} // verus!
