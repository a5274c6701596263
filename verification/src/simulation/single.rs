//! A simulation of a single particle.

use vstd::prelude::*;

use crate::fixed::ExtTime;
use crate::fixed::spec_ext_add;
use crate::fixed::spec_ext_after;
use crate::fixed::spec_ext_due;
use crate::fixed::ext_add;
use crate::particle::Particle;
use crate::particle::SimError;
use crate::particle::advance_state;
use crate::particle::spec_advance_state;
use crate::particle::spec_matches;
use crate::particle::spec_total_rate;
use crate::particle::spec_threshold;
use crate::particle::lemma_threshold_lt;
use crate::particle::lemma_select_found;
use crate::rng::StreamRng;
use crate::rng::spec_stream_draw;
use crate::rng::spec_stream_step;
use crate::simulation::Pending;
use crate::simulation::Transition;

verus! {

/// The model-independent part of a single-particle simulator: its clock,
/// its stream counter, its scheduled transition and its history.
///
/// Everything a simulation does is a function of its model and its core, so
/// the core is what contracts and determinism statements speak about.
pub struct SimCore<State> {
    /// The current time of the simulation, in ticks.
    pub time: u64,

    /// The counter of the simulator's random stream.
    pub counter: u64,

    /// The next scheduled transition.
    pub pending: Pending<State>,

    /// All transitions made so far, in increasing time order.
    pub history: Seq<Transition<State>>,
}

/// A simulation of a single particle.
///
/// The simulator owns its particle, a clock, the history of transitions up
/// to the clock, the next scheduled transition, and its own random stream,
/// so that independent simulators draw from independent streams.
pub struct SimulationSingle<P: Particle> {
    /// The particle being simulated.
    pub particle: P,

    /// The simulator's own random stream.
    pub rng: StreamRng,

    /// The next scheduled transition; it lies strictly after the clock.
    pub next_transition: Pending<P::State>,

    /// The transitions made so far, in strictly increasing time order,
    /// starting with the initial state at time zero.
    pub transition_history: Vec<Transition<P::State>>,

    /// The current time, in ticks: the largest time this simulator was
    /// asked to advance to, or zero.
    pub time: u64,
}

/// The loop variant of an advance: how many ticks of work remain before
/// the scheduled transition passes the target time.
pub open spec fn spec_loop_measure(pending: ExtTime, t: u64) -> int {
    match pending {
        ExtTime::Finite(pt) => if pt <= t {
            t - pt + 1
        } else {
            0
        },
        ExtTime::Never => 0,
    }
}

/// The structural invariant of a core under a model: a non-empty history
/// that starts at time zero and increases strictly, valid states
/// throughout, and a scheduled transition strictly after the last recorded
/// one.  The clock is not constrained here.
pub open spec fn spec_core_wf<P: Particle>(p: P, c: SimCore<P::State>) -> bool {
    &&& c.history.len() >= 1
    &&& c.history[0].time == 0
    &&& forall|i: int|
        0 <= i < c.history.len() - 1 ==> (#[trigger] c.history[i]).time < c.history[i + 1].time
    &&& forall|i: int| 0 <= i < c.history.len() ==> p.valid_state((#[trigger] c.history[i]).target)
    &&& p.valid_state(c.pending.target)
    &&& spec_ext_after(c.pending.time, c.history.last().time)
}

/// One iteration of the advance loop on a core whose scheduled transition
/// is due: record the scheduled transition in the history and draw the
/// next one; `None` if the event list of the entered state is empty.
pub open spec fn spec_step_core<P: Particle>(p: P, c: SimCore<P::State>) -> Option<
    SimCore<P::State>,
> {
    match c.pending.time {
        ExtTime::Finite(pt) => {
            let (res, counter2) = spec_advance_state(p, c.pending.target, c.counter);
            match res {
                Result::Err(_) => None,
                Result::Ok((next, delta)) => Some(
                    SimCore {
                        time: c.time,
                        counter: counter2,
                        pending: Pending { time: spec_ext_add(pt, delta), target: next },
                        history: c.history.push(
                            Transition { time: pt, target: c.pending.target },
                        ),
                    },
                ),
            }
        },
        ExtTime::Never => None,
    }
}

/// The advance loop: steps the core while its scheduled transition is due
/// by the target time `t`; `None` if a step fails on an empty event list.
///
/// The clock field of the result is untouched; the caller sets it to `t`.
/// Opaque so that callers reason through the unfolding lemmas below rather
/// than by expanding the whole sampler.
#[verifier::opaque]
pub open spec fn spec_run_core<P: Particle>(p: P, c: SimCore<P::State>, t: u64) -> Option<
    SimCore<P::State>,
>
    decreases spec_loop_measure(c.pending.time, t),
    via spec_run_core_dec::<P>
{
    match c.pending.time {
        ExtTime::Finite(pt) => {
            if pt <= t {
                match spec_step_core(p, c) {
                    Option::None => None,
                    Option::Some(c2) => spec_run_core(p, c2, t),
                }
            } else {
                Some(c)
            }
        },
        ExtTime::Never => Some(c),
    }
}

#[via_fn]
proof fn spec_run_core_dec<P: Particle>(p: P, c: SimCore<P::State>, t: u64) {
    reveal(crate::particle::spec_advance_state);
}

/// A core whose scheduled transition is not due by `t` is left alone by
/// the advance loop.
pub proof fn lemma_run_done<P: Particle>(p: P, c: SimCore<P::State>, t: u64)
    requires
        !spec_ext_due(c.pending.time, t),
    ensures
        spec_run_core(p, c, t) == Some(c),
{
    reveal(spec_run_core);
}

/// A due step that fails makes the whole advance loop fail.
pub proof fn lemma_run_err<P: Particle>(p: P, c: SimCore<P::State>, t: u64)
    requires
        spec_ext_due(c.pending.time, t),
        spec_step_core(p, c) is None,
    ensures
        spec_run_core(p, c, t) is None,
{
    reveal(spec_run_core);
}

/// A due step that succeeds unfolds the advance loop by one iteration.
pub proof fn lemma_run_step<P: Particle>(p: P, c: SimCore<P::State>, t: u64, c2: SimCore<P::State>)
    requires
        spec_ext_due(c.pending.time, t),
        spec_step_core(p, c) == Some(c2),
    ensures
        spec_run_core(p, c, t) == spec_run_core(p, c2, t),
{
    reveal(spec_run_core);
}

/// The spec-level facts about one Gillespie step that the advance loop
/// needs: failure happens exactly on an empty event list, the drawn state
/// is valid, and a finite waiting time is at least one tick.
pub proof fn lemma_advance_state_props<P: Particle>(p: P, s: P::State, counter: u64)
    requires
        p.wf(),
        p.valid_state(s),
    ensures
        ({
            let (res, counter2) = spec_advance_state(p, s, counter);
            &&& (res is Err <==> p.spec_events(s).len() == 0)
            &&& (res matches Ok(sd) ==> p.valid_state(sd.0))
            &&& (res matches Ok(sd) ==> (sd.1 matches ExtTime::Finite(dt) ==> dt >= 1))
        }),
{
    reveal(spec_advance_state);
    let evs = p.spec_events(s);
    if evs.len() > 0 {
        let total = spec_total_rate(evs);
        if total != 0 {
            let j2 = spec_stream_draw(spec_stream_step(counter));
            lemma_threshold_lt(j2, total);
            lemma_select_found(evs, spec_threshold(j2, total));
            p.lemma_events_valid(s);
        }
    }
}

/// What the advance loop does to a well-formed core: when it succeeds, the
/// result is well-formed, extends the history, leaves the clock and every
/// old entry alone, schedules the next transition strictly after `t`, and
/// keeps the last recorded transition at or before `t` if it was at or
/// before `t` already.
pub proof fn lemma_run_props<P: Particle>(p: P, c: SimCore<P::State>, t: u64)
    requires
        p.wf(),
        spec_core_wf(p, c),
    ensures
        ({
            match spec_run_core(p, c, t) {
                Option::None => true,
                Option::Some(c2) => {
                    &&& spec_core_wf(p, c2)
                    &&& c.history.is_prefix_of(c2.history)
                    &&& c2.time == c.time
                    &&& !spec_ext_due(c2.pending.time, t)
                    &&& (c.history.last().time <= t ==> c2.history.last().time <= t)
                },
            }
        }),
    decreases spec_loop_measure(c.pending.time, t),
{
    reveal(spec_run_core);
    match c.pending.time {
        ExtTime::Finite(pt) => {
            if pt <= t {
                lemma_advance_state_props(p, c.pending.target, c.counter);
                match spec_step_core(p, c) {
                    Option::None => {},
                    Option::Some(c2) => {
                        assert(c.history.is_prefix_of(c2.history)) by {
                            assert(c2.history.subrange(0, c.history.len() as int)
                                =~= c.history);
                        }
                        lemma_run_props(p, c2, t);
                        match spec_run_core(p, c2, t) {
                            Option::None => {},
                            Option::Some(c3) => {
                                assert(c.history.is_prefix_of(c3.history)) by {
                                    assert(c3.history.subrange(0, c.history.len() as int)
                                        =~= c.history);
                                }
                            },
                        }
                    },
                }
            }
        },
        ExtTime::Never => {},
    }
}

/// Law: totality of the advance.  A model whose valid states always offer
/// at least one event — the absorbing self-loop sentinel included — never
/// fails to advance, so `advance_until` on it always returns success.
pub proof fn lemma_run_total<P: Particle>(p: P, c: SimCore<P::State>, t: u64)
    requires
        p.wf(),
        spec_core_wf(p, c),
        forall|s: P::State| p.valid_state(s) ==> (#[trigger] p.spec_events(s)).len() > 0,
    ensures
        spec_run_core(p, c, t) is Some,
    decreases spec_loop_measure(c.pending.time, t),
{
    reveal(spec_run_core);
    match c.pending.time {
        ExtTime::Finite(pt) => {
            if pt <= t {
                lemma_advance_state_props(p, c.pending.target, c.counter);
                match spec_step_core(p, c) {
                    Option::None => {
                        assert(false);
                    },
                    Option::Some(c2) => {
                        lemma_run_total(p, c2, t);
                    },
                }
            }
        },
        ExtTime::Never => {},
    }
}

/// The core of a freshly seeded simulator: the initial state recorded at
/// time zero and the first transition drawn from it; `None` if the initial
/// state has an empty event list.
pub open spec fn spec_init_core<P: Particle>(p: P, seed: u64) -> Option<SimCore<P::State>> {
    let init = p.spec_initial();
    let (res, counter2) = spec_advance_state(p, init, seed);
    match res {
        Result::Err(_) => None,
        Result::Ok((next, delta)) => Some(
            SimCore {
                time: 0,
                counter: counter2,
                pending: Pending { time: spec_ext_add(0, delta), target: next },
                history: seq![Transition { time: 0, target: init }],
            },
        ),
    }
}

impl<P: Particle> SimulationSingle<P> {
    /// The model-independent part of this simulator.
    pub open spec fn spec_core(&self) -> SimCore<P::State> {
        SimCore {
            time: self.time,
            counter: self.rng@,
            pending: self.next_transition,
            history: self.transition_history@,
        }
    }

    /// Well-formedness of a simulator: a well-formed model, a structurally
    /// sound core, the last recorded transition not after the clock, and
    /// the scheduled transition strictly after the clock.
    pub open spec fn wf(&self) -> bool {
        &&& self.particle.wf()
        &&& spec_core_wf(self.particle, self.spec_core())
        &&& self.transition_history@.last().time <= self.time
        &&& spec_ext_after(self.next_transition.time, self.time)
    }

    /// Constructs a simulation of the given particle whose draws replay
    /// the stream determined by `seed`.
    ///
    /// Fails only when the initial state has an empty event list, which is
    /// a model bug.
    pub fn new_seeded(particle: P, seed: u64) -> (r: Result<Self, SimError>)
        requires
            particle.wf(),
        ensures
            r is Ok <==> particle.spec_events(particle.spec_initial()).len() > 0,
            r matches Ok(s) ==> s.wf() && s.particle == particle && Some(s.spec_core())
                == spec_init_core(particle, seed),
            r matches Err(e) ==> e == SimError::NoEvents,
    {
        let mut rng = StreamRng::seeded(seed);
        let initial = particle.new_state();
        proof {
            particle.lemma_initial_valid();
        }
        match advance_state(&particle, &initial, &mut rng) {
            Err(e) => Err(e),
            Ok((next, delta)) => {
                let mut history: Vec<Transition<P::State>> = Vec::new();
                history.push(Transition { time: 0u64, target: initial });
                let s = SimulationSingle {
                    particle,
                    rng,
                    next_transition: Pending { time: ext_add(0u64, delta), target: next },
                    transition_history: history,
                    time: 0u64,
                };
                proof {
                    assert(s.transition_history@ =~= seq![
                        Transition { time: 0u64, target: s.particle.spec_initial() },
                    ]);
                }
                Ok(s)
            },
        }
    }

    /// Constructs a simulation of the given particle, seeded from fresh
    /// entropy.
    pub fn new(particle: P) -> (r: Result<Self, SimError>)
        requires
            particle.wf(),
        ensures
            r is Ok <==> particle.spec_events(particle.spec_initial()).len() > 0,
            r matches Ok(s) ==> s.wf() && s.particle == particle && exists|seed: u64|
                Some(s.spec_core()) == spec_init_core(particle, seed),
            r matches Err(e) ==> e == SimError::NoEvents,
    {
        let seed = crate::rng::entropy_seed();
        let r = Self::new_seeded(particle, seed);
        proof {
            if r is Ok {
                assert(Some(r->Ok_0.spec_core()) == spec_init_core(particle, seed));
            }
        }
        r
    }

    /// The current time of the simulation.
    pub fn time(&self) -> (r: u64)
        ensures
            r == self.time,
    {
        self.time
    }

    /// Advances the simulation until at least time `t`.
    ///
    /// If the time is already at least `t`, the simulation does not
    /// advance.  Otherwise every scheduled transition up to `t` is recorded
    /// and the clock is set to `t` exactly.  On the empty-event-list
    /// failure the simulator is left exactly as it was.
    pub fn advance_until(&mut self, t: u64) -> (r: Result<(), SimError>)
        requires
            old(self).wf(),
        ensures
            spec_advance_contract(*old(self), *final(self), t, r is Ok),
            final(self).wf(),
            final(self).time >= old(self).time,
            r is Ok ==> final(self).time == if t >= old(self).time {
                t
            } else {
                old(self).time
            },
            r is Err ==> final(self).spec_core() == old(self).spec_core(),
            old(self).transition_history@.is_prefix_of(final(self).transition_history@),
    {
        if t <= self.time {
            return Ok(());
        }
        let ghost orig = *self;
        let orig_len = self.transition_history.len();
        let orig_pending = self.next_transition;
        let orig_rng = self.rng;
        loop
            invariant
                orig == *old(self),
                orig.wf(),
                t > orig.time,
                self.particle == orig.particle,
                self.time == orig.time,
                self.particle.valid_state(self.next_transition.target),
                orig_len == orig.transition_history@.len(),
                orig_pending == orig.next_transition,
                orig_rng == orig.rng,
                orig.transition_history@.is_prefix_of(self.transition_history@),
                spec_run_core(orig.particle, self.spec_core(), t) == spec_run_core(
                    orig.particle,
                    orig.spec_core(),
                    t,
                ),
            ensures
                orig == *old(self),
                orig.wf(),
                t > orig.time,
                self.particle == orig.particle,
                self.time == orig.time,
                !spec_ext_due(self.next_transition.time, t),
                spec_run_core(orig.particle, orig.spec_core(), t) == Some(self.spec_core()),
            decreases spec_loop_measure(self.next_transition.time, t),
        {
            let pt: u64;
            match self.next_transition.time {
                ExtTime::Finite(p) => {
                    if p > t {
                        proof {
                            lemma_run_done(orig.particle, self.spec_core(), t);
                        }
                        break;
                    }
                    pt = p;
                },
                ExtTime::Never => {
                    proof {
                        lemma_run_done(orig.particle, self.spec_core(), t);
                    }
                    break;
                },
            }
            let pending_target = self.next_transition.target;
            let ghost pre = *self;
            let res = advance_state(&self.particle, &pending_target, &mut self.rng);
            match res {
                Err(e) => {
                    self.transition_history.truncate(orig_len);
                    self.next_transition = orig_pending;
                    self.rng = orig_rng;
                    proof {
                        assert(self.transition_history@ =~= orig.transition_history@);
                        assert(self.spec_core() == orig.spec_core());
                        lemma_run_err(orig.particle, pre.spec_core(), t);
                        assert(self.wf());
                    }
                    return Err(e);
                },
                Ok((next, delta)) => {
                    self.transition_history.push(
                        Transition { time: pt, target: pending_target },
                    );
                    self.next_transition = Pending { time: ext_add(pt, delta), target: next };
                    proof {
                        assert(Some(self.spec_core()) == spec_step_core(
                            orig.particle,
                            pre.spec_core(),
                        ));
                        lemma_run_step(orig.particle, pre.spec_core(), t, self.spec_core());
                        assert(orig.transition_history@.is_prefix_of(
                            self.transition_history@,
                        )) by {
                            assert(self.transition_history@.subrange(
                                0,
                                orig.transition_history@.len() as int,
                            ) =~= orig.transition_history@);
                        }
                    }
                },
            }
        }
        proof {
            lemma_run_props(orig.particle, orig.spec_core(), t);
        }
        self.time = t;
        proof {
            assert(self.wf());
            assert(orig.transition_history@.is_prefix_of(self.transition_history@));
        }
        Ok(())
    }
}

/// The index of the last transition of `h` at or before `time`, or `-1`
/// if every transition lies after `time`.
pub open spec fn spec_last_index<S>(h: Seq<Transition<S>>, time: u64) -> int
    decreases h.len(),
{
    if h.len() == 0 {
        -1
    } else if h.last().time <= time {
        h.len() - 1
    } else {
        spec_last_index(h.drop_last(), time)
    }
}

/// In a history with strictly increasing times, the last transition at or
/// before the time of entry `i` is entry `i` itself.
proof fn lemma_last_index_exact<S>(h: Seq<Transition<S>>, i: int)
    requires
        0 <= i < h.len(),
        forall|k: int| 0 <= k < h.len() - 1 ==> (#[trigger] h[k]).time < h[k + 1].time,
    ensures
        spec_last_index(h, h[i].time) == i,
    decreases h.len(),
{
    if i == h.len() - 1 {
    } else {
        assert(h[i].time < h.last().time) by {
            lemma_sorted_range(h, i, h.len() - 1);
        }
        let h2 = h.drop_last();
        assert(forall|k: int| 0 <= k < h2.len() ==> h2[k] == h[k]);
        lemma_last_index_exact(h2, i);
    }
}

/// In a history whose adjacent times increase strictly, any earlier entry
/// is strictly earlier.
proof fn lemma_sorted_range<S>(h: Seq<Transition<S>>, i: int, j: int)
    requires
        0 <= i < j < h.len(),
        forall|k: int| 0 <= k < h.len() - 1 ==> (#[trigger] h[k]).time < h[k + 1].time,
    ensures
        h[i].time < h[j].time,
    decreases j - i,
{
    if j > i + 1 {
        lemma_sorted_range(h, i, j - 1);
    }
}

/// A history that starts at or before `time` has a last transition at or
/// before `time`.
proof fn lemma_last_index_nonneg<S>(h: Seq<Transition<S>>, time: u64)
    requires
        h.len() >= 1,
        h[0].time <= time,
    ensures
        spec_last_index(h, time) >= 0,
    decreases h.len(),
{
    if h.last().time <= time {
    } else {
        let h2 = h.drop_last();
        lemma_last_index_nonneg(h2, time);
    }
}

impl<P: Particle> SimulationSingle<P> {
    /// The last transition that had occurred at the given time: the
    /// greatest recorded transition whose time is at or before `time`, the
    /// exact one when the times coincide, and nothing when `time` lies
    /// outside the simulated window — after the scheduled transition or
    /// before the first record.
    pub open spec fn spec_last_transition_at(&self, time: u64) -> Option<Transition<P::State>> {
        let in_window = match self.next_transition.time {
            ExtTime::Finite(pt) => time <= pt,
            ExtTime::Never => true,
        };
        if !in_window {
            None
        } else {
            let i = spec_last_index(self.transition_history@, time);
            if i < 0 {
                None
            } else {
                Some(self.transition_history@[i])
            }
        }
    }

    /// The state of the particle at the given time, when `time` lies in
    /// the simulated window.
    pub open spec fn spec_state_at(&self, time: u64) -> Option<P::State> {
        match self.spec_last_transition_at(time) {
            Option::Some(tr) => Some(tr.target),
            Option::None => None,
        }
    }

    /// The last transition that had occurred at the given time.
    ///
    /// If the time is the same as a transition's, that transition is
    /// returned.  Returns `None` if the time is after the next scheduled
    /// transition.
    pub fn last_transition_at_time(&self, time: u64) -> (r: Option<Transition<P::State>>)
        ensures
            r == self.spec_last_transition_at(time),
    {
        match self.next_transition.time {
            ExtTime::Finite(pt) => if time > pt {
                return None;
            },
            ExtTime::Never => {},
        }
        let h = &self.transition_history;
        let mut i = h.len();
        proof {
            assert(h@.take(h@.len() as int) =~= h@);
        }
        while i > 0
            invariant
                i <= h@.len(),
                h@ == self.transition_history@,
                spec_last_index(h@, time) == spec_last_index(h@.take(i as int), time),
                match self.next_transition.time {
                    ExtTime::Finite(pt) => time <= pt,
                    ExtTime::Never => true,
                },
            decreases i,
        {
            proof {
                assert(h@.take(i as int).last() == h@[i - 1]);
                assert(h@.take(i as int).drop_last() =~= h@.take(i - 1));
            }
            if h[i - 1].time <= time {
                proof {
                    assert(spec_last_index(h@, time) == i - 1);
                }
                return Some(h[i - 1]);
            }
            i = i - 1;
        }
        proof {
            assert(h@.take(0) =~= Seq::<Transition<P::State>>::empty());
        }
        None
    }

    /// The state of the particle at the given time.
    pub fn state_at_time(&self, time: u64) -> (r: Option<P::State>)
        ensures
            r == self.spec_state_at(time),
    {
        match self.last_transition_at_time(time) {
            Some(tr) => Some(tr.target),
            None => None,
        }
    }

    /// The state of the particle at the current time; by well-formedness
    /// this is the target of the last recorded transition, and it always
    /// exists.
    pub fn last_state(&self) -> (r: P::State)
        requires
            self.wf(),
        ensures
            r == self.transition_history@.last().target,
            Some(r) == self.spec_state_at(self.time),
    {
        let i = self.transition_history.len() - 1;
        let r = self.transition_history[i].target;
        proof {
            assert(spec_last_index(self.transition_history@, self.time)
                == self.transition_history@.len() - 1);
        }
        r
    }

    /// The state at the current time, at the specification level: the
    /// target of the last recorded transition.
    pub open spec fn spec_last_state(&self) -> P::State {
        self.transition_history@.last().target
    }

    /// Any time up to the clock lies in the simulated window, so a state
    /// lookup there always succeeds — and at the time of the last
    /// recorded transition it returns that transition's state.
    pub proof fn lemma_window_some(&self, time: u64)
        requires
            self.wf(),
            time <= self.time,
        ensures
            self.spec_state_at(time) is Some,
            time >= self.transition_history@.last().time ==> self.spec_state_at(time) == Some(
                self.spec_last_state(),
            ),
    {
        let h = self.transition_history@;
        if time >= h.last().time {
        } else {
            lemma_last_index_nonneg(h, time);
        }
    }

    /// Law: the recorded times increase strictly along the history.
    pub proof fn lemma_history_monotone(&self)
        requires
            self.wf(),
        ensures
            forall|i: int, j: int|
                0 <= i < j < self.transition_history@.len() ==> self.transition_history@[i].time
                    < self.transition_history@[j].time,
    {
        let h = self.transition_history@;
        assert forall|i: int, j: int| 0 <= i < j < h.len() implies h[i].time < h[j].time by {
            lemma_sorted_range(h, i, j);
        }
    }

    /// Law: the history starts at time zero and never reaches past the
    /// scheduled transition.
    pub proof fn lemma_history_bounds(&self)
        requires
            self.wf(),
        ensures
            self.transition_history@[0].time == 0,
            match self.next_transition.time {
                ExtTime::Finite(pt) => self.transition_history@.last().time <= pt,
                ExtTime::Never => true,
            },
    {
    }

    /// Law: looking up the time of any recorded transition returns exactly
    /// that transition's state.
    pub proof fn lemma_round_trip(&self, i: int)
        requires
            self.wf(),
            0 <= i < self.transition_history@.len(),
        ensures
            self.spec_state_at(self.transition_history@[i].time) == Some(
                self.transition_history@[i].target,
            ),
    {
        let h = self.transition_history@;
        if i < h.len() - 1 {
            lemma_sorted_range(h, i, h.len() - 1);
        }
        lemma_last_index_exact(h, i);
    }

    /// Makes a new ensemble simulation with `n` particles of the current
    /// kind.
    pub fn multiple(self, n: usize) -> (r: Result<crate::simulation::Simulation<P>, SimError>)
        requires
            self.wf(),
        ensures
            r is Ok <==> (n == 0 || self.particle.spec_events(
                self.particle.spec_initial(),
            ).len() > 0),
            r matches Ok(sim) ==> sim.wf() && sim.simulations@.len() == n,
    {
        crate::simulation::Simulation::new(self.particle, n)
    }

    /// Law: once the scheduled transition is `Never` — the chain has
    /// entered an absorbing state — no advance produces further history.
    pub proof fn lemma_terminal_absorption(&self, t: u64)
        requires
            self.next_transition.time is Never,
        ensures
            spec_run_core(self.particle, self.spec_core(), t) == Some(self.spec_core()),
    {
        lemma_run_done(self.particle, self.spec_core(), t);
    }
}

/// Law: determinism.  Models that behave identically — in particular a
/// model and its [`Particle::duplicate`] — drive a core through exactly
/// the same advances, so a fixed seed reproduces a run exactly however the
/// model value was copied.
pub proof fn lemma_run_congruence<P: Particle>(p1: P, p2: P, c: SimCore<P::State>, t: u64)
    requires
        spec_matches(p1, p2),
    ensures
        spec_run_core(p1, c, t) == spec_run_core(p2, c, t),
    decreases spec_loop_measure(c.pending.time, t),
{
    reveal(spec_run_core);
    reveal(spec_advance_state);
    match c.pending.time {
        ExtTime::Finite(pt) => {
            if pt <= t {
                assert(p1.spec_events(c.pending.target) == p2.spec_events(c.pending.target));
                assert(spec_step_core(p1, c) == spec_step_core(p2, c));
                match spec_step_core(p1, c) {
                    Option::None => {},
                    Option::Some(c2) => {
                        lemma_run_congruence(p1, p2, c2, t);
                    },
                }
            }
        },
        ExtTime::Never => {},
    }
}

/// Law: determinism at construction.  Models that behave identically give
/// the same freshly seeded core for the same seed.
pub proof fn lemma_init_congruence<P: Particle>(p1: P, p2: P, seed: u64)
    requires
        spec_matches(p1, p2),
    ensures
        spec_init_core(p1, seed) == spec_init_core(p2, seed),
{
    reveal(spec_advance_state);
    assert(p1.spec_events(p1.spec_initial()) == p2.spec_events(p2.spec_initial()));
}

/// The full behaviour of one `advance_until` call, relating the simulator
/// before the call, the simulator after it, the target time, and whether
/// the call succeeded.
///
/// This is the contract proved of [`SimulationSingle::advance_until`]; the
/// ensemble's trusted parallel dispatch promises exactly this predicate of
/// each member.
pub open spec fn spec_advance_contract<P: Particle>(
    m0: SimulationSingle<P>,
    m1: SimulationSingle<P>,
    t: u64,
    ok: bool,
) -> bool {
    &&& m1.particle == m0.particle
    &&& (m0.wf() ==> m1.wf())
    &&& ok == (t <= m0.time || spec_run_core(m0.particle, m0.spec_core(), t) is Some)
    &&& if t <= m0.time {
        m1.spec_core() == m0.spec_core()
    } else {
        match spec_run_core(m0.particle, m0.spec_core(), t) {
            Option::None => m1.spec_core() == m0.spec_core(),
            Option::Some(c) => m1.spec_core() == (SimCore {
                time: t,
                counter: c.counter,
                pending: c.pending,
                history: c.history,
            }),
        }
    }
}

} // verus!
