//! Particle models and the Gillespie advance primitive.
//!
//! A particle model is a continuous-time Markov chain: the [`Particle`] trait
//! gives its initial state and, for every state, the list of outgoing
//! [`Event`]s.  [`advance_state`] draws one exact Gillespie step — a waiting
//! time and a next state — from that list.

mod fatiguing;
mod interfering;
mod mono_ligand;
mod multi_ligand;

pub use fatiguing::Fatiguing;
pub use fatiguing::FatiguingState;
pub use interfering::Interfering;
pub use interfering::InterferingState;
pub use mono_ligand::MonoLigand;
pub use mono_ligand::MonoLigandState;
pub use multi_ligand::MultiLigand;
pub use multi_ligand::MultiLigandState;

use vstd::prelude::*;

use crate::fixed::ExtTime;
use crate::fixed::spec_sat_add;
use crate::fixed::sat_add;
use crate::rng::StreamRng;
use crate::rng::spec_stream_draw;
use crate::rng::spec_stream_step;

verus! {

/// A transition that happens at some rate.
///
/// Rates are fixed-point numbers (see [`crate::fixed`]); being unsigned
/// integers they are non-negative and finite by construction.
#[derive(Clone, Copy, Debug)]
pub struct Event<State> {
    /// The number of times this event occurs per unit time, in fixed-point.
    pub rate: u64,

    /// The state after the transition.
    pub target: State,
}

/// A failure while advancing a chain.
#[derive(Clone, Copy, Debug, PartialEq, Eq, Structural)]
pub enum SimError {
    /// A state produced an empty event list.  Every state of a well-behaved
    /// model returns at least a zero-rate self-loop as an absorbing sentinel,
    /// so an empty list is a model bug.
    NoEvents,
}

/// A failure while constructing a model from raw parameters.
#[derive(Clone, Copy, Debug, PartialEq, Eq, Structural)]
pub enum ConstructionError {
    /// The two rate tables of a multivalent model differ in length.
    MismatchedRateTables,

    /// A rate table is too long for its entries to be counted in `u16`.
    TooManyLigands,
}

/// Particles that can report a binary "attached" reading of their state.
pub trait Attach {
    /// Whether this state counts as attached, at the specification level.
    spec fn spec_is_attached(&self) -> bool;

    /// Whether to count the particle as attached to the host.
    fn is_attached(&self) -> (r: bool)
        ensures
            r == self.spec_is_attached(),
    ;
}

/// A nano-particle model that can be simulated by [`crate::simulation`].
///
/// The model is a value-typed parameter bundle; its associated `State` type
/// is a small copyable record.  The two spec functions `spec_initial` and
/// `spec_events` fix the transition relation exactly, so `events` is
/// deterministic by contract: two calls on the same state yield the same
/// rates and targets.
pub trait Particle: Sized {
    /// The state the particle can be in.
    type State: Copy;

    /// Whether the model's parameters are well-formed.
    spec fn wf(&self) -> bool;

    /// Whether `s` is a state this model can meaningfully evaluate.
    spec fn valid_state(&self, s: Self::State) -> bool;

    /// The canonical starting state.
    spec fn spec_initial(&self) -> Self::State;

    /// The outgoing transitions of `s` with their rates.
    spec fn spec_events(&self, s: Self::State) -> Seq<Event<Self::State>>;

    /// Creates the initial state for the particle.
    fn new_state(&self) -> (s: Self::State)
        requires
            self.wf(),
        ensures
            s == self.spec_initial(),
    ;

    /// Returns the possible events that can happen to the particle in the
    /// given state.
    fn events(&self, state: &Self::State) -> (evs: Vec<Event<Self::State>>)
        requires
            self.wf(),
            self.valid_state(*state),
        ensures
            evs@ == self.spec_events(*state),
    ;

    /// Law: the initial state is valid.
    proof fn lemma_initial_valid(&self)
        requires
            self.wf(),
        ensures
            self.valid_state(self.spec_initial()),
    ;

    /// An operational copy of the model, used to hand each ensemble member
    /// its own model value.
    ///
    /// The copy need not be spec-equal to the original (a cloned rate table
    /// is a fresh vector), but it must behave identically; the clauses below
    /// are collected in [`spec_matches`].
    fn duplicate(&self) -> (r: Self)
        ensures
            r.wf() == self.wf(),
            r.spec_initial() == self.spec_initial(),
            forall|s: Self::State| #![trigger r.valid_state(s)] #![trigger self.valid_state(s)]
                r.valid_state(s) == self.valid_state(s),
            forall|s: Self::State| #![trigger r.spec_events(s)] #![trigger self.spec_events(s)]
                r.spec_events(s) == self.spec_events(s),
    ;

    /// Law: every event with a positive rate leads to a valid state.
    ///
    /// Zero-rate events are exempt: they are never selected by the sampler,
    /// so a model may emit them with out-of-range targets (as the saturated
    /// binding events of the multivalent models do).
    proof fn lemma_events_valid(&self, s: Self::State)
        requires
            self.wf(),
            self.valid_state(s),
        ensures
            forall|i: int|
                0 <= i < self.spec_events(s).len()
                    && (#[trigger] self.spec_events(s)[i]).rate > 0
                    ==> self.valid_state(self.spec_events(s)[i].target),
    ;
}

/// Whether two models of the same kind behave identically: same
/// well-formedness, same valid states, same initial state, and the same
/// events with the same rates out of every state.
///
/// Every observable of a simulation is determined by the model only through
/// these four functions, so a simulation cannot distinguish matching models.
pub open spec fn spec_matches<P: Particle>(a: P, b: P) -> bool {
    &&& a.wf() == b.wf()
    &&& a.spec_initial() == b.spec_initial()
    &&& forall|s: P::State| #![trigger a.valid_state(s)] #![trigger b.valid_state(s)]
        a.valid_state(s) == b.valid_state(s)
    &&& forall|s: P::State| #![trigger a.spec_events(s)] #![trigger b.spec_events(s)]
        a.spec_events(s) == b.spec_events(s)
}

/// The total outgoing rate of an event list, saturating at `u64::MAX`.
pub open spec fn spec_total_rate<S>(evs: Seq<Event<S>>) -> u64
    decreases evs.len(),
{
    if evs.len() == 0 {
        0
    } else {
        spec_sat_add(spec_total_rate(evs.drop_last()), evs.last().rate)
    }
}

/// The exact total outgoing rate of an event list, as an unbounded integer.
pub open spec fn spec_exact_total<S>(evs: Seq<Event<S>>) -> int
    decreases evs.len(),
{
    if evs.len() == 0 {
        0
    } else {
        spec_exact_total(evs.drop_last()) + evs.last().rate
    }
}

/// The saturating total is the exact total clamped into `u64`; in
/// particular the two vanish together.
pub proof fn lemma_total_rate_exact<S>(evs: Seq<Event<S>>)
    ensures
        spec_total_rate(evs) == crate::fixed::spec_sat64(spec_exact_total(evs)),
        spec_exact_total(evs) >= 0,
    decreases evs.len(),
{
    if evs.len() > 0 {
        lemma_total_rate_exact(evs.drop_last());
    }
}

/// The index picked by cumulative-rate selection with threshold `t`,
/// scanning from index `k` with the rates before `k` already summed in
/// `cum`: the first index whose (saturating) cumulative rate exceeds `t`,
/// or the list length if none does.
pub open spec fn spec_select_from<S>(evs: Seq<Event<S>>, t: u64, cum: u64, k: int) -> int
    decreases evs.len() - k,
{
    if k < 0 || k >= evs.len() {
        evs.len() as int
    } else {
        let c = spec_sat_add(cum, evs[k].rate);
        if c > t {
            k
        } else {
            spec_select_from(evs, t, c, k + 1)
        }
    }
}

/// The event index picked by a selection threshold `t`: the first index
/// whose cumulative rate strictly exceeds `t`.
///
/// The strict comparison means a zero-rate event can never be picked, since
/// it leaves the cumulative rate unchanged.
pub open spec fn spec_select<S>(evs: Seq<Event<S>>, t: u64) -> int {
    spec_select_from(evs, t, 0, 0)
}

proof fn lemma_select_from_found<S>(evs: Seq<Event<S>>, t: u64, cum: u64, k: int)
    requires
        0 <= k <= evs.len(),
        cum == spec_total_rate(evs.take(k)),
        cum <= t,
        t < spec_total_rate(evs),
    ensures
        k <= spec_select_from(evs, t, cum, k) < evs.len(),
        evs[spec_select_from(evs, t, cum, k)].rate > 0,
    decreases evs.len() - k,
{
    assert(evs.take(evs.len() as int) =~= evs);
    if k == evs.len() {
        assert(false);
    } else {
        assert(evs.take(k + 1).drop_last() =~= evs.take(k));
        assert(evs.take(k + 1).last() == evs[k]);
        let c = spec_sat_add(cum, evs[k].rate);
        if c > t {
            assert(evs[k].rate > 0);
        } else {
            lemma_select_from_found(evs, t, c, k + 1);
        }
    }
}

/// When the threshold lies below the total rate, selection always finds an
/// event, and the event it finds has a positive rate.
pub proof fn lemma_select_found<S>(evs: Seq<Event<S>>, t: u64)
    requires
        t < spec_total_rate(evs),
    ensures
        0 <= spec_select(evs, t) < evs.len(),
        evs[spec_select(evs, t)].rate > 0,
{
    assert(evs.take(0) =~= Seq::<Event<S>>::empty());
    lemma_select_from_found(evs, t, 0, 0);
}

/// Computes the saturating total rate of an event list.
pub fn total_rate<S>(evs: &Vec<Event<S>>) -> (r: u64)
    ensures
        r == spec_total_rate(evs@),
{
    let mut acc: u64 = 0;
    let mut i: usize = 0;
    while i < evs.len()
        invariant
            i <= evs.len(),
            acc == spec_total_rate(evs@.take(i as int)),
        decreases evs.len() - i,
    {
        proof {
            assert(evs@.take(i + 1).drop_last() =~= evs@.take(i as int));
            assert(evs@.take(i + 1).last() == evs@[i as int]);
        }
        acc = sat_add(acc, evs[i].rate);
        i = i + 1;
    }
    proof {
        assert(evs@.take(evs@.len() as int) =~= evs@);
    }
    acc
}

/// A transition probability as an exact ratio: the event's rate over the
/// total outgoing rate of the state.
#[derive(Clone, Copy, Debug, PartialEq, Eq, Structural)]
pub struct Probability {
    /// The numerator: the event's rate.
    pub num: u64,

    /// The denominator: the exact total rate of all the state's events.
    pub den: u128,
}

/// The sum of the numerators of a probability list.
pub open spec fn spec_prob_num_sum<S>(probs: Seq<(S, Probability)>) -> int
    decreases probs.len(),
{
    if probs.len() == 0 {
        0
    } else {
        spec_prob_num_sum(probs.drop_last()) + probs.last().1.num
    }
}

/// A list of probabilities for each possible next state of a particle.
///
/// Each entry pairs a target state with its probability `rate / total`,
/// as an exact ratio.  A state that is not in the list has probability
/// zero.  For a terminal state — total rate zero — the list is empty.
pub fn event_probabilities<P: Particle>(particle: &P, state: &P::State) -> (r: Vec<
    (P::State, Probability),
>)
    requires
        particle.wf(),
        particle.valid_state(*state),
    ensures
        ({
            let evs = particle.spec_events(*state);
            let total = spec_exact_total(evs);
            &&& (total == 0 ==> r@.len() == 0)
            &&& (total > 0 ==> r@.len() == evs.len() && (forall|i: int|
                0 <= i < evs.len() ==> (#[trigger] r@[i]).0 == evs[i].target && r@[i].1.num
                    == evs[i].rate && r@[i].1.den == total))
        }),
{
    let evs = particle.events(state);
    proof {
        lemma_total_rate_exact(evs@);
    }
    let mut total: u128 = 0;
    let mut i: usize = 0;
    while i < evs.len()
        invariant
            i <= evs@.len(),
            total == spec_exact_total(evs@.take(i as int)),
            total <= i * (u64::MAX as int),
        decreases evs@.len() - i,
    {
        proof {
            assert(evs@.take(i + 1).drop_last() =~= evs@.take(i as int));
            assert(evs@.take(i + 1).last() == evs@[i as int]);
            assert(i * (u64::MAX as int) + u64::MAX == (i + 1) * (u64::MAX as int))
                by (nonlinear_arith);
            assert((i + 1) * (u64::MAX as int) <= usize::MAX * (u64::MAX as int))
                by (nonlinear_arith)
                requires
                    i + 1 <= usize::MAX,
            ;
        }
        total = total + evs[i].rate as u128;
        i = i + 1;
    }
    proof {
        assert(evs@.take(evs@.len() as int) =~= evs@);
    }
    if total == 0 {
        return Vec::new();
    }
    let mut r: Vec<(P::State, Probability)> = Vec::new();
    let mut i: usize = 0;
    while i < evs.len()
        invariant
            i <= evs@.len(),
            r@.len() == i,
            total == spec_exact_total(evs@),
            forall|k: int|
                0 <= k < i ==> (#[trigger] r@[k]).0 == evs@[k].target && r@[k].1.num
                    == evs@[k].rate && r@[k].1.den == total,
        decreases evs@.len() - i,
    {
        r.push((evs[i].target, Probability { num: evs[i].rate, den: total }));
        i = i + 1;
    }
    r
}

/// Law: probability normalisation.  When the numerators of a probability
/// list are the rates of an event list and the denominators are that
/// list's exact total rate, the probabilities sum to exactly one: the sum
/// of the numerators equals the common denominator.
pub proof fn lemma_probability_normalised<S>(probs: Seq<(S, Probability)>, evs: Seq<Event<S>>)
    requires
        probs.len() == evs.len(),
        forall|i: int| 0 <= i < probs.len() ==> (#[trigger] probs[i]).1.num == evs[i].rate,
    ensures
        spec_prob_num_sum(probs) == spec_exact_total(evs),
    decreases probs.len(),
{
    if probs.len() > 0 {
        assert(forall|i: int|
            0 <= i < probs.len() - 1 ==> (#[trigger] probs.drop_last()[i]) == probs[i]);
        lemma_probability_normalised(probs.drop_last(), evs.drop_last());
    }
}

/// Picks the event whose cumulative rate first exceeds the threshold `t`.
fn select_event<S>(evs: &Vec<Event<S>>, t: u64) -> (k: usize)
    requires
        t < spec_total_rate(evs@),
    ensures
        k as int == spec_select(evs@, t),
        k < evs@.len(),
        evs@[k as int].rate > 0,
{
    let mut cum: u64 = 0;
    let mut k: usize = 0;
    proof {
        assert(evs@.take(0) =~= Seq::<Event<S>>::empty());
    }
    while k < evs.len()
        invariant
            0 <= k <= evs@.len(),
            cum == spec_total_rate(evs@.take(k as int)),
            cum <= t,
            t < spec_total_rate(evs@),
            spec_select_from(evs@, t, cum, k as int) == spec_select(evs@, t),
        decreases evs@.len() - k,
    {
        proof {
            assert(evs@.take(k + 1).drop_last() =~= evs@.take(k as int));
            assert(evs@.take(k + 1).last() == evs@[k as int]);
        }
        let c = sat_add(cum, evs[k].rate);
        if c > t {
            return k;
        }
        cum = c;
        k = k + 1;
    }
    proof {
        assert(evs@.take(evs@.len() as int) =~= evs@);
        assert(false);
    }
    0
}

/// The floor of the base-two logarithm, by repeated halving.
pub open spec fn spec_floor_log2(j: u64) -> nat
    decreases j,
{
    if j <= 1 {
        0
    } else {
        1 + spec_floor_log2(j / 2)
    }
}

/// Computes the floor of the base-two logarithm of a positive number.
fn floor_log2(j: u64) -> (k: u32)
    requires
        j >= 1,
    ensures
        k as nat == spec_floor_log2(j),
        k <= 63,
{
    let mut x: u64 = j;
    let mut k: u32 = 0;
    proof {
        vstd::arithmetic::power2::lemma2_to64();
    }
    while x > 1
        invariant
            1 <= x,
            spec_floor_log2(j) == k + spec_floor_log2(x),
            x as nat * vstd::arithmetic::power2::pow2(k as nat) <= j as nat,
        decreases x,
    {
        proof {
            vstd::arithmetic::power2::lemma2_to64();
            vstd::arithmetic::power2::lemma2_to64_rest();
            vstd::arithmetic::power2::lemma_pow2_unfold((k + 1) as nat);
            if k as nat + 1 >= 64 {
                if k as nat + 1 > 64 {
                    vstd::arithmetic::power2::lemma_pow2_strictly_increases(
                        64,
                        (k + 1) as nat,
                    );
                }
                assert((x / 2) as nat * vstd::arithmetic::power2::pow2((k + 1) as nat)
                    >= vstd::arithmetic::power2::pow2(64)) by (nonlinear_arith)
                    requires
                        x >= 2,
                        vstd::arithmetic::power2::pow2((k + 1) as nat)
                            >= vstd::arithmetic::power2::pow2(64),
                ;
            }
            assert((x / 2) as nat * vstd::arithmetic::power2::pow2((k + 1) as nat)
                <= x as nat * vstd::arithmetic::power2::pow2(k as nat)) by (nonlinear_arith)
                requires
                    x >= 2,
                    vstd::arithmetic::power2::pow2((k + 1) as nat)
                        == 2 * vstd::arithmetic::power2::pow2(k as nat),
            ;
        }
        x = x / 2;
        k = k + 1;
    }
    proof {
        vstd::arithmetic::power2::lemma2_to64();
        vstd::arithmetic::power2::lemma2_to64_rest();
        if k > 63 {
            if k > 64 {
                vstd::arithmetic::power2::lemma_pow2_strictly_increases(64, k as nat);
            }
            assert(false);
        }
    }
    k
}

/// The waiting time, in ticks, drawn from the uniform sample `j` against a
/// positive total rate: an integer form of `-log2(u) / rate`, never zero.
///
/// A zero sample stands for a waiting time beyond every representable
/// time, exactly as `-log2(0)` is infinite.
pub open spec fn spec_waiting(j: u64, total: u64) -> ExtTime {
    if j == 0 {
        ExtTime::Never
    } else {
        let lg = spec_floor_log2(j);
        let l: int = if lg >= 64 {
            1
        } else {
            64 - lg
        };
        let raw = crate::fixed::spec_sat64(l * 0x1_0000_0000_0000_0000 / (total as int));
        ExtTime::Finite(
            if raw == 0 {
                1
            } else {
                raw
            },
        )
    }
}

/// Draws the waiting time for one Gillespie step.
fn waiting_time(j: u64, total: u64) -> (r: ExtTime)
    requires
        total >= 1,
    ensures
        r == spec_waiting(j, total),
{
    if j == 0 {
        return ExtTime::Never;
    }
    let lg = floor_log2(j);
    let l: u128 = (64 - lg) as u128;
    let num: u128 = l * 0x1_0000_0000_0000_0000u128;
    let raw: u128 = num / (total as u128);
    let w: u64 = if raw > u64::MAX as u128 {
        u64::MAX
    } else {
        raw as u64
    };
    ExtTime::Finite(
        if w == 0 {
            1
        } else {
            w
        },
    )
}

/// The selection threshold drawn from the uniform sample `j`: the integer
/// form of `u * total` with `u` uniform on `[0, 1)`.
pub open spec fn spec_threshold(j: u64, total: u64) -> u64 {
    (j * total / 0x1_0000_0000_0000_0000) as u64
}

/// The threshold always lies strictly below a positive total rate, so
/// selection always succeeds.
pub proof fn lemma_threshold_lt(j: u64, total: u64)
    requires
        total >= 1,
    ensures
        spec_threshold(j, total) < total,
{
    assert(j * total / 0x1_0000_0000_0000_0000 < total) by (nonlinear_arith)
        requires
            j <= 0xFFFF_FFFF_FFFF_FFFFu64,
            total >= 1,
    ;
}

/// Computes the selection threshold for one Gillespie step.
fn threshold(j: u64, total: u64) -> (r: u64)
    requires
        total >= 1,
    ensures
        r == spec_threshold(j, total),
        r < total,
{
    proof {
        assert(j * total <= u64::MAX * u64::MAX) by (nonlinear_arith)
            requires
                j <= u64::MAX,
                total <= u64::MAX,
        ;
        lemma_threshold_lt(j, total);
    }
    let p: u128 = (j as u128) * (total as u128);
    (p / 0x1_0000_0000_0000_0000u128) as u64
}

/// One Gillespie step from state `s` with the stream counter at `c`: the
/// drawn `(next state, waiting time)` outcome (or the empty-event failure)
/// together with the stream counter after the step.
///
/// An absorbing state — total rate zero — consumes no draws and yields the
/// state unchanged with an infinite waiting time.
///
/// Opaque so that its callers reason through [`advance_state`]'s contract
/// rather than by unfolding the whole sampler; reveal it where the
/// definition itself is needed.
#[verifier::opaque]
pub open spec fn spec_advance_state<P: Particle>(p: P, s: P::State, c: u64) -> (Result<
    (P::State, ExtTime),
    SimError,
>, u64) {
    let evs = p.spec_events(s);
    if evs.len() == 0 {
        (Err(SimError::NoEvents), c)
    } else {
        let total = spec_total_rate(evs);
        if total == 0 {
            (Ok((s, ExtTime::Never)), c)
        } else {
            let j1 = spec_stream_draw(c);
            let c1 = spec_stream_step(c);
            let j2 = spec_stream_draw(c1);
            let c2 = spec_stream_step(c1);
            let delta = spec_waiting(j1, total);
            let t = spec_threshold(j2, total);
            let k = spec_select(evs, t);
            (Ok((evs[k].target, delta)), c2)
        }
    }
}

/// Advances the state of a particle by one transition, returning the next
/// state and the waiting time spent before entering it.
///
/// The outcome is a deterministic function of the particle, the state and
/// the stream counter, which is what makes runs reproducible from a seed.
pub fn advance_state<P: Particle>(
    particle: &P,
    state: &P::State,
    rng: &mut StreamRng,
) -> (r: Result<(P::State, ExtTime), SimError>)
    requires
        particle.wf(),
        particle.valid_state(*state),
    ensures
        ({
            let (res, c2) = spec_advance_state(*particle, *state, old(rng)@);
            r == res && final(rng)@ == c2
        }),
        r is Err <==> particle.spec_events(*state).len() == 0,
        r matches Ok(sd) ==> particle.valid_state(sd.0),
        r matches Ok(sd) ==> (sd.1 matches ExtTime::Finite(dt) ==> dt >= 1),
        spec_total_rate(particle.spec_events(*state)) == 0 && particle.spec_events(
            *state,
        ).len() > 0 ==> r == Ok::<(P::State, ExtTime), SimError>((*state, ExtTime::Never)),
{
    proof {
        reveal(spec_advance_state);
    }
    let evs = particle.events(state);
    if evs.len() == 0 {
        return Err(SimError::NoEvents);
    }
    let total = total_rate(&evs);
    if total == 0 {
        return Ok((*state, ExtTime::Never));
    }
    let j1 = rng.next_value();
    let j2 = rng.next_value();
    let delta = waiting_time(j1, total);
    let t = threshold(j2, total);
    proof {
        lemma_select_found(evs@, t);
        particle.lemma_events_valid(*state);
    }
    let k = select_event(&evs, t);
    Ok((evs[k].target, delta))
}

} // verus!
