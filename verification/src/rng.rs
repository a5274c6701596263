//! Deterministic random streams for reproducible simulation.
//!
//! Every single-particle simulator owns one [`StreamRng`], so independent
//! chains draw from independent streams and a fixed master seed reproduces a
//! run exactly.  The generator is the additive-counter construction with a
//! 64-bit finalising mix: the counter advances by a fixed odd increment and
//! each output is the mixed counter, so the whole stream is a function of the
//! seed alone.
//!
//! Fresh, unpredictable seeds for the convenience constructors come from the
//! `rand` crate through [`entropy_seed`].

use vstd::prelude::*;
use vstd::wrapping::u64_specs;

verus! {

/// The odd counter increment of the stream.
pub const STREAM_INCREMENT: u64 = 0x9E37_79B9_7F4A_7C15;

/// First multiplier of the finalising mix.
pub const MIX_MUL_1: u64 = 0xBF58_476D_1CE4_E5B9;

/// Second multiplier of the finalising mix.
pub const MIX_MUL_2: u64 = 0x94D0_49BB_1331_11EB;

/// The 64-bit finalising mix applied to the counter.
pub open spec fn spec_mix64(z: u64) -> u64 {
    let a = u64_specs::wrapping_mul(z ^ (z >> 30), MIX_MUL_1);
    let b = u64_specs::wrapping_mul(a ^ (a >> 27), MIX_MUL_2);
    b ^ (b >> 31)
}

/// The counter that follows `s` in a stream.
pub open spec fn spec_stream_step(s: u64) -> u64 {
    u64_specs::wrapping_add(s, STREAM_INCREMENT)
}

/// The value drawn by a stream whose counter is `s`.
pub open spec fn spec_stream_draw(s: u64) -> u64 {
    spec_mix64(spec_stream_step(s))
}

/// A deterministic stream of 64-bit values, determined by its seed.
#[derive(Clone, Copy, Debug)]
pub struct StreamRng {
    counter: u64,
}

impl StreamRng {
    /// The current counter of the stream.
    pub closed spec fn view(&self) -> u64 {
        self.counter
    }

    /// A stream that will replay the draws determined by `seed`.
    pub fn seeded(seed: u64) -> (r: Self)
        ensures
            r@ == seed,
    {
        StreamRng { counter: seed }
    }

    /// Draws the next value of the stream and advances the counter.
    pub fn next_value(&mut self) -> (r: u64)
        ensures
            final(self)@ == spec_stream_step(old(self)@),
            r == spec_stream_draw(old(self)@),
    {
        self.counter = self.counter.wrapping_add(STREAM_INCREMENT);
        let z = self.counter;
        let a = (z ^ (z >> 30)).wrapping_mul(MIX_MUL_1);
        let b = (a ^ (a >> 27)).wrapping_mul(MIX_MUL_2);
        b ^ (b >> 31)
    }
}

/// Relies on `rand::random`: one draw from the thread-local generator of the
/// `rand` crate, used only to seed fresh streams.  Nothing is assumed about
/// the value drawn.
#[verifier::external_body]
pub fn entropy_seed() -> u64 {
    rand::random::<u64>()
}

} // verus!
