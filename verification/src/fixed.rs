//! Saturating fixed-point arithmetic for rates and times.
//!
//! Every rate and every simulated time in this crate is an unsigned
//! fixed-point number: a `u64` counting multiples of `1 / SCALE`.  The value
//! one is represented by [`SCALE`] itself.  Products saturate at `u64::MAX`,
//! so all operations are total and every contract is an exact statement
//! about integers.

use vstd::prelude::*;

verus! {

/// Number of fixed-point units that represent the value one.
pub const SCALE: u64 = 0x1_0000_0000;

/// Clamps a mathematical integer into the `u64` range from above.
pub open spec fn spec_sat64(x: int) -> u64 {
    if x > u64::MAX {
        u64::MAX
    } else {
        x as u64
    }
}

/// Product of two fixed-point numbers, saturating at `u64::MAX`.
pub open spec fn spec_fp_mul(a: u64, b: u64) -> u64 {
    spec_sat64(a * b / (SCALE as int))
}

/// Product of an event count and a fixed-point rate, saturating at `u64::MAX`.
pub open spec fn spec_count_mul(n: u16, a: u64) -> u64 {
    spec_sat64(n * a)
}

/// `base` raised to the `n`-th power in fixed-point, saturating at `u64::MAX`.
pub open spec fn spec_fp_pow(base: u64, n: nat) -> u64
    decreases n,
{
    if n == 0 {
        SCALE
    } else {
        spec_fp_mul(base, spec_fp_pow(base, (n - 1) as nat))
    }
}

/// Sum of two fixed-point numbers, saturating at `u64::MAX`.
pub open spec fn spec_sat_add(a: u64, b: u64) -> u64 {
    spec_sat64(a + b)
}

/// Fixed-point multiplication.
pub fn fp_mul(a: u64, b: u64) -> (r: u64)
    ensures
        r == spec_fp_mul(a, b),
{
    proof {
        assert(a * b <= u64::MAX * u64::MAX) by (nonlinear_arith)
            requires
                a <= u64::MAX,
                b <= u64::MAX,
        ;
    }
    let p: u128 = (a as u128) * (b as u128);
    let q: u128 = p / (SCALE as u128);
    if q > u64::MAX as u128 {
        u64::MAX
    } else {
        q as u64
    }
}

/// Multiplication of an event count by a fixed-point rate.
pub fn count_mul(n: u16, a: u64) -> (r: u64)
    ensures
        r == spec_count_mul(n, a),
{
    proof {
        assert(n * a <= u16::MAX * u64::MAX) by (nonlinear_arith)
            requires
                n <= u16::MAX,
                a <= u64::MAX,
        ;
    }
    let p: u128 = (n as u128) * (a as u128);
    if p > u64::MAX as u128 {
        u64::MAX
    } else {
        p as u64
    }
}

/// Fixed-point exponentiation by an integer exponent.
pub fn fp_pow(base: u64, n: u16) -> (r: u64)
    ensures
        r == spec_fp_pow(base, n as nat),
{
    let mut acc: u64 = SCALE;
    let mut i: u16 = 0;
    while i < n
        invariant
            i <= n,
            acc == spec_fp_pow(base, i as nat),
        decreases n - i,
    {
        acc = fp_mul(base, acc);
        i = i + 1;
    }
    acc
}

/// Saturating addition of fixed-point numbers.
pub fn sat_add(a: u64, b: u64) -> (r: u64)
    ensures
        r == spec_sat_add(a, b),
{
    match a.checked_add(b) {
        Some(s) => s,
        None => u64::MAX,
    }
}

/// A point on the extended time axis: either a tick count, or beyond every
/// representable time.
///
/// `Never` stands both for a transition out of an absorbing state, which is
/// scheduled at infinity, and for a transition that falls past the largest
/// representable tick; neither can occur before any `u64` target time.
#[derive(Clone, Copy, Debug, PartialEq, Eq, Structural)]
pub enum ExtTime {
    /// A finite time, in ticks of `1 / SCALE`.
    Finite(u64),
    /// Later than every representable time.
    Never,
}

/// Whether the extended time `e` falls at or before the finite time `t`.
pub open spec fn spec_ext_due(e: ExtTime, t: u64) -> bool {
    match e {
        ExtTime::Finite(p) => p <= t,
        ExtTime::Never => false,
    }
}

/// Whether the extended time `e` falls strictly after the finite time `t`.
pub open spec fn spec_ext_after(e: ExtTime, t: u64) -> bool {
    match e {
        ExtTime::Finite(p) => p > t,
        ExtTime::Never => true,
    }
}

/// The finite time `t` shifted by the extended delay `d`; a shift past
/// `u64::MAX` falls off the representable axis.
pub open spec fn spec_ext_add(t: u64, d: ExtTime) -> ExtTime {
    match d {
        ExtTime::Finite(dt) => if t + dt > u64::MAX {
            ExtTime::Never
        } else {
            ExtTime::Finite((t + dt) as u64)
        },
        ExtTime::Never => ExtTime::Never,
    }
}

/// Shifts a finite time by an extended delay.
pub fn ext_add(t: u64, d: ExtTime) -> (r: ExtTime)
    ensures
        r == spec_ext_add(t, d),
{
    match d {
        ExtTime::Finite(dt) => match t.checked_add(dt) {
            Some(s) => ExtTime::Finite(s),
            None => ExtTime::Never,
        },
        ExtTime::Never => ExtTime::Never,
    }
}

} // verus!
