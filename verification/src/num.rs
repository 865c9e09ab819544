//! Fixed-point integer helpers: saturating sums on `i64`, the scaled
//! (milli-unit) product, and angle normalization into one turn.
use vstd::prelude::*;
use vstd::arithmetic::div_mod::lemma_fundamental_div_mod;
use vstd::arithmetic::div_mod::lemma_fundamental_div_mod_converse;
use vstd::arithmetic::div_mod::lemma_div_is_ordered;

verus! {

/// One fixed-point unit: all lengths and speeds carry three decimal digits.
pub const SCALE: i64 = 1000;

/// Milli-degrees in a full turn.
pub const FULL_TURN: i64 = 360000;

/// Largest magnitude a speed may take, in milli-units per frame.
pub const SPEED_LIMIT: i64 = 1000000000;

/// Largest entity size, in milli-units.
pub const SIZE_LIMIT: i64 = 1000000000;

/// Largest magnitude of a stored angle, in milli-degrees.
pub const ANGLE_LIMIT: i64 = 4000000000000000;

/// Largest per-frame rate, in milli-fractions (10000 = 1000 percent).
pub const RATE_LIMIT: i64 = 10000;

/// Largest sleep interval or timeout, in frames.
pub const SLEEP_LIMIT: i32 = 1000000000;

/// The sum `x`, pulled back into the `i64` range.
pub open spec fn clip64(x: int) -> int {
    if x > i64::MAX as int {
        i64::MAX as int
    } else if x < i64::MIN as int {
        i64::MIN as int
    } else {
        x
    }
}

/// The product of `a` and `b` scaled down by one fixed-point unit,
/// computed on magnitudes so that the rounding is always toward zero.
pub open spec fn scale_mul(a: int, b: int) -> int {
    let m = (if a < 0 { -a } else { a }) * (if b < 0 { -b } else { b }) / (SCALE as int);
    if (a < 0) != (b < 0) {
        -m
    } else {
        m
    }
}

/// `a` reduced to the canonical turn `[0, FULL_TURN)`.
pub open spec fn norm_spec(a: int) -> int {
    a % (FULL_TURN as int)
}

/// Saturating addition on `i64`.
pub fn sat_add(a: i64, b: i64) -> (r: i64)
    ensures
        r == clip64(a + b),
{
    if b >= 0 {
        if a > i64::MAX - b {
            i64::MAX
        } else {
            a + b
        }
    } else {
        if a < i64::MIN - b {
            i64::MIN
        } else {
            a + b
        }
    }
}

/// Saturating subtraction on `i64`.
pub fn sat_sub(a: i64, b: i64) -> (r: i64)
    ensures
        r == clip64(a - b),
{
    if b >= 0 {
        if a < i64::MIN + b {
            i64::MIN
        } else {
            a - b
        }
    } else {
        if a > i64::MAX + b {
            i64::MAX
        } else {
            a - b
        }
    }
}

/// `a` clamped into `[-bound, bound]`.
pub fn clamp_mag(a: i64, bound: i64) -> (r: i64)
    requires
        bound >= 0,
    ensures
        r == clamp_mag_spec(a as int, bound as int),
{
    if a > bound {
        bound
    } else if a < -bound {
        -bound
    } else {
        a
    }
}

/// `a` clamped into `[lo, hi]`.
pub open spec fn clamp_range_spec(a: int, lo: int, hi: int) -> int {
    if a < lo {
        lo
    } else if a > hi {
        hi
    } else {
        a
    }
}

/// `a` clamped into `[lo, hi]`.
pub fn clamp_range(a: i64, lo: i64, hi: i64) -> (r: i64)
    requires
        lo <= hi,
    ensures
        r == clamp_range_spec(a as int, lo as int, hi as int),
{
    if a < lo {
        lo
    } else if a > hi {
        hi
    } else {
        a
    }
}

/// `a` clamped into `[lo, hi]`.
pub fn clamp_range_32(a: i32, lo: i32, hi: i32) -> (r: i32)
    requires
        lo <= hi,
    ensures
        r == clamp_range_spec(a as int, lo as int, hi as int),
{
    if a < lo {
        lo
    } else if a > hi {
        hi
    } else {
        a
    }
}

/// `a` clamped into `[-bound, bound]`.
pub open spec fn clamp_mag_spec(a: int, bound: int) -> int {
    if a > bound {
        bound
    } else if a < -bound {
        -bound
    } else {
        a
    }
}

/// Scaled product, exact on the fixed-point model.
pub fn mul_scaled(a: i64, b: i64) -> (r: i64)
    requires
        -1000000 <= a <= 1000000,
        -1000000000000 <= b <= 1000000000000,
    ensures
        r == scale_mul(a as int, b as int),
        -1000000000000000 <= r <= 1000000000000000,
{
    let aa: i64 = if a < 0 { -a } else { a };
    let bb: i64 = if b < 0 { -b } else { b };
    assert(aa * bb <= 1000000000000000000) by (nonlinear_arith)
        requires
            0 <= aa <= 1000000,
            0 <= bb <= 1000000000000,
    ;
    let m: i64 = (aa * bb) / SCALE;
    proof {
        lemma_div_is_ordered(0, aa as int * bb as int, 1000);
        lemma_div_is_ordered(aa as int * bb as int, 1000000000000000000, 1000);
    }
    if (a < 0) != (b < 0) {
        -m
    } else {
        m
    }
}

/// Reduces an angle in milli-degrees to the canonical turn `[0, FULL_TURN)`.
pub fn norm_angle(a: i64) -> (r: i64)
    requires
        a > i64::MIN,
    ensures
        r == norm_spec(a as int),
        0 <= r < FULL_TURN,
{
    if a >= 0 {
        a % FULL_TURN
    } else {
        let m: i64 = (-a) % FULL_TURN;
        proof {
            lemma_fundamental_div_mod(-(a as int), FULL_TURN as int);
            if m == 0 {
                lemma_fundamental_div_mod_converse(
                    a as int,
                    FULL_TURN as int,
                    -((-(a as int)) / (FULL_TURN as int)),
                    0,
                );
            } else {
                lemma_fundamental_div_mod_converse(
                    a as int,
                    FULL_TURN as int,
                    -((-(a as int)) / (FULL_TURN as int)) - 1,
                    FULL_TURN as int - m,
                );
            }
        }
        if m == 0 {
            0
        } else {
            FULL_TURN - m
        }
    }
}

} // verus!
