//! IEEE-754 binary64 numbers, held by their bit patterns.
//!
//! A pattern is a `u64`: one sign bit, eleven exponent bits, fifty-two
//! fraction bits. The model below gives every pattern that is not a NaN an
//! exact integer, its value in units of 2^-1074 (the smallest subnormal), so
//! that order and distance between numbers can be stated without rounding.

use vstd::prelude::*;
use vstd::arithmetic::div_mod::lemma_fundamental_div_mod_converse;
use vstd::arithmetic::power2::{
    lemma_pow2_adds, lemma_pow2_pos, lemma_pow2_strictly_increases, lemma_pow2_unfold, pow2,
};

verus! {

/// The sign bit.
pub const SIGN_BIT: u64 = 0x8000_0000_0000_0000;

/// The weight of the lowest exponent bit, which is also the leading
/// significand bit that normal numbers leave unwritten.
pub const HIDDEN_BIT: u64 = 0x0010_0000_0000_0000;

/// Positive infinity. Patterns whose lower 63 bits exceed it are NaNs.
pub const INFINITY: u64 = 0x7FF0_0000_0000_0000;

/// Positive zero.
pub const ZERO: u64 = 0;

/// The number one.
pub const ONE: u64 = 0x3FF0_0000_0000_0000;

/// Whether the sign bit is set.
pub open spec fn negative(x: u64) -> bool {
    x >= SIGN_BIT
}

/// The pattern with its sign bit cleared.
pub open spec fn unsigned(x: u64) -> u64 {
    if x >= SIGN_BIT {
        (x - SIGN_BIT) as u64
    } else {
        x
    }
}

/// Whether the pattern is a NaN.
pub open spec fn nan(x: u64) -> bool {
    unsigned(x) > INFINITY
}

/// The biased exponent, from 0 to 2047.
pub open spec fn exponent_field(x: u64) -> nat {
    (unsigned(x) / HIDDEN_BIT) as nat
}

/// The fraction, below 2^52.
pub open spec fn fraction_field(x: u64) -> nat {
    (unsigned(x) % HIDDEN_BIT) as nat
}

/// The absolute value in units of 2^-1074.
///
/// Subnormals (exponent field 0) are their fraction. Normal numbers are the
/// fraction with the hidden bit in front, scaled by two to the exponent
/// field less one. The same formula puts infinity at 2^2098, above every
/// finite number, which is all that comparisons need of it.
pub open spec fn magnitude(x: u64) -> nat {
    if exponent_field(x) == 0 {
        fraction_field(x)
    } else {
        (HIDDEN_BIT as nat + fraction_field(x)) * pow2((exponent_field(x) - 1) as nat)
    }
}

/// The signed value in units of 2^-1074. Meaningful for patterns that are
/// not NaNs; both zeros have value 0.
pub open spec fn value(x: u64) -> int {
    if negative(x) {
        -(magnitude(x) as int)
    } else {
        magnitude(x) as int
    }
}

/// `a < b` as IEEE-754 defines it: false when either side is a NaN,
/// otherwise the order of the values.
pub open spec fn lt(a: u64, b: u64) -> bool {
    !nan(a) && !nan(b) && value(a) < value(b)
}

/// `x > 0`: neither a NaN, nor a zero, nor negative.
pub open spec fn positive(x: u64) -> bool {
    lt(ZERO, x)
}

/// A number below the next power of two: its magnitude is less than the
/// least magnitude of the next exponent.
proof fn lemma_magnitude_below_next_exponent(x: u64)
    ensures
        magnitude(x) < HIDDEN_BIT * pow2(exponent_field(x)),
{
    let e = exponent_field(x);
    let f = fraction_field(x);
    if e == 0 {
        assert(pow2(0) == 1) by {
            vstd::arithmetic::power2::lemma2_to64();
        }
    } else {
        let p = pow2((e - 1) as nat);
        lemma_pow2_pos((e - 1) as nat);
        lemma_pow2_unfold(e);
        assert(pow2(e) == 2 * p);
        assert((HIDDEN_BIT + f) * p < HIDDEN_BIT * (2 * p)) by (nonlinear_arith)
            requires
                f < HIDDEN_BIT,
                p > 0,
        ;
    }
}

/// A normal number is at least the least magnitude of its exponent.
proof fn lemma_magnitude_at_least_exponent(x: u64)
    requires
        exponent_field(x) > 0,
    ensures
        magnitude(x) >= HIDDEN_BIT * pow2((exponent_field(x) - 1) as nat),
{
    let f = fraction_field(x);
    let p = pow2((exponent_field(x) - 1) as nat);
    assert((HIDDEN_BIT + f) * p >= HIDDEN_BIT * p) by (nonlinear_arith)
        requires
            f >= 0,
            p >= 0,
    ;
}

proof fn lemma_magnitude_increases(a: u64, b: u64)
    requires
        unsigned(a) < unsigned(b),
    ensures
        magnitude(a) < magnitude(b),
{
    let ea = exponent_field(a);
    let eb = exponent_field(b);
    let fa = fraction_field(a);
    let fb = fraction_field(b);
    if ea == eb {
        if ea != 0 {
            let p = pow2((ea - 1) as nat);
            lemma_pow2_pos((ea - 1) as nat);
            assert((HIDDEN_BIT + fa) * p < (HIDDEN_BIT + fb) * p) by (nonlinear_arith)
                requires
                    fa < fb,
                    p > 0,
            ;
        }
    } else {
        assert(ea < eb);
        lemma_magnitude_below_next_exponent(a);
        lemma_magnitude_at_least_exponent(b);
        let low = pow2(ea);
        let high = pow2((eb - 1) as nat);
        if ea < eb - 1 {
            lemma_pow2_strictly_increases(ea, (eb - 1) as nat);
        }
        assert(HIDDEN_BIT * low <= HIDDEN_BIT * high) by (nonlinear_arith)
            requires
                low <= high,
        ;
    }
}

/// Among patterns of one sign, the order of the patterns is the order of the
/// magnitudes they stand for, and equal magnitudes mean equal patterns.
pub proof fn lemma_magnitude_order(a: u64, b: u64)
    ensures
        unsigned(a) < unsigned(b) <==> magnitude(a) < magnitude(b),
        unsigned(a) == unsigned(b) <==> magnitude(a) == magnitude(b),
{
    if unsigned(a) < unsigned(b) {
        lemma_magnitude_increases(a, b);
    } else if unsigned(b) < unsigned(a) {
        lemma_magnitude_increases(b, a);
    }
}

/// The magnitude of a normal number with exponent field `e` and fraction
/// `f`, written over a smaller power of two: `e - 1` split into `shift` and
/// `unit`.
pub proof fn lemma_magnitude_in_units(x: u64, e: nat, f: nat, shift: nat, unit: nat)
    requires
        unsigned(x) == e * HIDDEN_BIT + f,
        f < HIDDEN_BIT,
        e >= 1,
        e - 1 == shift + unit,
    ensures
        magnitude(x) == (HIDDEN_BIT + f) * pow2(shift) * pow2(unit),
{
    assert(exponent_field(x) == e && fraction_field(x) == f) by {
        lemma_fundamental_div_mod_converse(unsigned(x) as int, HIDDEN_BIT as int, e as int, f as int);
    }
    lemma_pow2_adds(shift, unit);
    let s = pow2(shift);
    let u = pow2(unit);
    let m = HIDDEN_BIT + f;
    assert(m * (s * u) == m * s * u) by (nonlinear_arith);
}

/// Only the two zeros have magnitude 0.
pub proof fn lemma_magnitude_zero(x: u64)
    ensures
        magnitude(x) == 0 <==> unsigned(x) == 0,
{
    lemma_magnitude_order(ZERO, x);
}

/// The pattern `ONE` stands for the number one: 2^1074 units of 2^-1074.
pub proof fn lemma_one()
    ensures
        value(ONE) == pow2(1074),
{
    lemma_magnitude_in_units(ONE, 1023, 0, 52, 970);
    lemma_pow2_adds(52, 970);
    lemma_pow2_adds(52, 1022);
    assert(pow2(52) == HIDDEN_BIT) by {
        vstd::arithmetic::power2::lemma2_to64_rest();
    }
}

/// Numbers that are neither negative nor NaNs are ordered as their patterns
/// are.
pub proof fn lemma_order_of_nonnegative(a: u64, b: u64)
    requires
        a <= INFINITY,
        b <= INFINITY,
    ensures
        lt(a, b) <==> a < b,
        positive(a) <==> a > 0,
{
    lemma_magnitude_order(a, b);
    lemma_magnitude_zero(a);
}

/// Clears the sign bit.
pub fn clear_sign(x: u64) -> (r: u64)
    ensures
        r == unsigned(x),
{
    if x >= SIGN_BIT {
        x - SIGN_BIT
    } else {
        x
    }
}

/// Tells whether the pattern is a NaN.
pub fn is_nan(x: u64) -> (r: bool)
    ensures
        r == nan(x),
{
    clear_sign(x) > INFINITY
}

/// Compares two numbers as the hardware's `<` does.
pub fn less_than(a: u64, b: u64) -> (r: bool)
    ensures
        r == lt(a, b),
{
    let ma = clear_sign(a);
    let mb = clear_sign(b);
    if ma > INFINITY || mb > INFINITY {
        return false;
    }
    proof {
        lemma_magnitude_order(a, b);
        lemma_magnitude_zero(a);
        lemma_magnitude_zero(b);
    }
    if a >= SIGN_BIT {
        if b >= SIGN_BIT {
            mb < ma
        } else {
            ma != 0 || mb != 0
        }
    } else {
        if b >= SIGN_BIT {
            false
        } else {
            ma < mb
        }
    }
}

/// Whether a number is a probability: from zero to one, both included.
pub open spec fn probability(x: u64) -> bool {
    !nan(x) && 0 <= value(x) <= value(ONE)
}

/// Tells whether a number is a probability.
pub fn is_probability(x: u64) -> (r: bool)
    ensures
        r == probability(x),
{
    proof {
        lemma_magnitude_order(x, ONE);
        lemma_magnitude_zero(x);
    }
    x <= ONE || x == SIGN_BIT
}

/// Tells whether the number is greater than zero.
pub fn is_positive(x: u64) -> (r: bool)
    ensures
        r == positive(x),
{
    proof {
        lemma_magnitude_zero(x);
    }
    0 < x && x <= INFINITY
}

} // verus!
