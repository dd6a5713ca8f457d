//! Colours, and the rule that tells the light from every other sphere.

use vstd::prelude::*;
use vstd::arithmetic::power2::{lemma2_to64, lemma_pow2_pos, pow2};
use crate::scalar::{
    lemma_magnitude_in_units, lemma_magnitude_order, magnitude, nan, value, ONE, ZERO,
};

verus! {

/// How far a channel may lie from one and still count as white: the binary64
/// nearest to 0.001.
pub const TOLERANCE: u64 = 0x3F50_624D_D2F1_A9FC;

/// The largest number below one whose distance from one is not less than the
/// tolerance.
const NEAR_ONE_FLOOR: u64 = 0x3FEF_F7CE_D916_872B;

/// The smallest number above one whose distance from one is not less than the
/// tolerance.
const NEAR_ONE_CEILING: u64 = 0x3FF0_0418_9374_BC6B;

/// Whether a number lies within the tolerance of one: `|c - 1| < 0.001`,
/// taken over exact values.
pub open spec fn near_one(c: u64) -> bool {
    !nan(c) && -value(TOLERANCE) < value(c) - value(ONE) < value(TOLERANCE)
}

/// The magnitudes of the numbers that bound the interval around one, written
/// over one common unit, the 1012th power of two.
proof fn lemma_interval_bounds()
    ensures
        magnitude(ONE) == 0x4000_0000_0000_0000 * pow2(1012),
        magnitude(TOLERANCE) == 0x0010_624D_D2F1_A9FC * pow2(1012),
        magnitude(NEAR_ONE_FLOOR) == 0x3FEF_9DB2_2D0E_5600 * pow2(1012),
        magnitude((NEAR_ONE_FLOOR + 1) as u64) == 0x3FEF_9DB2_2D0E_5800 * pow2(1012),
        magnitude((NEAR_ONE_CEILING - 1) as u64) == 0x4010_624D_D2F1_A800 * pow2(1012),
        magnitude(NEAR_ONE_CEILING) == 0x4010_624D_D2F1_AC00 * pow2(1012),
        pow2(1012) > 0,
{
    lemma2_to64();
    lemma_pow2_pos(1012);
    lemma_magnitude_in_units(ONE, 1023, 0, 10, 1012);
    lemma_magnitude_in_units(TOLERANCE, 1013, 0x624D_D2F1_A9FC, 0, 1012);
    lemma_magnitude_in_units(NEAR_ONE_FLOOR, 1022, 0xF_F7CE_D916_872B, 9, 1012);
    lemma_magnitude_in_units((NEAR_ONE_FLOOR + 1) as u64, 1022, 0xF_F7CE_D916_872C, 9, 1012);
    lemma_magnitude_in_units((NEAR_ONE_CEILING - 1) as u64, 1023, 0x0_0418_9374_BC6A, 10, 1012);
    lemma_magnitude_in_units(NEAR_ONE_CEILING, 1023, 0x0_0418_9374_BC6B, 10, 1012);
}

/// Tells whether a number lies within the tolerance of one.
pub fn is_near_one(c: u64) -> (r: bool)
    ensures
        r == near_one(c),
{
    proof {
        lemma_interval_bounds();
        lemma_magnitude_order(c, NEAR_ONE_FLOOR);
        lemma_magnitude_order(c, (NEAR_ONE_FLOOR + 1) as u64);
        lemma_magnitude_order(c, (NEAR_ONE_CEILING - 1) as u64);
        lemma_magnitude_order(c, NEAR_ONE_CEILING);
    }
    NEAR_ONE_FLOOR < c && c < NEAR_ONE_CEILING
}

/// A colour: red, green and blue, each a binary64 held by its bit pattern.
#[derive(Debug, Copy, Clone, PartialEq, Eq, Structural)]
pub struct Color {
    pub r: u64,
    pub g: u64,
    pub b: u64,
}

impl Color {
    /// Whether every channel lies within the tolerance of one. A sphere of
    /// such a colour is the light.
    pub open spec fn near_white(self) -> bool {
        near_one(self.r) && near_one(self.g) && near_one(self.b)
    }

    pub fn new(r: u64, g: u64, b: u64) -> (c: Color)
        ensures
            c == (Color { r, g, b }),
    {
        Color { r, g, b }
    }

    /// No light at all: the neutral element of addition.
    pub fn black() -> (c: Color)
        ensures
            c == (Color { r: ZERO, g: ZERO, b: ZERO }),
    {
        Color::new(ZERO, ZERO, ZERO)
    }

    /// Full light: the neutral element of channel-wise multiplication.
    pub fn white() -> (c: Color)
        ensures
            c == (Color { r: ONE, g: ONE, b: ONE }),
    {
        Color::new(ONE, ONE, ONE)
    }

    /// Tells whether this is the colour of the light.
    pub fn is_light(&self) -> (r: bool)
        ensures
            r == self.near_white(),
    {
        is_near_one(self.r) && is_near_one(self.g) && is_near_one(self.b)
    }
}

} // verus!
