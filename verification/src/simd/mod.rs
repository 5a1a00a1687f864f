//! Four-lane signed-byte arithmetic on 32-bit words.
//!
//! A word holds four signed bytes, lane 0 in its least significant byte. The
//! traits of this module are the operations that the trellis code needs; the
//! portable implementation is in `fallback`.

use vstd::prelude::*;

pub mod fallback;

verus! {

/// The signed byte in lane `i` of `w`; lane 0 is the least significant byte.
pub open spec fn lane(w: u32, i: u32) -> i8 {
    ((w >> (8 * i)) & 0xff) as u8 as i8
}

/// The word whose lanes 0 to 3 hold `b0` to `b3`.
pub open spec fn quad(b0: i8, b1: i8, b2: i8, b3: i8) -> u32 {
    (b0 as u8 as u32) | ((b1 as u8 as u32) << 8) | ((b2 as u8 as u32) << 16) | ((b3 as u8 as u32)
        << 24)
}

/// `x` clamped to the range of a signed byte.
pub open spec fn sat8(x: int) -> int {
    if x > 127 {
        127
    } else if x < -128 {
        -128
    } else {
        x
    }
}

/// `x` clamped to the range from `lo` to `hi`.
pub open spec fn clamp(x: int, lo: int, hi: int) -> int {
    if x > hi {
        hi
    } else if x < lo {
        lo
    } else {
        x
    }
}

/// Half of `x`, rounded towards negative infinity.
pub open spec fn half(x: int) -> int {
    x / 2
}

/// The larger of two integers.
pub open spec fn max2(a: int, b: int) -> int {
    if a >= b {
        a
    } else {
        b
    }
}

/// The smaller of two integers.
pub open spec fn min2(a: int, b: int) -> int {
    if a <= b {
        a
    } else {
        b
    }
}

/// Each lane of `r` is the saturated sum of the same lanes of `a` and `b`.
pub open spec fn is_saturating_add_i8(a: u32, b: u32, r: u32) -> bool {
    &&& lane(r, 0) == sat8(lane(a, 0) + lane(b, 0))
    &&& lane(r, 1) == sat8(lane(a, 1) + lane(b, 1))
    &&& lane(r, 2) == sat8(lane(a, 2) + lane(b, 2))
    &&& lane(r, 3) == sat8(lane(a, 3) + lane(b, 3))
}

/// Each lane of `r` is the saturated difference of the same lanes of `a` and `b`.
pub open spec fn is_saturating_sub_i8(a: u32, b: u32, r: u32) -> bool {
    &&& lane(r, 0) == sat8(lane(a, 0) - lane(b, 0))
    &&& lane(r, 1) == sat8(lane(a, 1) - lane(b, 1))
    &&& lane(r, 2) == sat8(lane(a, 2) - lane(b, 2))
    &&& lane(r, 3) == sat8(lane(a, 3) - lane(b, 3))
}

/// Each lane of `r` is half the sum of the same lanes of `a` and `b`, rounded down.
pub open spec fn is_half_add_i8(a: u32, b: u32, r: u32) -> bool {
    &&& lane(r, 0) == half(lane(a, 0) + lane(b, 0))
    &&& lane(r, 1) == half(lane(a, 1) + lane(b, 1))
    &&& lane(r, 2) == half(lane(a, 2) + lane(b, 2))
    &&& lane(r, 3) == half(lane(a, 3) + lane(b, 3))
}

/// Each lane of `r` is half the difference of the same lanes of `a` and `b`, rounded down.
pub open spec fn is_half_sub_i8(a: u32, b: u32, r: u32) -> bool {
    &&& lane(r, 0) == half(lane(a, 0) - lane(b, 0))
    &&& lane(r, 1) == half(lane(a, 1) - lane(b, 1))
    &&& lane(r, 2) == half(lane(a, 2) - lane(b, 2))
    &&& lane(r, 3) == half(lane(a, 3) - lane(b, 3))
}

/// Each lane of `r` is the larger of the same lanes of `a` and `b`.
pub open spec fn is_max_i8(a: u32, b: u32, r: u32) -> bool {
    &&& lane(r, 0) == max2(lane(a, 0) as int, lane(b, 0) as int)
    &&& lane(r, 1) == max2(lane(a, 1) as int, lane(b, 1) as int)
    &&& lane(r, 2) == max2(lane(a, 2) as int, lane(b, 2) as int)
    &&& lane(r, 3) == max2(lane(a, 3) as int, lane(b, 3) as int)
}

/// Each lane of `r` is the smaller of the same lanes of `a` and `b`.
pub open spec fn is_min_i8(a: u32, b: u32, r: u32) -> bool {
    &&& lane(r, 0) == min2(lane(a, 0) as int, lane(b, 0) as int)
    &&& lane(r, 1) == min2(lane(a, 1) as int, lane(b, 1) as int)
    &&& lane(r, 2) == min2(lane(a, 2) as int, lane(b, 2) as int)
    &&& lane(r, 3) == min2(lane(a, 3) as int, lane(b, 3) as int)
}

/// The value -128 marks a state that the trellis cannot be in. Saturating
/// addition keeps the mark under every metric that is not positive.
pub proof fn lemma_sentinel_stays(g: int)
    requires
        g <= 0,
    ensures
        sat8(-128 + g) == -128,
{
}

/// The lanes of `quad(b0, b1, b2, b3)` are `b0` to `b3`.
pub proof fn lemma_quad_lanes(b0: i8, b1: i8, b2: i8, b3: i8)
    by (bit_vector)
    ensures
        lane(quad(b0, b1, b2, b3), 0) == b0,
        lane(quad(b0, b1, b2, b3), 1) == b1,
        lane(quad(b0, b1, b2, b3), 2) == b2,
        lane(quad(b0, b1, b2, b3), 3) == b3,
{
}

/// A word is determined by its four lanes.
pub proof fn lemma_lanes_determine(w: u32)
    by (bit_vector)
    ensures
        w == quad(lane(w, 0), lane(w, 1), lane(w, 2), lane(w, 3)),
{
}

/// A value that carries four signed bytes in a 32-bit word.
pub trait Packed: Sized {
    /// The word that holds the four lanes.
    spec fn packed(self) -> u32;
}

/// Saturation of a signed 32-bit value to a number of bits.
pub trait SaturateBits<T>: Sized {
    /// Whether `bits` is a width that the operation is defined for.
    spec fn saturable(bits: int) -> bool;

    /// The saturated value.
    spec fn saturated(self, bits: int) -> T;

    /// Saturates `self` to `BITS` bits.
    fn saturate_bits<const BITS: usize>(self) -> (r: T)
        requires
            Self::saturable(BITS as int),
        ensures
            r == self.saturated(BITS as int),
    ;
}

/// Saturation of a signed 32-bit value to a byte.
pub trait SaturateInto<T>: Sized {
    /// The saturated value.
    spec fn saturated_into(self) -> T;

    /// Saturates `self` to the range of `T`.
    fn saturate_into(self) -> (r: T)
        ensures
            r == self.saturated_into(),
    ;
}

/// Four-lane saturating addition and subtraction.
pub trait SaturatingExt: Packed {
    /// Quad 8-bit saturating add.
    fn saturating_add_i8(self, rhs: Self) -> (r: Self)
        ensures
            is_saturating_add_i8(self.packed(), rhs.packed(), r.packed()),
    ;

    /// Quad 8-bit saturating sub.
    fn saturating_sub_i8(self, rhs: Self) -> (r: Self)
        ensures
            is_saturating_sub_i8(self.packed(), rhs.packed(), r.packed()),
    ;
}

/// Four-lane halving addition and subtraction.
pub trait HalfExt: Packed {
    /// Quad 8-bit signed addition with halved results.
    fn half_add_i8(self, rhs: Self) -> (r: Self)
        ensures
            is_half_add_i8(self.packed(), rhs.packed(), r.packed()),
    ;

    /// Quad 8-bit signed subtraction with halved results.
    fn half_sub_i8(self, rhs: Self) -> (r: Self)
        ensures
            is_half_sub_i8(self.packed(), rhs.packed(), r.packed()),
    ;
}

/// Four-lane signed maximum and minimum.
pub trait CmpExt: Packed {
    /// Quad 8-bit max.
    fn max_i8(self, rhs: Self) -> (r: Self)
        ensures
            is_max_i8(self.packed(), rhs.packed(), r.packed()),
    ;

    /// Quad 8-bit min.
    fn min_i8(self, rhs: Self) -> (r: Self)
        ensures
            is_min_i8(self.packed(), rhs.packed(), r.packed()),
    ;
}

} // verus!
