//! The portable implementation of the four-lane operations: every lane is
//! taken out of the word, computed in a wider type and put back.

use crate::simd::{
    clamp, half, lane, lemma_quad_lanes, quad, sat8, CmpExt, HalfExt, Packed, SaturateBits,
    SaturateInto, SaturatingExt,
};
use vstd::arithmetic::power2::{lemma2_to64, lemma_pow2_pos, lemma_pow2_strictly_increases, pow2};
use vstd::bits::lemma_u32_shl_is_mul;
use vstd::prelude::*;

verus! {

/// Half the sum of two signed bytes, rounded towards negative infinity.
pub fn half_add(lhs: i8, rhs: i8) -> (r: i8)
    ensures
        r == half(lhs + rhs),
{
    let s: i16 = lhs as i16 + rhs as i16;
    if s >= 0 {
        (s / 2) as i8
    } else {
        (-((1 - s) / 2)) as i8
    }
}

/// Half the difference of two signed bytes, rounded towards negative infinity.
pub fn half_sub(lhs: i8, rhs: i8) -> (r: i8)
    ensures
        r == half(lhs - rhs),
{
    let s: i16 = lhs as i16 - rhs as i16;
    if s >= 0 {
        (s / 2) as i8
    } else {
        (-((1 - s) / 2)) as i8
    }
}

/// The saturated sum of two signed bytes.
fn sat_add(lhs: i8, rhs: i8) -> (r: i8)
    ensures
        r == sat8(lhs + rhs),
{
    let s: i16 = lhs as i16 + rhs as i16;
    if s > 127 {
        127
    } else if s < -128 {
        -128
    } else {
        s as i8
    }
}

/// The saturated difference of two signed bytes.
fn sat_sub(lhs: i8, rhs: i8) -> (r: i8)
    ensures
        r == sat8(lhs - rhs),
{
    let s: i16 = lhs as i16 - rhs as i16;
    if s > 127 {
        127
    } else if s < -128 {
        -128
    } else {
        s as i8
    }
}

/// The four lanes of a word, lane 0 first.
pub fn unpack(w: u32) -> (r: [i8; 4])
    ensures
        r[0] == lane(w, 0),
        r[1] == lane(w, 1),
        r[2] == lane(w, 2),
        r[3] == lane(w, 3),
{
    let b0: u8 = #[verifier::truncate] (w as u8);
    let b1: u8 = #[verifier::truncate] ((w >> 8) as u8);
    let b2: u8 = #[verifier::truncate] ((w >> 16) as u8);
    let b3: u8 = #[verifier::truncate] ((w >> 24) as u8);
    let r: [i8; 4] = [
        #[verifier::truncate] (b0 as i8),
        #[verifier::truncate] (b1 as i8),
        #[verifier::truncate] (b2 as i8),
        #[verifier::truncate] (b3 as i8),
    ];
    assert(w as u8 as i8 == lane(w, 0) && (w >> 8) as u8 as i8 == lane(w, 1) && (w >> 16) as u8 as i8
        == lane(w, 2) && (w >> 24) as u8 as i8 == lane(w, 3)) by (bit_vector);
    r
}

/// The word whose lanes are `l`, lane 0 first.
pub fn pack(l: [i8; 4]) -> (w: u32)
    ensures
        w == quad(l[0], l[1], l[2], l[3]),
        lane(w, 0) == l[0],
        lane(w, 1) == l[1],
        lane(w, 2) == l[2],
        lane(w, 3) == l[3],
{
    let b0: u8 = #[verifier::truncate] (l[0] as u8);
    let b1: u8 = #[verifier::truncate] (l[1] as u8);
    let b2: u8 = #[verifier::truncate] (l[2] as u8);
    let b3: u8 = #[verifier::truncate] (l[3] as u8);
    proof {
        lemma_quad_lanes(l[0], l[1], l[2], l[3]);
    }
    (b0 as u32) | ((b1 as u32) << 8) | ((b2 as u32) << 16) | ((b3 as u32) << 24)
}

impl Packed for u32 {
    open spec fn packed(self) -> u32 {
        self
    }
}

impl SaturatingExt for u32 {
    fn saturating_add_i8(self, rhs: Self) -> (r: Self) {
        let a = unpack(self);
        let b = unpack(rhs);
        pack([sat_add(a[0], b[0]), sat_add(a[1], b[1]), sat_add(a[2], b[2]), sat_add(a[3], b[3])])
    }

    fn saturating_sub_i8(self, rhs: Self) -> (r: Self) {
        let a = unpack(self);
        let b = unpack(rhs);
        pack([sat_sub(a[0], b[0]), sat_sub(a[1], b[1]), sat_sub(a[2], b[2]), sat_sub(a[3], b[3])])
    }
}

impl HalfExt for u32 {
    fn half_add_i8(self, rhs: Self) -> (r: Self) {
        let a = unpack(self);
        let b = unpack(rhs);
        pack(
            [half_add(a[0], b[0]), half_add(a[1], b[1]), half_add(a[2], b[2]), half_add(a[3], b[3])],
        )
    }

    fn half_sub_i8(self, rhs: Self) -> (r: Self) {
        let a = unpack(self);
        let b = unpack(rhs);
        pack(
            [half_sub(a[0], b[0]), half_sub(a[1], b[1]), half_sub(a[2], b[2]), half_sub(a[3], b[3])],
        )
    }
}

impl CmpExt for u32 {
    fn max_i8(self, rhs: Self) -> (r: Self) {
        let a = unpack(self);
        let b = unpack(rhs);
        pack([larger(a[0], b[0]), larger(a[1], b[1]), larger(a[2], b[2]), larger(a[3], b[3])])
    }

    fn min_i8(self, rhs: Self) -> (r: Self) {
        let a = unpack(self);
        let b = unpack(rhs);
        pack(
            [smaller(a[0], b[0]), smaller(a[1], b[1]), smaller(a[2], b[2]), smaller(a[3], b[3])],
        )
    }
}

/// The larger of two signed bytes.
fn larger(lhs: i8, rhs: i8) -> (r: i8)
    ensures
        r == if lhs >= rhs { lhs } else { rhs },
{
    if lhs >= rhs {
        lhs
    } else {
        rhs
    }
}

/// The smaller of two signed bytes.
fn smaller(lhs: i8, rhs: i8) -> (r: i8)
    ensures
        r == if lhs <= rhs { lhs } else { rhs },
{
    if lhs <= rhs {
        lhs
    } else {
        rhs
    }
}

/// The bits of a signed word, read as an unsigned one.
fn bits_of(x: i32) -> (w: u32)
    ensures
        w == x as u32,
{
    #[verifier::truncate] (x as u32)
}

/// The signed word with the bits of `w`.
fn signed_of(w: u32) -> (x: i32)
    ensures
        x as u32 == w,
{
    assert((w as i32) as u32 == w) by (bit_vector);
    #[verifier::truncate] (w as i32)
}

impl Packed for i32 {
    open spec fn packed(self) -> u32 {
        self as u32
    }
}

impl SaturatingExt for i32 {
    fn saturating_add_i8(self, rhs: Self) -> (r: Self) {
        signed_of(bits_of(self).saturating_add_i8(bits_of(rhs)))
    }

    fn saturating_sub_i8(self, rhs: Self) -> (r: Self) {
        signed_of(bits_of(self).saturating_sub_i8(bits_of(rhs)))
    }
}

impl HalfExt for i32 {
    fn half_add_i8(self, rhs: Self) -> (r: Self) {
        signed_of(bits_of(self).half_add_i8(bits_of(rhs)))
    }

    fn half_sub_i8(self, rhs: Self) -> (r: Self) {
        signed_of(bits_of(self).half_sub_i8(bits_of(rhs)))
    }
}

impl CmpExt for i32 {
    fn max_i8(self, rhs: Self) -> (r: Self) {
        signed_of(bits_of(self).max_i8(bits_of(rhs)))
    }

    fn min_i8(self, rhs: Self) -> (r: Self) {
        signed_of(bits_of(self).min_i8(bits_of(rhs)))
    }
}

impl SaturateBits<i32> for i32 {
    /// The signed form takes widths from 1 to 32; width 0 is taken too and gives 0.
    open spec fn saturable(bits: int) -> bool {
        0 <= bits <= 32
    }

    open spec fn saturated(self, bits: int) -> i32 {
        if bits <= 0 {
            0
        } else {
            clamp(self as int, -pow2((bits - 1) as nat), pow2((bits - 1) as nat) - 1) as i32
        }
    }

    /// Clamps `self` to the signed range of `BITS` bits.
    fn saturate_bits<const BITS: usize>(self) -> (r: i32) {
        if BITS == 0 {
            0
        } else if BITS >= 32 {
            proof {
                lemma2_to64();
            }
            self
        } else {
            let shift: u32 = (BITS - 1) as u32;
            proof {
                lemma2_to64();
                lemma_pow2_pos(shift as nat);
                lemma_pow2_strictly_increases(shift as nat, 31);
                lemma_u32_shl_is_mul(1, shift);
            }
            let max_value: i32 = ((1u32 << shift) - 1) as i32;
            let min_value: i32 = -max_value - 1;
            if self > max_value {
                max_value
            } else if self < min_value {
                min_value
            } else {
                self
            }
        }
    }
}

impl SaturateBits<u32> for i32 {
    /// The unsigned form takes widths from 0 to 31.
    open spec fn saturable(bits: int) -> bool {
        0 <= bits <= 31
    }

    open spec fn saturated(self, bits: int) -> u32 {
        clamp(self as int, 0, pow2(bits as nat) - 1) as u32
    }

    /// Clamps `self` to the unsigned range of `BITS` bits.
    fn saturate_bits<const BITS: usize>(self) -> (r: u32) {
        let shift: u32 = BITS as u32;
        proof {
            lemma2_to64();
            lemma_pow2_pos(shift as nat);
            if shift < 31 {
                lemma_pow2_strictly_increases(shift as nat, 31);
            }
            lemma_u32_shl_is_mul(1, shift);
        }
        let max_value: u32 = (1u32 << shift) - 1;
        if self < 0 {
            0
        } else if self as u32 > max_value {
            max_value
        } else {
            self as u32
        }
    }
}

impl SaturateBits<u32> for u32 {
    /// An unsigned value takes widths from 0 to 32.
    open spec fn saturable(bits: int) -> bool {
        0 <= bits <= 32
    }

    open spec fn saturated(self, bits: int) -> u32 {
        clamp(self as int, 0, pow2(bits as nat) - 1) as u32
    }

    /// Limits `self` to the largest value of `BITS` bits.
    fn saturate_bits<const BITS: usize>(self) -> (r: u32) {
        if BITS >= 32 {
            proof {
                lemma2_to64();
            }
            self
        } else {
            let shift: u32 = BITS as u32;
            proof {
                lemma2_to64();
                lemma_pow2_pos(shift as nat);
                if shift < 31 {
                    lemma_pow2_strictly_increases(shift as nat, 31);
                }
                lemma_u32_shl_is_mul(1, shift);
            }
            let max_value: u32 = (1u32 << shift) - 1;
            if self > max_value {
                max_value
            } else {
                self
            }
        }
    }
}

/// Saturating a signed value to a width from 1 to 32 bits gives a value of
/// the signed range of that width, and the value itself where it lies in
/// that range.
pub proof fn lemma_saturate_bits_signed(x: i32, bits: int)
    requires
        1 <= bits <= 32,
    ensures
        -pow2((bits - 1) as nat) <= <i32 as SaturateBits<i32>>::saturated(x, bits) <= pow2(
            (bits - 1) as nat,
        ) - 1,
        -pow2((bits - 1) as nat) <= x <= pow2((bits - 1) as nat) - 1 ==> <i32 as SaturateBits<
            i32,
        >>::saturated(x, bits) == x,
{
    lemma2_to64();
    lemma_pow2_pos((bits - 1) as nat);
    if bits < 32 {
        lemma_pow2_strictly_increases((bits - 1) as nat, 31);
    }
}

/// Saturating a signed value to an unsigned width from 0 to 31 bits gives a
/// value of the unsigned range of that width, and the value itself where it
/// lies in that range.
pub proof fn lemma_saturate_bits_unsigned(x: i32, bits: int)
    requires
        0 <= bits <= 31,
    ensures
        0 <= <i32 as SaturateBits<u32>>::saturated(x, bits) <= pow2(bits as nat) - 1,
        0 <= x <= pow2(bits as nat) - 1 ==> <i32 as SaturateBits<u32>>::saturated(x, bits) == x,
{
    lemma2_to64();
    lemma_pow2_pos(bits as nat);
    if bits < 31 {
        lemma_pow2_strictly_increases(bits as nat, 31);
    }
}

/// Saturating to no bits at all gives 0, whatever the value.
pub proof fn lemma_saturate_zero_bits(x: i32, y: u32)
    ensures
        <i32 as SaturateBits<i32>>::saturated(x, 0) == 0,
        <i32 as SaturateBits<u32>>::saturated(x, 0) == 0,
        <u32 as SaturateBits<u32>>::saturated(y, 0) == 0,
{
    lemma2_to64();
}

impl SaturateInto<i8> for i32 {
    open spec fn saturated_into(self) -> i8 {
        sat8(self as int) as i8
    }

    fn saturate_into(self) -> (r: i8) {
        proof {
            lemma2_to64();
        }
        let sat: i32 = self.saturate_bits::<8>();
        sat as i8
    }
}

impl SaturateInto<u8> for i32 {
    open spec fn saturated_into(self) -> u8 {
        clamp(self as int, 0, 255) as u8
    }

    fn saturate_into(self) -> (r: u8) {
        proof {
            lemma2_to64();
        }
        let sat: u32 = self.saturate_bits::<8>();
        sat as u8
    }
}

} // verus!
