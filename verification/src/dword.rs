//! A 32-bit word that is read as one integer or as four bytes.

use crate::simd::{lane, quad, CmpExt, HalfExt, Packed, SaturateBits, SaturatingExt};
use core::ops::{BitAnd, BitOr, Shl, Shr};
use vstd::prelude::*;
use vstd::std_specs::ops::{BitAndSpecImpl, BitOrSpecImpl, ShlSpecImpl, ShrSpecImpl};

verus! {

/// A 32-bit word. The trellis code keeps four signed state metrics in one
/// word, one in each byte.
#[derive(Clone, Copy, Debug)]
pub struct DWord(pub u32);

/// The unsigned byte `i` of `w`, byte 0 being the least significant.
pub open spec fn byte(w: u32, i: u32) -> u8 {
    ((w >> (8 * i)) & 0xff) as u8
}

/// The bytes of `w`, least significant first.
pub open spec fn le_bytes(w: u32) -> Seq<u8> {
    seq![byte(w, 0), byte(w, 1), byte(w, 2), byte(w, 3)]
}

/// The bytes of `w`, most significant first.
pub open spec fn be_bytes(w: u32) -> Seq<u8> {
    seq![byte(w, 3), byte(w, 2), byte(w, 1), byte(w, 0)]
}

/// The bytes of `w` as signed values, least significant first.
pub open spec fn le_lanes(w: u32) -> Seq<i8> {
    seq![lane(w, 0), lane(w, 1), lane(w, 2), lane(w, 3)]
}

/// The bytes of `w` as signed values, most significant first.
pub open spec fn be_lanes(w: u32) -> Seq<i8> {
    seq![lane(w, 3), lane(w, 2), lane(w, 1), lane(w, 0)]
}

/// `w` rotated to the right by `n` bits; the count is taken modulo 32.
pub open spec fn rotated_right(w: u32, n: u32) -> u32 {
    if n % 32 == 0 {
        w
    } else {
        (w >> (n % 32)) | (w << ((32 - n % 32) as u32))
    }
}

/// `w` rotated to the left by `n` bits; the count is taken modulo 32.
pub open spec fn rotated_left(w: u32, n: u32) -> u32 {
    if n % 32 == 0 {
        w
    } else {
        (w << (n % 32)) | (w >> ((32 - n % 32) as u32))
    }
}

/// A word gives back the integer that it was made from, be it signed or
/// unsigned.
pub proof fn lemma_round_trip(u: u32, i: i32)
    ensures
        DWord(u).0 == u,
        (DWord(i as u32).0 as i32) == i,
{
    assert((i as u32) as i32 == i) by (bit_vector);
}

/// The bytes most significant first are the bytes least significant first,
/// read backwards.
pub proof fn lemma_orders_reverse(w: u32)
    ensures
        be_bytes(w) == le_bytes(w).reverse(),
        le_bytes(w) == be_bytes(w).reverse(),
        be_lanes(w) == le_lanes(w).reverse(),
        le_lanes(w) == be_lanes(w).reverse(),
{
    assert(be_bytes(w) =~= le_bytes(w).reverse());
    assert(le_bytes(w) =~= be_bytes(w).reverse());
    assert(be_lanes(w) =~= le_lanes(w).reverse());
    assert(le_lanes(w) =~= be_lanes(w).reverse());
}

/// Bit `i` of a word that was rotated to the right by `n` is bit `i + n` of
/// the word, counted modulo 32, and rotating to the left by `n` undoes it.
pub proof fn lemma_rotated_bits(w: u32, n: u32, i: u32)
    by (bit_vector)
    requires
        i < 32,
    ensures
        (rotated_right(w, n) >> i) & 1 == (w >> (((i + n) % 32) as u32)) & 1,
        rotated_left(rotated_right(w, n), n) == w,
        rotated_right(rotated_left(w, n), n) == w,
{
}

/// `u32::to_ne_bytes`: the bytes of `w` in the order in which the host keeps
/// them in memory. The claim is that this order is one of the two byte
/// orders; which one is not stated.
#[verifier::external_body]
fn host_bytes(w: u32) -> (r: [u8; 4])
    ensures
        r@ == le_bytes(w) || r@ == be_bytes(w),
{
    w.to_ne_bytes()
}

/// `u32::from_ne_bytes`: the word that the host keeps in memory as the bytes
/// `b`. The claim is that `b` holds the bytes of the result in one of the two
/// byte orders; which one is not stated.
#[verifier::external_body]
fn from_host_bytes(b: [u8; 4]) -> (w: u32)
    ensures
        b@ == le_bytes(w) || b@ == be_bytes(w),
{
    u32::from_ne_bytes(b)
}

/// The signed byte with the bits of `b`.
fn signed_byte(b: u8) -> (r: i8)
    ensures
        r == b as i8,
        r as u8 == b,
{
    assert((b as i8) as u8 == b) by (bit_vector);
    #[verifier::truncate] (b as i8)
}

/// The unsigned byte with the bits of `b`.
fn unsigned_byte(b: i8) -> (r: u8)
    ensures
        r == b as u8,
        r as i8 == b,
{
    assert((b as u8) as i8 == b) by (bit_vector);
    #[verifier::truncate] (b as u8)
}

impl DWord {
    /// The word with the bits of the signed integer `i32`.
    pub fn new_i32(i32: i32) -> (r: Self)
        ensures
            r.0 == i32 as u32,
    {
        DWord(#[verifier::truncate] (i32 as u32))
    }

    /// The word `u32`.
    pub fn new_u32(u32: u32) -> (r: Self)
        ensures
            r.0 == u32,
    {
        DWord(u32)
    }

    /// The word that the host keeps in memory as the four bytes `i8`: they are
    /// its lanes either from the least significant up or from the most
    /// significant down.
    pub fn new_i8h(i8: [i8; 4]) -> (r: Self)
        ensures
            i8@ == le_lanes(r.0) || i8@ == be_lanes(r.0),
    {
        let b: [u8; 4] = [
            unsigned_byte(i8[0]),
            unsigned_byte(i8[1]),
            unsigned_byte(i8[2]),
            unsigned_byte(i8[3]),
        ];
        let w = from_host_bytes(b);
        proof {
            lemma_signed_bytes(w);
            if b@ == le_bytes(w) {
                assert(i8@ =~= le_lanes(w));
            } else {
                assert(i8@ =~= be_lanes(w));
            }
        }
        DWord(w)
    }

    /// The word as a signed integer.
    pub fn i32(self) -> (r: i32)
        ensures
            r as u32 == self.0,
            r == self.0 as i32,
    {
        let w = self.0;
        assert((w as i32) as u32 == w) by (bit_vector);
        #[verifier::truncate] (w as i32)
    }

    /// The word as an unsigned integer.
    pub fn u32(self) -> (r: u32)
        ensures
            r == self.0,
    {
        self.0
    }

    /// The signed bytes in the order in which the host keeps them in memory.
    pub fn i8h(self) -> (r: [i8; 4])
        ensures
            r@ == le_lanes(self.0) || r@ == be_lanes(self.0),
    {
        let b = host_bytes(self.0);
        let r: [i8; 4] = [
            signed_byte(b[0]),
            signed_byte(b[1]),
            signed_byte(b[2]),
            signed_byte(b[3]),
        ];
        proof {
            lemma_signed_bytes(self.0);
            if b@ == le_bytes(self.0) {
                assert(r@ =~= le_lanes(self.0));
            } else {
                assert(r@ =~= be_lanes(self.0));
            }
        }
        r
    }

    /// The signed bytes, most significant first.
    pub fn i8be(self) -> (r: [i8; 4])
        ensures
            r@ == be_lanes(self.0),
    {
        let b = self.u8be();
        let r: [i8; 4] = [
            signed_byte(b[0]),
            signed_byte(b[1]),
            signed_byte(b[2]),
            signed_byte(b[3]),
        ];
        proof {
            lemma_signed_bytes(self.0);
            assert(r@ =~= be_lanes(self.0));
        }
        r
    }

    /// The signed bytes, least significant first.
    pub fn i8le(self) -> (r: [i8; 4])
        ensures
            r@ == le_lanes(self.0),
    {
        let b = self.u8le();
        let r: [i8; 4] = [
            signed_byte(b[0]),
            signed_byte(b[1]),
            signed_byte(b[2]),
            signed_byte(b[3]),
        ];
        proof {
            lemma_signed_bytes(self.0);
            assert(r@ =~= le_lanes(self.0));
        }
        r
    }

    /// The unsigned bytes in the order in which the host keeps them in memory.
    pub fn u8h(self) -> (r: [u8; 4])
        ensures
            r@ == le_bytes(self.0) || r@ == be_bytes(self.0),
    {
        host_bytes(self.0)
    }

    /// The unsigned bytes, most significant first.
    pub fn u8be(self) -> (r: [u8; 4])
        ensures
            r@ == be_bytes(self.0),
    {
        let w = self.0;
        let r: [u8; 4] = [
            #[verifier::truncate] ((w >> 24) as u8),
            #[verifier::truncate] ((w >> 16) as u8),
            #[verifier::truncate] ((w >> 8) as u8),
            #[verifier::truncate] (w as u8),
        ];
        proof {
            lemma_low_bytes(w);
            assert(r@ =~= be_bytes(w));
        }
        r
    }

    /// The unsigned bytes, least significant first.
    pub fn u8le(self) -> (r: [u8; 4])
        ensures
            r@ == le_bytes(self.0),
    {
        let w = self.0;
        let r: [u8; 4] = [
            #[verifier::truncate] (w as u8),
            #[verifier::truncate] ((w >> 8) as u8),
            #[verifier::truncate] ((w >> 16) as u8),
            #[verifier::truncate] ((w >> 24) as u8),
        ];
        proof {
            lemma_low_bytes(w);
            assert(r@ =~= le_bytes(w));
        }
        r
    }

    /// The word rotated to the right by `n` bits.
    pub fn rotate_right(self, n: u32) -> (r: Self)
        ensures
            r.0 == rotated_right(self.0, n),
    {
        let m: u32 = n % 32;
        if m == 0 {
            self
        } else {
            DWord((self.0 >> m) | (self.0 << (32 - m)))
        }
    }

    /// The word rotated to the left by `n` bits.
    pub fn rotate_left(self, n: u32) -> (r: Self)
        ensures
            r.0 == rotated_left(self.0, n),
    {
        let m: u32 = n % 32;
        if m == 0 {
            self
        } else {
            DWord((self.0 << m) | (self.0 >> (32 - m)))
        }
    }
}

/// Truncating a shifted word to a byte gives the byte at that place.
proof fn lemma_low_bytes(w: u32)
    by (bit_vector)
    ensures
        w as u8 == byte(w, 0),
        (w >> 8) as u8 == byte(w, 1),
        (w >> 16) as u8 == byte(w, 2),
        (w >> 24) as u8 == byte(w, 3),
{
}

/// A lane is the byte at its place, read as a signed value.
proof fn lemma_signed_bytes(w: u32)
    ensures
        lane(w, 0) == byte(w, 0) as i8,
        lane(w, 1) == byte(w, 1) as i8,
        lane(w, 2) == byte(w, 2) as i8,
        lane(w, 3) == byte(w, 3) as i8,
{
}

impl Packed for DWord {
    open spec fn packed(self) -> u32 {
        self.0
    }
}

impl BitAnd for DWord {
    type Output = DWord;

    fn bitand(self, rhs: Self) -> (r: DWord) {
        DWord::new_u32(self.u32() & rhs.u32())
    }
}

impl BitAndSpecImpl for DWord {
    open spec fn obeys_bitand_spec() -> bool {
        true
    }

    open spec fn bitand_req(self, rhs: Self) -> bool {
        true
    }

    open spec fn bitand_spec(self, rhs: Self) -> DWord {
        DWord(self.0 & rhs.0)
    }
}

impl BitAnd<u32> for DWord {
    type Output = DWord;

    fn bitand(self, rhs: u32) -> (r: DWord) {
        DWord::new_u32(self.u32() & rhs)
    }
}

impl BitAndSpecImpl<u32> for DWord {
    open spec fn obeys_bitand_spec() -> bool {
        true
    }

    open spec fn bitand_req(self, rhs: u32) -> bool {
        true
    }

    open spec fn bitand_spec(self, rhs: u32) -> DWord {
        DWord(self.0 & rhs)
    }
}

impl BitOr for DWord {
    type Output = DWord;

    fn bitor(self, rhs: Self) -> (r: DWord) {
        DWord::new_u32(self.u32() | rhs.u32())
    }
}

impl BitOrSpecImpl for DWord {
    open spec fn obeys_bitor_spec() -> bool {
        true
    }

    open spec fn bitor_req(self, rhs: Self) -> bool {
        true
    }

    open spec fn bitor_spec(self, rhs: Self) -> DWord {
        DWord(self.0 | rhs.0)
    }
}

impl BitOr<u32> for DWord {
    type Output = DWord;

    fn bitor(self, rhs: u32) -> (r: DWord) {
        DWord::new_u32(self.u32() | rhs)
    }
}

impl BitOrSpecImpl<u32> for DWord {
    open spec fn obeys_bitor_spec() -> bool {
        true
    }

    open spec fn bitor_req(self, rhs: u32) -> bool {
        true
    }

    open spec fn bitor_spec(self, rhs: u32) -> DWord {
        DWord(self.0 | rhs)
    }
}

impl Shl<usize> for DWord {
    type Output = DWord;

    fn shl(self, rhs: usize) -> (r: DWord) {
        DWord::new_u32(self.u32() << rhs)
    }
}

impl ShlSpecImpl<usize> for DWord {
    open spec fn obeys_shl_spec() -> bool {
        true
    }

    open spec fn shl_req(self, rhs: usize) -> bool {
        rhs < 32
    }

    open spec fn shl_spec(self, rhs: usize) -> DWord {
        DWord(self.0 << rhs)
    }
}

impl Shr<usize> for DWord {
    type Output = DWord;

    fn shr(self, rhs: usize) -> (r: DWord) {
        DWord::new_u32(self.u32() >> rhs)
    }
}

impl ShrSpecImpl<usize> for DWord {
    open spec fn obeys_shr_spec() -> bool {
        true
    }

    open spec fn shr_req(self, rhs: usize) -> bool {
        rhs < 32
    }

    open spec fn shr_spec(self, rhs: usize) -> DWord {
        DWord(self.0 >> rhs)
    }
}

impl SaturateBits<DWord> for DWord {
    open spec fn saturable(bits: int) -> bool {
        0 <= bits <= 32
    }

    open spec fn saturated(self, bits: int) -> DWord {
        DWord(<u32 as SaturateBits<u32>>::saturated(self.0, bits))
    }

    fn saturate_bits<const BITS: usize>(self) -> (r: DWord) {
        DWord::new_u32(self.u32().saturate_bits::<BITS>())
    }
}

impl SaturatingExt for DWord {
    fn saturating_add_i8(self, rhs: Self) -> (r: Self) {
        DWord::new_u32(self.u32().saturating_add_i8(rhs.u32()))
    }

    fn saturating_sub_i8(self, rhs: Self) -> (r: Self) {
        DWord::new_u32(self.u32().saturating_sub_i8(rhs.u32()))
    }
}

impl HalfExt for DWord {
    fn half_add_i8(self, rhs: Self) -> (r: Self) {
        DWord::new_u32(self.u32().half_add_i8(rhs.u32()))
    }

    fn half_sub_i8(self, rhs: Self) -> (r: Self) {
        DWord::new_u32(self.u32().half_sub_i8(rhs.u32()))
    }
}

impl CmpExt for DWord {
    fn max_i8(self, rhs: Self) -> (r: Self) {
        DWord::new_u32(self.u32().max_i8(rhs.u32()))
    }

    fn min_i8(self, rhs: Self) -> (r: Self) {
        DWord::new_u32(self.u32().min_i8(rhs.u32()))
    }
}

} // verus!
