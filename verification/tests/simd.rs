use drone_fec::dword::DWord;
use drone_fec::simd::fallback::{half_add, half_sub, pack, unpack};
use drone_fec::simd::{CmpExt, HalfExt, SaturateBits, SaturateInto, SaturatingExt};

fn sat_i32<const BITS: usize>(x: i32) -> i32 {
    SaturateBits::<i32>::saturate_bits::<BITS>(x)
}

fn sat_u32<const BITS: usize>(x: u32) -> u32 {
    SaturateBits::<u32>::saturate_bits::<BITS>(x)
}

fn usat<const BITS: usize>(x: i32) -> u32 {
    SaturateBits::<u32>::saturate_bits::<BITS>(x)
}

#[test]
fn fallback_saturate_bits_i32() {
    assert_eq!(0, sat_i32::<0>(-1_i32));
    assert_eq!(0, sat_i32::<0>(0_i32));
    assert_eq!(0, sat_i32::<0>(1_i32));

    assert_eq!(-128, sat_i32::<8>(-129_i32));
    assert_eq!(-128, sat_i32::<8>(-128_i32));
    assert_eq!(-127, sat_i32::<8>(-127_i32));
    assert_eq!(0, sat_i32::<8>(0_i32));
    assert_eq!(126, sat_i32::<8>(126_i32));
    assert_eq!(127, sat_i32::<8>(127_i32));
    assert_eq!(127, sat_i32::<8>(128_i32));

    assert_eq!(i32::MIN, sat_i32::<32>(i32::MIN));
    assert_eq!(i32::MAX, sat_i32::<32>(i32::MAX));
}

#[test]
fn fallback_saturate_bits_u32() {
    assert_eq!(0, sat_u32::<0>(0_u32));
    assert_eq!(0, sat_u32::<0>(1_u32));

    assert_eq!(0, sat_u32::<8>(0_u32));
    assert_eq!(1, sat_u32::<8>(1_u32));
    assert_eq!(254, sat_u32::<8>(254_u32));
    assert_eq!(255, sat_u32::<8>(255_u32));
    assert_eq!(255, sat_u32::<8>(256_u32));

    assert_eq!(u32::MAX, sat_u32::<32>(u32::MAX));
}

#[test]
fn fallback_saturating_add() {
    let lhs = DWord::new_i8h([50, 120, 120, -120]).u32();
    let rhs = DWord::new_i8h([50, 20, -20, -20]).u32();
    assert_eq!(
        DWord::new_i8h([100, 127, 100, -128]).u32(),
        lhs.saturating_add_i8(rhs)
    )
}

#[test]
fn fallback_saturating_sub() {
    let lhs = DWord::new_i8h([10, -10, -10, 0]).u32();
    let rhs = DWord::new_i8h([7, -7, 120, -128]).u32();
    assert_eq!(
        DWord::new_i8h([3, -3, -128, 127]).u32(),
        lhs.saturating_sub_i8(rhs)
    )
}

#[test]
fn fallback_half_add() {
    let lhs = DWord::new_i8h([100, -1, 0, -100]).u32();
    let rhs = DWord::new_i8h([28, -128, -128, -29]).u32();
    assert_eq!(
        DWord::new_i8h([64, -65, -64, -65]).u32(),
        lhs.half_add_i8(rhs)
    )
}

#[test]
fn fallback_half_sub() {
    let lhs = DWord::new_i8h([100, -1, 0, -100]).u32();
    let rhs = DWord::new_i8h([28, -128, -128, -29]).u32();
    assert_eq!(
        DWord::new_i8h([36, 63, 64, -36]).u32(),
        lhs.half_sub_i8(rhs)
    )
}

#[test]
fn fallback_max() {
    let lhs = DWord::new_i8h([100, 1, 0, -100]).u32();
    let rhs = DWord::new_i8h([27, -128, -128, -29]).u32();
    assert_eq!(DWord::new_i8h([100, 1, 0, -29]).u32(), lhs.max_i8(rhs))
}

#[test]
fn fallback_min() {
    let lhs = DWord::new_i8h([100, 1, 0, -100]).u32();
    let rhs = DWord::new_i8h([27, -128, -128, -29]).u32();
    assert_eq!(
        DWord::new_i8h([27, -128, -128, -100]).u32(),
        lhs.min_i8(rhs)
    )
}

#[test]
fn mod_saturate_bits_i32() {
    assert_eq!(-128, sat_i32::<8>(i32::MIN));
    assert_eq!(-128, sat_i32::<8>(-129_i32));
    assert_eq!(-128, sat_i32::<8>(-128_i32));
    assert_eq!(-127, sat_i32::<8>(-127_i32));
    assert_eq!(0, sat_i32::<8>(0_i32));
    assert_eq!(126, sat_i32::<8>(126_i32));
    assert_eq!(127, sat_i32::<8>(127_i32));
    assert_eq!(127, sat_i32::<8>(128_i32));
    assert_eq!(127, sat_i32::<8>(i32::MAX));

    assert_eq!(i32::MIN, sat_i32::<32>(i32::MIN));
    assert_eq!(0x3FFFFFFF, sat_i32::<31>(i32::MAX));
    assert_eq!(i32::MAX, sat_i32::<32>(i32::MAX));
}

#[test]
fn mod_saturate_bits_u32() {
    assert_eq!(0_u32, usat::<0>(0));
    assert_eq!(0_u32, usat::<0>(1));

    assert_eq!(0_u32, usat::<8>(0));
    assert_eq!(1_u32, usat::<8>(1));
    assert_eq!(254_u32, usat::<8>(254));
    assert_eq!(255_u32, usat::<8>(255));
    assert_eq!(255_u32, usat::<8>(256));
    assert_eq!(255_u32, usat::<8>(i32::MAX));

    assert_eq!(0x3FFFFFFF_u32, usat::<30>(i32::MAX));
    assert_eq!(0x7FFFFFFF_u32, usat::<31>(i32::MAX));
}

#[test]
fn mod_saturating_add() {
    let lhs = DWord::new_i8h([50, 120, 120, -120]).u32();
    let rhs = DWord::new_i8h([50, 20, -20, -20]).u32();
    assert_eq!(
        DWord::new_i8h([100, 127, 100, -128]).u32(),
        lhs.saturating_add_i8(rhs)
    )
}

#[test]
fn mod_saturating_sub() {
    let lhs = DWord::new_i8h([10, -10, -10, 0]).u32();
    let rhs = DWord::new_i8h([7, -7, 120, -128]).u32();
    assert_eq!(
        DWord::new_i8h([3, -3, -128, 127]).u32(),
        lhs.saturating_sub_i8(rhs)
    )
}

#[test]
fn mod_half_add() {
    let lhs = DWord::new_i8h([100, -1, 0, -100]).u32();
    let rhs = DWord::new_i8h([28, -128, -128, -29]).u32();
    assert_eq!(
        DWord::new_i8h([64, -65, -64, -65]).u32(),
        lhs.half_add_i8(rhs)
    )
}

#[test]
fn mod_half_sub() {
    let lhs = DWord::new_i8h([100, -1, 0, -100]).u32();
    let rhs = DWord::new_i8h([28, -128, -128, -29]).u32();
    assert_eq!(
        DWord::new_i8h([36, 63, 64, -36]).u32(),
        lhs.half_sub_i8(rhs)
    )
}

#[test]
fn mod_max() {
    let lhs = DWord::new_i8h([100, 1, 0, -100]).u32();
    let rhs = DWord::new_i8h([27, -128, -128, -29]).u32();
    assert_eq!(DWord::new_i8h([100, 1, 0, -29]).u32(), lhs.max_i8(rhs))
}

#[test]
fn mod_min() {
    let lhs = DWord::new_i8h([100, 1, 0, -100]).u32();
    let rhs = DWord::new_i8h([27, -128, -128, -29]).u32();
    assert_eq!(
        DWord::new_i8h([27, -128, -128, -100]).u32(),
        lhs.min_i8(rhs)
    )
}

#[test]
fn scalar_saturation() {
    assert_eq!(-128, sat_i32::<8>(-129));
    assert_eq!(127, sat_i32::<8>(128));
    assert_eq!(0x3FFFFFFF, usat::<30>(0x7FFFFFFF));
    assert_eq!(0, usat::<8>(-1));
    assert_eq!(0, usat::<31>(i32::MIN));
    assert_eq!(0, sat_i32::<1>(0));
    assert_eq!(-1, sat_i32::<1>(-5));
    assert_eq!(0, sat_i32::<1>(5));
    assert_eq!(1, usat::<1>(5));
}

#[test]
fn saturation_stays_in_range_and_keeps_values_in_range() {
    let samples = [i32::MIN, -70000, -32769, -32768, -129, -1, 0, 1, 127, 32767, 32768, i32::MAX];
    for x in samples {
        let r = sat_i32::<16>(x);
        assert!((-32768..=32767).contains(&r));
        if (-32768..=32767).contains(&x) {
            assert_eq!(x, r);
        }
        let r = sat_i32::<32>(x);
        assert_eq!(x, r);
        let r = usat::<16>(x);
        assert!(r <= 65535);
        if (0..=65535).contains(&x) {
            assert_eq!(x as u32, r);
        }
        assert_eq!(0, sat_i32::<0>(x));
        assert_eq!(0, usat::<0>(x));
    }
}

#[test]
fn saturate_into_bytes() {
    let r: i8 = 300_i32.saturate_into();
    assert_eq!(127, r);
    let r: i8 = (-300_i32).saturate_into();
    assert_eq!(-128, r);
    let r: i8 = (-5_i32).saturate_into();
    assert_eq!(-5, r);
    let r: u8 = 300_i32.saturate_into();
    assert_eq!(255, r);
    let r: u8 = (-300_i32).saturate_into();
    assert_eq!(0, r);
    let r: u8 = 200_i32.saturate_into();
    assert_eq!(200, r);
}

#[test]
fn halving_rounds_down() {
    assert_eq!(64, half_add(100, 28));
    assert_eq!(-65, half_add(-1, -128));
    assert_eq!(-1, half_add(-1, 0));
    assert_eq!(0, half_add(1, 0));
    assert_eq!(-128, half_add(-128, -128));
    assert_eq!(127, half_add(127, 127));
    assert_eq!(-36, half_sub(-100, -29));
    assert_eq!(127, half_sub(127, -128));
    assert_eq!(-128, half_sub(-128, 127));
    for a in -128i16..=127 {
        for b in -128i16..=127 {
            assert_eq!((a + b).div_euclid(2) as i8, half_add(a as i8, b as i8));
            assert_eq!((a - b).div_euclid(2) as i8, half_sub(a as i8, b as i8));
        }
    }
}

#[test]
fn lanes_start_at_the_least_significant_byte() {
    assert_eq!(0x8878_7832, pack([50, 120, 120, -120]));
    assert_eq!([50, 120, 120, -120], unpack(0x8878_7832));
    assert_eq!([-1, 0, 127, -128], unpack(0x807f_00ff));
}

#[test]
fn packed_saturating_add_by_lane() {
    let sum = pack([50, 120, 120, -120]).saturating_add_i8(pack([50, 20, -20, -20]));
    assert_eq!([100, 127, 100, -128], unpack(sum));
    let diff = pack([10, -10, -10, 0]).saturating_sub_i8(pack([7, -7, 120, -128]));
    assert_eq!([3, -3, -128, 127], unpack(diff));
}

#[test]
fn lane_operations_on_signed_words_and_dwords() {
    let a = pack([100, -1, 0, -100]);
    let b = pack([28, -128, -128, -29]);
    assert_eq!(a.half_add_i8(b) as i32, (a as i32).half_add_i8(b as i32));
    assert_eq!(a.half_sub_i8(b) as i32, (a as i32).half_sub_i8(b as i32));
    assert_eq!(a.max_i8(b) as i32, (a as i32).max_i8(b as i32));
    assert_eq!(a.min_i8(b) as i32, (a as i32).min_i8(b as i32));
    assert_eq!(a.saturating_add_i8(b) as i32, (a as i32).saturating_add_i8(b as i32));
    assert_eq!(a.saturating_sub_i8(b) as i32, (a as i32).saturating_sub_i8(b as i32));
    let (da, db) = (DWord::new_u32(a), DWord::new_u32(b));
    assert_eq!(a.half_add_i8(b), da.half_add_i8(db).u32());
    assert_eq!(a.half_sub_i8(b), da.half_sub_i8(db).u32());
    assert_eq!(a.max_i8(b), da.max_i8(db).u32());
    assert_eq!(a.min_i8(b), da.min_i8(db).u32());
    assert_eq!(a.saturating_add_i8(b), da.saturating_add_i8(db).u32());
    assert_eq!(a.saturating_sub_i8(b), da.saturating_sub_i8(db).u32());
    let d: DWord = DWord::new_u32(0x1234).saturate_bits::<8>();
    assert_eq!(255, d.u32());
}

#[test]
fn sentinel_stays_under_a_metric_that_is_not_positive() {
    let sentinel = pack([-128, -128, -128, -128]);
    assert_eq!(sentinel, sentinel.saturating_add_i8(pack([0, -1, -100, -128])));
    assert_eq!(sentinel, sentinel.max_i8(sentinel));
}
