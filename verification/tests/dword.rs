use drone_fec::dword::DWord;

#[test]
fn size() {
    assert_eq!(4, core::mem::size_of::<DWord>());
}

#[test]
fn repr() {
    let dword = DWord::new_i8h([50, 120, 120, -120]);
    let u32 = dword.u32();
    assert!(u32 == 0x32787888 || u32 == 0x88787832);
}

#[test]
fn u8be() {
    let dword = DWord::new_u32(0xdeadbeef);
    let u8 = dword.u8be();
    assert_eq!(0xde, u8[0]);
    assert_eq!(0xad, u8[1]);
    assert_eq!(0xbe, u8[2]);
    assert_eq!(0xef, u8[3]);
}

#[test]
fn u8le() {
    let dword = DWord::new_u32(0xdeadbeef);
    let u8 = dword.u8le();
    assert_eq!(0xef, u8[0]);
    assert_eq!(0xbe, u8[1]);
    assert_eq!(0xad, u8[2]);
    assert_eq!(0xde, u8[3]);
}

#[test]
fn u32_round_trip() {
    for v in [0u32, 1, 0x80, 0x8000_0000, 0xdead_beef, u32::MAX] {
        assert_eq!(v, DWord::new_u32(v).u32());
    }
}

#[test]
fn i32_round_trip() {
    for v in [0i32, 1, -1, i32::MIN, i32::MAX, -0x1234_5678] {
        assert_eq!(v, DWord::new_i32(v).i32());
        assert_eq!(v as u32, DWord::new_i32(v).u32());
    }
    assert_eq!(-1, DWord::new_u32(u32::MAX).i32());
}

#[test]
fn be_and_le_reverse_each_other() {
    for v in [0u32, 0x0102_0304, 0xdead_beef, 0x8000_007f] {
        let dword = DWord::new_u32(v);
        let be = dword.u8be();
        let le = dword.u8le();
        assert_eq!([be[3], be[2], be[1], be[0]], le);
        let be = dword.i8be();
        let le = dword.i8le();
        assert_eq!([be[3], be[2], be[1], be[0]], le);
    }
}

#[test]
fn signed_bytes() {
    let dword = DWord::new_u32(0x807f_01ff);
    assert_eq!([-128, 127, 1, -1], dword.i8be());
    assert_eq!([-1, 1, 127, -128], dword.i8le());
}

#[test]
fn host_bytes_are_one_of_the_two_orders() {
    let dword = DWord::new_u32(0x0102_0304);
    let h = dword.u8h();
    assert!(h == [4, 3, 2, 1] || h == [1, 2, 3, 4]);
    let h = dword.i8h();
    assert!(h == [4, 3, 2, 1] || h == [1, 2, 3, 4]);
    assert_eq!(h, DWord::new_i8h(h).i8h());
    assert_eq!(0x0102_0304, DWord::new_i8h(h).u32());
}

#[test]
fn rotates() {
    let dword = DWord::new_u32(0x1234_5678);
    assert_eq!(0x7812_3456, dword.rotate_right(8).u32());
    assert_eq!(0x5678_1234, dword.rotate_right(16).u32());
    assert_eq!(0x3456_7812, dword.rotate_left(8).u32());
    assert_eq!(0x1234_5678, dword.rotate_right(0).u32());
    assert_eq!(0x1234_5678, dword.rotate_right(32).u32());
    assert_eq!(0x7812_3456, dword.rotate_right(40).u32());
    assert_eq!(0x091a_2b3c, dword.rotate_right(1).u32());
    assert_eq!(0x2468_acf0, dword.rotate_left(1).u32());
    for n in 0..70u32 {
        assert_eq!(0xdead_beef_u32.rotate_right(n), DWord::new_u32(0xdead_beef).rotate_right(n).u32());
        assert_eq!(0xdead_beef_u32.rotate_left(n), DWord::new_u32(0xdead_beef).rotate_left(n).u32());
    }
}

#[test]
fn bit_operators() {
    let a = DWord::new_u32(0xff00_f0f0);
    let b = DWord::new_u32(0x0ff0_ff00);
    assert_eq!(0x0f00_f000, (a & b).u32());
    assert_eq!(0xfff0_fff0, (a | b).u32());
    assert_eq!(0x0000_00f0, (a & 0x0000_00ff).u32());
    assert_eq!(0xff00_f0ff, (a | 0x0000_000f).u32());
    assert_eq!(0x00f0_f000, (a << 8).u32());
    assert_eq!(0x00ff_00f0, (a >> 8).u32());
}
