use drone_fec::dword::DWord;
use drone_fec::simd::fallback::{pack, unpack};
use drone_fec::trellises::umts::{
    compute_a30, compute_a74, compute_b30, compute_b74, compute_max0, compute_max1, scale_coeff2,
    scale_coeff4, scale_coeff8, UmtsTrellis,
};
use drone_fec::{BcjrDecoder, Llr};

fn llrs(values: &[i8]) -> Vec<Llr> {
    values.iter().map(|v| Llr(*v)).collect()
}

static UMTS: UmtsTrellis = UmtsTrellis;

#[test]
fn decode_byte() {
    let systematic = llrs(&[4, 4, -4, 4, 4, -4, -4, 4, -4, -4, -4]);
    let parity = llrs(&[4, -4, -4, 4, 4, -4, 4, 4, -4, -4, -4]);
    let apriori = vec![Llr::zero(); 8 + 3];

    assert_eq!(
        llrs(&[24, 24, -24, 24, 24, -24, -24, 24, -24, -24, -24]),
        UMTS.decode(&systematic, &parity, &apriori, true)
    );
}

#[test]
fn decode_excel_example_decoder1() {
    let systematic = llrs(&[
        -4, -4, -4, 4, -4, -4, 4, 4, -4, -4, -4, -4, -4, -4, 4, -4, 4, -4, 4,
    ]);
    let parity = llrs(&[
        -4, -4, -4, 4, 4, 4, -4, -4, -4, 4, 4, 4, -4, -4, -4, 4, 4, 4, 4,
    ]);
    let apriori = vec![Llr::zero(); 16 + 3];

    assert_eq!(
        llrs(&[
            -24, -24, -24, 24, -24, -24, 24, 24, -24, -24, -24, -24, -24, -24, 24, -24, 24, -24, 24
        ]),
        UMTS.decode(&systematic, &parity, &apriori, true)
    );
}

#[test]
fn noise_free_block_decodes_to_what_was_sent() {
    let systematic = llrs(&[4, 4, -4, 4, 4, -4, -4, 4, -4, -4, -4]);
    let parity = llrs(&[4, -4, -4, 4, 4, -4, 4, 4, -4, -4, -4]);
    let apriori = vec![Llr::zero(); 11];
    let l_app = UMTS.decode(&systematic, &parity, &apriori, true);
    assert_eq!(systematic.len(), l_app.len());
    for (sent, found) in systematic.iter().zip(l_app.iter()) {
        assert_eq!(sent.hard(), found.hard());
    }
}

#[test]
fn decode_without_termination() {
    let systematic = llrs(&[4, 4, -4, 4, 4, -4, -4, 4, -4, -4, -4]);
    let parity = llrs(&[4, -4, -4, 4, 4, -4, 4, 4, -4, -4, -4]);
    let apriori = vec![Llr::zero(); 11];
    assert_eq!(
        llrs(&[24, 24, -20, 20, 20, -16, -16, 12, -12, -12, -8]),
        UMTS.decode(&systematic, &parity, &apriori, false)
    );
}

#[test]
fn decode_with_noise_and_apriori_values() {
    let systematic = llrs(&[30, -25, 17, -40, 5, -3, 60, -60, 12, -7, 9, -11]);
    let parity = llrs(&[-20, 14, -35, 8, -2, 44, -9, 127, -128, 3, -6, 1]);
    let apriori = llrs(&[5, -5, 0, 10, -10, 3, -3, 7, -7, 1, -1, 0]);
    assert_eq!(
        llrs(&[65, -70, 68, -68, -16, -16, 86, -37, 17, 17, 17, -17]),
        UMTS.decode(&systematic, &parity, &apriori, true)
    );
    assert_eq!(
        llrs(&[65, -70, 68, -68, -4, -4, 86, -36, 8, -16, 9, -10]),
        UMTS.decode(&systematic, &parity, &apriori, false)
    );
}

#[test]
fn decode_the_shortest_block() {
    let systematic = llrs(&[4, -4, 4, -4, 4, -4]);
    let parity = llrs(&[4, 4, -4, -4, 4, 4]);
    let apriori = vec![Llr::zero(); 6];
    assert_eq!(
        llrs(&[8, 0, 0, 0, 0, 0]),
        UMTS.decode(&systematic, &parity, &apriori, true)
    );
}

#[test]
fn scale_coefficients() {
    let coeff2 = |lanes: [i8; 4]| unpack(scale_coeff2(DWord::new_u32(pack(lanes))).u32());
    let coeff4 = |lanes: [i8; 4]| unpack(scale_coeff4(DWord::new_u32(pack(lanes))).u32());
    let coeff8 = |upper: [i8; 4], lower: [i8; 4]| {
        unpack(scale_coeff8(DWord::new_u32(pack(upper)), DWord::new_u32(pack(lower))).u32())
    };
    assert_eq!([-2, -2, -2, -2], coeff2([-7, 4, 0, 0]));
    assert_eq!([1, 1, 1, 1], coeff4([2, 0, 1, 1]));
    assert_eq!([1, 1, 1, 1], coeff4([1, 1, 0, 2]));
    assert_eq!([-2, -2, -2, -2], coeff4([-7, 3, -128, 127]));
    assert_eq!([8, 8, 8, 8], coeff4([8, 8, 8, 8]));
    assert_eq!([-1, -1, -1, -1], coeff4([-1, 0, 0, 0]));
    assert_eq!([-128, -128, -128, -128], coeff4([-128, -128, -128, -128]));
    assert_eq!([127, 127, 127, 127], coeff4([127, 127, 127, 127]));
    assert_eq!([1, 1, 1, 1], coeff8([1, 2, 3, 4], [-5, 6, -7, 8]));
    assert_eq!([1, 1, 1, 1], coeff8([1, 1, 1, 1], [0, 0, 0, 4]));
    assert_eq!([1, 1, 1, 1], coeff8([0, 0, 0, 4], [1, 1, 1, 1]));
    assert_eq!([-1, -1, -1, -1], coeff8([-1, 0, 0, 0], [0, 0, 0, 0]));
    assert_eq!([-128, -128, -128, -128], coeff8([-128; 4], [-128; 4]));
    assert_eq!([127, 127, 127, 127], coeff8([127; 4], [127; 4]));
}

#[test]
fn scale_coefficients_are_the_floor_of_the_mean() {
    let samples: [i8; 7] = [-128, -77, -1, 0, 1, 50, 127];
    for a in samples {
        for b in samples {
            for c in samples {
                for d in samples {
                    let sum = a as i32 + b as i32 + c as i32 + d as i32;
                    let mean = sum.div_euclid(4) as i8;
                    let word = DWord::new_u32(pack([a, b, c, d]));
                    assert_eq!([mean; 4], unpack(scale_coeff4(word).u32()));
                    let other = DWord::new_u32(pack([d, a, -3, 9]));
                    let sum = sum + d as i32 + a as i32 - 3 + 9;
                    let mean = sum.div_euclid(8) as i8;
                    assert_eq!([mean; 4], unpack(scale_coeff8(word, other).u32()));
                    assert_eq!([mean; 4], unpack(scale_coeff8(other, word).u32()));
                }
            }
        }
    }
}

#[test]
fn forward_update_follows_the_edges() {
    // State 0 alone holds 0; the branch metrics are (0, 1, 2, 3).
    let a74 = DWord::new_u32(0x8080_8080);
    let a30 = DWord::new_u32(0x8080_8000);
    let g = DWord::new_u32(pack([0, 1, 2, 3]));
    // s0 -> s0 on 0/0 and s0 -> s4 on 1/1; every other state starts from -128.
    assert_eq!([0, -126, -126, -125], unpack(compute_a30(a74, a30, g).u32()));
    assert_eq!([3, -126, -126, -125], unpack(compute_a74(a74, a30, g).u32()));
}

#[test]
fn backward_update_follows_the_edges() {
    let b74 = DWord::new_u32(0x8080_8080);
    let b30 = DWord::new_u32(0x8080_8000);
    let g = DWord::new_u32(pack([0, 1, 2, 3]));
    // s0 <- s0 on 0/0 and s1 <- s0 on 1/1; every other state ends in -128.
    assert_eq!([0, 3, -126, -126], unpack(compute_b30(b74, b30, g).u32()));
    assert_eq!([-126, -126, -125, -125], unpack(compute_b74(b74, b30, g).u32()));
}

#[test]
fn path_maxima_respect_the_masks() {
    let a74 = DWord::new_u32(pack([10, 20, 30, 40]));
    let a30 = DWord::new_u32(pack([1, 2, 3, 4]));
    let b74 = DWord::new_u32(pack([0, 0, 0, 0]));
    let b30 = DWord::new_u32(pack([0, 0, 0, 0]));
    let g = DWord::new_u32(pack([0, 1, 2, 3]));
    assert_eq!(Llr(40), compute_max0(a74, a30, g, b74, b30, 0xFFFF_FFFF, 0xFFFF_FFFF));
    assert_eq!(Llr(43), compute_max1(a74, a30, g, b74, b30, 0xFFFF_FFFF, 0xFFFF_FFFF));
    assert_eq!(Llr(5), compute_max0(a74, a30, g, b74, b30, 0, 0xFFFF_FFFF));
    assert_eq!(Llr(6), compute_max1(a74, a30, g, b74, b30, 0, 0xFFFF_FFFF));
    assert_eq!(Llr(1), compute_max0(a74, a30, g, b74, b30, 0, 0x0000_00FF));
    assert_eq!(Llr(4), compute_max1(a74, a30, g, b74, b30, 0, 0x0000_00FF));
    assert_eq!(Llr(-128), compute_max0(a74, a30, g, b74, b30, 0, 0));
    assert_eq!(Llr(-128), compute_max1(a74, a30, g, b74, b30, 0, 0));
}

#[test]
fn path_maxima_under_a_mask_of_single_bits() {
    let a74 = DWord::new_u32(pack([10, 20, 30, 40]));
    let a30 = DWord::new_u32(pack([1, 2, 3, 4]));
    let b74 = DWord::new_u32(pack([0, 0, 0, 0]));
    let b30 = DWord::new_u32(pack([0, 0, 0, 0]));
    let g = DWord::new_u32(pack([0, 1, 2, 3]));
    assert_eq!(Llr(-127), compute_max0(a74, a30, g, b74, b30, 0, 0x0000_000F));
    assert_eq!(Llr(-108), compute_max1(a74, a30, g, b74, b30, 0x0000_3C00, 0x0000_000F));
}
