//! Every interleaver of LTE is a permutation.
//!
//! The proof goes through the tables entry by entry: for each block length
//! it names the inverse of `f1` modulo `k` and the remainders of the second
//! and the fourth power of `f2`, and the general statement on quadratic
//! polynomials does the rest.

use crate::interleavers::lte::{
    lte_params, F_K132_K256_STEP4, F_K264_K768_STEP8, F_K5_K64_STEP1, F_K66_K128_STEP2,
};
use crate::interleavers::qpp::{is_permutation, lemma_qpp_permutation, qpp_values};
use vstd::prelude::*;

verus! {

/// The entries 0 to 7 of the table for the block lengths from 40 to 512 bits.
proof fn lemma_step1_entry_0(idx: int)
    requires
        0 <= idx < 8,
    ensures
        is_permutation(
            qpp_values(40 + 8 * idx, F_K5_K64_STEP1[idx].0 as int, F_K5_K64_STEP1[idx].1 as int),
        ),
{
    if idx == 0 {
        lemma_qpp_permutation(40, 3, 10, 27, 20, 0);
    } else if idx == 1 {
        lemma_qpp_permutation(48, 7, 12, 7, 0, 0);
    } else if idx == 2 {
        lemma_qpp_permutation(56, 19, 42, 3, 28, 0);
    } else if idx == 3 {
        lemma_qpp_permutation(64, 7, 16, 55, 0, 0);
    } else if idx == 4 {
        lemma_qpp_permutation(72, 7, 18, 31, 36, 0);
    } else if idx == 5 {
        lemma_qpp_permutation(80, 11, 20, 51, 0, 0);
    } else if idx == 6 {
        lemma_qpp_permutation(88, 5, 22, 53, 44, 0);
    } else {
        lemma_qpp_permutation(96, 11, 24, 35, 0, 0);
    }
}

/// The entries 8 to 15 of the table for the block lengths from 40 to 512 bits.
proof fn lemma_step1_entry_1(idx: int)
    requires
        8 <= idx < 16,
    ensures
        is_permutation(
            qpp_values(40 + 8 * idx, F_K5_K64_STEP1[idx].0 as int, F_K5_K64_STEP1[idx].1 as int),
        ),
{
    if idx == 8 {
        lemma_qpp_permutation(104, 7, 26, 15, 52, 0);
    } else if idx == 9 {
        lemma_qpp_permutation(112, 41, 84, 41, 0, 0);
    } else if idx == 10 {
        lemma_qpp_permutation(120, 103, 90, 7, 60, 0);
    } else if idx == 11 {
        lemma_qpp_permutation(128, 15, 32, 111, 0, 0);
    } else if idx == 12 {
        lemma_qpp_permutation(136, 9, 34, 121, 68, 0);
    } else if idx == 13 {
        lemma_qpp_permutation(144, 17, 108, 17, 0, 0);
    } else if idx == 14 {
        lemma_qpp_permutation(152, 9, 38, 17, 76, 0);
    } else {
        lemma_qpp_permutation(160, 21, 120, 61, 0, 0);
    }
}

/// The entries 16 to 23 of the table for the block lengths from 40 to 512 bits.
proof fn lemma_step1_entry_2(idx: int)
    requires
        16 <= idx < 24,
    ensures
        is_permutation(
            qpp_values(40 + 8 * idx, F_K5_K64_STEP1[idx].0 as int, F_K5_K64_STEP1[idx].1 as int),
        ),
{
    if idx == 16 {
        lemma_qpp_permutation(168, 101, 84, 5, 0, 0);
    } else if idx == 17 {
        lemma_qpp_permutation(176, 21, 44, 109, 0, 0);
    } else if idx == 18 {
        lemma_qpp_permutation(184, 57, 46, 113, 92, 0);
    } else if idx == 19 {
        lemma_qpp_permutation(192, 23, 48, 167, 0, 0);
    } else if idx == 20 {
        lemma_qpp_permutation(200, 13, 50, 77, 100, 0);
    } else if idx == 21 {
        lemma_qpp_permutation(208, 27, 52, 131, 0, 0);
    } else if idx == 22 {
        lemma_qpp_permutation(216, 11, 36, 59, 0, 0);
    } else {
        lemma_qpp_permutation(224, 27, 56, 83, 0, 0);
    }
}

/// The entries 24 to 31 of the table for the block lengths from 40 to 512 bits.
proof fn lemma_step1_entry_3(idx: int)
    requires
        24 <= idx < 32,
    ensures
        is_permutation(
            qpp_values(40 + 8 * idx, F_K5_K64_STEP1[idx].0 as int, F_K5_K64_STEP1[idx].1 as int),
        ),
{
    if idx == 24 {
        lemma_qpp_permutation(232, 85, 58, 101, 116, 0);
    } else if idx == 25 {
        lemma_qpp_permutation(240, 29, 60, 149, 0, 0);
    } else if idx == 26 {
        lemma_qpp_permutation(248, 33, 62, 233, 124, 0);
    } else if idx == 27 {
        lemma_qpp_permutation(256, 15, 32, 239, 0, 0);
    } else if idx == 28 {
        lemma_qpp_permutation(264, 17, 198, 233, 132, 0);
    } else if idx == 29 {
        lemma_qpp_permutation(272, 33, 68, 33, 0, 0);
    } else if idx == 30 {
        lemma_qpp_permutation(280, 103, 210, 87, 140, 0);
    } else {
        lemma_qpp_permutation(288, 19, 36, 91, 144, 0);
    }
}

/// The entries 32 to 39 of the table for the block lengths from 40 to 512 bits.
proof fn lemma_step1_entry_4(idx: int)
    requires
        32 <= idx < 40,
    ensures
        is_permutation(
            qpp_values(40 + 8 * idx, F_K5_K64_STEP1[idx].0 as int, F_K5_K64_STEP1[idx].1 as int),
        ),
{
    if idx == 32 {
        lemma_qpp_permutation(296, 19, 74, 187, 148, 0);
    } else if idx == 33 {
        lemma_qpp_permutation(304, 37, 76, 189, 0, 0);
    } else if idx == 34 {
        lemma_qpp_permutation(312, 19, 78, 115, 156, 0);
    } else if idx == 35 {
        lemma_qpp_permutation(320, 21, 120, 61, 0, 0);
    } else if idx == 36 {
        lemma_qpp_permutation(328, 21, 82, 125, 164, 0);
    } else if idx == 37 {
        lemma_qpp_permutation(336, 115, 84, 187, 0, 0);
    } else if idx == 38 {
        lemma_qpp_permutation(344, 193, 86, 41, 172, 0);
    } else {
        lemma_qpp_permutation(352, 21, 44, 285, 176, 0);
    }
}

/// The entries 40 to 47 of the table for the block lengths from 40 to 512 bits.
proof fn lemma_step1_entry_5(idx: int)
    requires
        40 <= idx < 48,
    ensures
        is_permutation(
            qpp_values(40 + 8 * idx, F_K5_K64_STEP1[idx].0 as int, F_K5_K64_STEP1[idx].1 as int),
        ),
{
    if idx == 40 {
        lemma_qpp_permutation(360, 133, 90, 157, 180, 0);
    } else if idx == 41 {
        lemma_qpp_permutation(368, 81, 46, 209, 276, 0);
    } else if idx == 42 {
        lemma_qpp_permutation(376, 45, 94, 117, 188, 0);
    } else if idx == 43 {
        lemma_qpp_permutation(384, 23, 48, 167, 0, 0);
    } else if idx == 44 {
        lemma_qpp_permutation(392, 243, 98, 171, 196, 0);
    } else if idx == 45 {
        lemma_qpp_permutation(400, 151, 40, 151, 0, 0);
    } else if idx == 46 {
        lemma_qpp_permutation(408, 155, 102, 179, 204, 0);
    } else {
        lemma_qpp_permutation(416, 25, 52, 233, 208, 0);
    }
}

/// The entries 48 to 55 of the table for the block lengths from 40 to 512 bits.
proof fn lemma_step1_entry_6(idx: int)
    requires
        48 <= idx < 56,
    ensures
        is_permutation(
            qpp_values(40 + 8 * idx, F_K5_K64_STEP1[idx].0 as int, F_K5_K64_STEP1[idx].1 as int),
        ),
{
    if idx == 48 {
        lemma_qpp_permutation(424, 51, 106, 291, 212, 0);
    } else if idx == 49 {
        lemma_qpp_permutation(432, 47, 72, 239, 0, 0);
    } else if idx == 50 {
        lemma_qpp_permutation(440, 91, 110, 411, 220, 0);
    } else if idx == 51 {
        lemma_qpp_permutation(448, 29, 168, 309, 0, 0);
    } else if idx == 52 {
        lemma_qpp_permutation(456, 29, 114, 173, 228, 0);
    } else if idx == 53 {
        lemma_qpp_permutation(464, 247, 58, 263, 116, 0);
    } else if idx == 54 {
        lemma_qpp_permutation(472, 29, 118, 293, 236, 0);
    } else {
        lemma_qpp_permutation(480, 89, 180, 329, 240, 0);
    }
}

/// The entries 56 to 59 of the table for the block lengths from 40 to 512 bits.
proof fn lemma_step1_entry_7(idx: int)
    requires
        56 <= idx < 60,
    ensures
        is_permutation(
            qpp_values(40 + 8 * idx, F_K5_K64_STEP1[idx].0 as int, F_K5_K64_STEP1[idx].1 as int),
        ),
{
    if idx == 56 {
        lemma_qpp_permutation(488, 91, 122, 59, 244, 0);
    } else if idx == 57 {
        lemma_qpp_permutation(496, 157, 62, 357, 372, 0);
    } else if idx == 58 {
        lemma_qpp_permutation(504, 55, 84, 55, 0, 0);
    } else {
        lemma_qpp_permutation(512, 31, 64, 479, 0, 0);
    }
}

/// Every entry of the table for the block lengths from 40 to 512 bits gives a permutation.
proof fn lemma_step1_entry(idx: int)
    requires
        0 <= idx < 60,
    ensures
        is_permutation(
            qpp_values(40 + 8 * idx, F_K5_K64_STEP1[idx].0 as int, F_K5_K64_STEP1[idx].1 as int),
        ),
{
    if idx < 8 {
        lemma_step1_entry_0(idx);
    } else if idx < 16 {
        lemma_step1_entry_1(idx);
    } else if idx < 24 {
        lemma_step1_entry_2(idx);
    } else if idx < 32 {
        lemma_step1_entry_3(idx);
    } else if idx < 40 {
        lemma_step1_entry_4(idx);
    } else if idx < 48 {
        lemma_step1_entry_5(idx);
    } else if idx < 56 {
        lemma_step1_entry_6(idx);
    } else {
        lemma_step1_entry_7(idx);
    }
}

/// The entries 0 to 7 of the table for the block lengths from 528 to 1024 bits.
proof fn lemma_step2_entry_0(idx: int)
    requires
        0 <= idx < 8,
    ensures
        is_permutation(
            qpp_values(528 + 16 * idx, F_K66_K128_STEP2[idx].0 as int, F_K66_K128_STEP2[idx].1 as int),
        ),
{
    if idx == 0 {
        lemma_qpp_permutation(528, 17, 66, 497, 132, 0);
    } else if idx == 1 {
        lemma_qpp_permutation(544, 35, 68, 171, 272, 0);
    } else if idx == 2 {
        lemma_qpp_permutation(560, 227, 420, 523, 0, 0);
    } else if idx == 3 {
        lemma_qpp_permutation(576, 65, 96, 257, 0, 0);
    } else if idx == 4 {
        lemma_qpp_permutation(592, 19, 74, 187, 148, 0);
    } else if idx == 5 {
        lemma_qpp_permutation(608, 37, 76, 493, 304, 0);
    } else if idx == 6 {
        lemma_qpp_permutation(624, 41, 234, 137, 468, 0);
    } else {
        lemma_qpp_permutation(640, 39, 80, 279, 0, 0);
    }
}

/// The entries 8 to 15 of the table for the block lengths from 528 to 1024 bits.
proof fn lemma_step2_entry_1(idx: int)
    requires
        8 <= idx < 16,
    ensures
        is_permutation(
            qpp_values(528 + 16 * idx, F_K66_K128_STEP2[idx].0 as int, F_K66_K128_STEP2[idx].1 as int),
        ),
{
    if idx == 8 {
        lemma_qpp_permutation(656, 185, 82, 617, 164, 0);
    } else if idx == 9 {
        lemma_qpp_permutation(672, 43, 252, 547, 336, 0);
    } else if idx == 10 {
        lemma_qpp_permutation(688, 21, 86, 557, 516, 0);
    } else if idx == 11 {
        lemma_qpp_permutation(704, 155, 44, 595, 528, 0);
    } else if idx == 12 {
        lemma_qpp_permutation(720, 79, 120, 319, 0, 0);
    } else if idx == 13 {
        lemma_qpp_permutation(736, 139, 92, 323, 368, 0);
    } else if idx == 14 {
        lemma_qpp_permutation(752, 23, 94, 327, 564, 0);
    } else {
        lemma_qpp_permutation(768, 217, 48, 361, 0, 0);
    }
}

/// The entries 16 to 23 of the table for the block lengths from 528 to 1024 bits.
proof fn lemma_step2_entry_2(idx: int)
    requires
        16 <= idx < 24,
    ensures
        is_permutation(
            qpp_values(528 + 16 * idx, F_K66_K128_STEP2[idx].0 as int, F_K66_K128_STEP2[idx].1 as int),
        ),
{
    if idx == 16 {
        lemma_qpp_permutation(784, 25, 98, 345, 196, 0);
    } else if idx == 17 {
        lemma_qpp_permutation(800, 17, 80, 753, 0, 0);
    } else if idx == 18 {
        lemma_qpp_permutation(816, 127, 102, 559, 612, 0);
    } else if idx == 19 {
        lemma_qpp_permutation(832, 25, 52, 233, 208, 0);
    } else if idx == 20 {
        lemma_qpp_permutation(848, 239, 106, 479, 212, 0);
    } else if idx == 21 {
        lemma_qpp_permutation(864, 17, 48, 305, 576, 0);
    } else if idx == 22 {
        lemma_qpp_permutation(880, 137, 110, 713, 660, 0);
    } else {
        lemma_qpp_permutation(896, 215, 112, 871, 0, 0);
    }
}

/// The entries 24 to 31 of the table for the block lengths from 528 to 1024 bits.
proof fn lemma_step2_entry_3(idx: int)
    requires
        24 <= idx < 32,
    ensures
        is_permutation(
            qpp_values(528 + 16 * idx, F_K66_K128_STEP2[idx].0 as int, F_K66_K128_STEP2[idx].1 as int),
        ),
{
    if idx == 24 {
        lemma_qpp_permutation(912, 29, 114, 629, 228, 0);
    } else if idx == 25 {
        lemma_qpp_permutation(928, 15, 58, 495, 580, 464);
    } else if idx == 26 {
        lemma_qpp_permutation(944, 147, 118, 411, 708, 0);
    } else if idx == 27 {
        lemma_qpp_permutation(960, 29, 60, 629, 720, 0);
    } else if idx == 28 {
        lemma_qpp_permutation(976, 59, 122, 579, 244, 0);
    } else if idx == 29 {
        lemma_qpp_permutation(992, 65, 124, 641, 496, 0);
    } else if idx == 30 {
        lemma_qpp_permutation(1008, 55, 84, 55, 0, 0);
    } else {
        lemma_qpp_permutation(1024, 31, 64, 991, 0, 0);
    }
}

/// Every entry of the table for the block lengths from 528 to 1024 bits gives a permutation.
proof fn lemma_step2_entry(idx: int)
    requires
        0 <= idx < 32,
    ensures
        is_permutation(
            qpp_values(528 + 16 * idx, F_K66_K128_STEP2[idx].0 as int, F_K66_K128_STEP2[idx].1 as int),
        ),
{
    if idx < 8 {
        lemma_step2_entry_0(idx);
    } else if idx < 16 {
        lemma_step2_entry_1(idx);
    } else if idx < 24 {
        lemma_step2_entry_2(idx);
    } else {
        lemma_step2_entry_3(idx);
    }
}

/// The entries 0 to 7 of the table for the block lengths from 1056 to 2048 bits.
proof fn lemma_step4_entry_0(idx: int)
    requires
        0 <= idx < 8,
    ensures
        is_permutation(
            qpp_values(1056 + 32 * idx, F_K132_K256_STEP4[idx].0 as int, F_K132_K256_STEP4[idx].1 as int),
        ),
{
    if idx == 0 {
        lemma_qpp_permutation(1056, 17, 66, 497, 132, 528);
    } else if idx == 1 {
        lemma_qpp_permutation(1088, 171, 204, 579, 272, 0);
    } else if idx == 2 {
        lemma_qpp_permutation(1120, 67, 140, 1003, 560, 0);
    } else if idx == 3 {
        lemma_qpp_permutation(1152, 35, 72, 395, 576, 0);
    } else if idx == 4 {
        lemma_qpp_permutation(1184, 19, 74, 187, 740, 592);
    } else if idx == 5 {
        lemma_qpp_permutation(1216, 39, 76, 343, 912, 0);
    } else if idx == 6 {
        lemma_qpp_permutation(1248, 19, 78, 1051, 1092, 624);
    } else {
        lemma_qpp_permutation(1280, 199, 240, 759, 0, 0);
    }
}

/// The entries 8 to 15 of the table for the block lengths from 1056 to 2048 bits.
proof fn lemma_step4_entry_1(idx: int)
    requires
        8 <= idx < 16,
    ensures
        is_permutation(
            qpp_values(1056 + 32 * idx, F_K132_K256_STEP4[idx].0 as int, F_K132_K256_STEP4[idx].1 as int),
        ),
{
    if idx == 8 {
        lemma_qpp_permutation(1312, 21, 82, 125, 164, 656);
    } else if idx == 9 {
        lemma_qpp_permutation(1344, 211, 252, 1051, 336, 0);
    } else if idx == 10 {
        lemma_qpp_permutation(1376, 21, 86, 1245, 516, 688);
    } else if idx == 11 {
        lemma_qpp_permutation(1408, 43, 88, 131, 704, 0);
    } else if idx == 12 {
        lemma_qpp_permutation(1440, 149, 60, 29, 720, 0);
    } else if idx == 13 {
        lemma_qpp_permutation(1472, 45, 92, 229, 1104, 0);
    } else if idx == 14 {
        lemma_qpp_permutation(1504, 49, 846, 1105, 1316, 752);
    } else {
        lemma_qpp_permutation(1536, 71, 48, 887, 768, 0);
    }
}

/// The entries 16 to 23 of the table for the block lengths from 1056 to 2048 bits.
proof fn lemma_step4_entry_2(idx: int)
    requires
        16 <= idx < 24,
    ensures
        is_permutation(
            qpp_values(1056 + 32 * idx, F_K132_K256_STEP4[idx].0 as int, F_K132_K256_STEP4[idx].1 as int),
        ),
{
    if idx == 16 {
        lemma_qpp_permutation(1568, 13, 28, 965, 784, 0);
    } else if idx == 17 {
        lemma_qpp_permutation(1600, 17, 80, 753, 0, 0);
    } else if idx == 18 {
        lemma_qpp_permutation(1632, 25, 102, 457, 612, 816);
    } else if idx == 19 {
        lemma_qpp_permutation(1664, 183, 104, 391, 832, 0);
    } else if idx == 20 {
        lemma_qpp_permutation(1696, 55, 954, 1511, 1060, 848);
    } else if idx == 21 {
        lemma_qpp_permutation(1728, 127, 96, 1279, 576, 0);
    } else if idx == 22 {
        lemma_qpp_permutation(1760, 27, 110, 1043, 1540, 880);
    } else {
        lemma_qpp_permutation(1792, 29, 112, 309, 0, 0);
    }
}

/// The entries 24 to 31 of the table for the block lengths from 1056 to 2048 bits.
proof fn lemma_step4_entry_3(idx: int)
    requires
        24 <= idx < 32,
    ensures
        is_permutation(
            qpp_values(1056 + 32 * idx, F_K132_K256_STEP4[idx].0 as int, F_K132_K256_STEP4[idx].1 as int),
        ),
{
    if idx == 24 {
        lemma_qpp_permutation(1824, 29, 114, 629, 228, 912);
    } else if idx == 25 {
        lemma_qpp_permutation(1856, 57, 116, 521, 464, 0);
    } else if idx == 26 {
        lemma_qpp_permutation(1888, 45, 354, 965, 708, 944);
    } else if idx == 27 {
        lemma_qpp_permutation(1920, 31, 120, 991, 960, 0);
    } else if idx == 28 {
        lemma_qpp_permutation(1952, 59, 610, 1555, 1220, 976);
    } else if idx == 29 {
        lemma_qpp_permutation(1984, 185, 124, 1673, 1488, 0);
    } else if idx == 30 {
        lemma_qpp_permutation(2016, 113, 420, 785, 1008, 0);
    } else {
        lemma_qpp_permutation(2048, 31, 64, 991, 0, 0);
    }
}

/// Every entry of the table for the block lengths from 1056 to 2048 bits gives a permutation.
proof fn lemma_step4_entry(idx: int)
    requires
        0 <= idx < 32,
    ensures
        is_permutation(
            qpp_values(1056 + 32 * idx, F_K132_K256_STEP4[idx].0 as int, F_K132_K256_STEP4[idx].1 as int),
        ),
{
    if idx < 8 {
        lemma_step4_entry_0(idx);
    } else if idx < 16 {
        lemma_step4_entry_1(idx);
    } else if idx < 24 {
        lemma_step4_entry_2(idx);
    } else {
        lemma_step4_entry_3(idx);
    }
}

/// The entries 0 to 7 of the table for the block lengths from 2112 to 6144 bits.
proof fn lemma_step8_entry_0(idx: int)
    requires
        0 <= idx < 8,
    ensures
        is_permutation(
            qpp_values(2112 + 64 * idx, F_K264_K768_STEP8[idx].0 as int, F_K264_K768_STEP8[idx].1 as int),
        ),
{
    if idx == 0 {
        lemma_qpp_permutation(2112, 17, 66, 497, 132, 528);
    } else if idx == 1 {
        lemma_qpp_permutation(2176, 171, 136, 1667, 1088, 0);
    } else if idx == 2 {
        lemma_qpp_permutation(2240, 209, 420, 1329, 1680, 0);
    } else if idx == 3 {
        lemma_qpp_permutation(2304, 253, 216, 1621, 576, 0);
    } else if idx == 4 {
        lemma_qpp_permutation(2368, 367, 444, 271, 592, 0);
    } else if idx == 5 {
        lemma_qpp_permutation(2432, 265, 456, 569, 1216, 0);
    } else if idx == 6 {
        lemma_qpp_permutation(2496, 181, 468, 1117, 1872, 0);
    } else {
        lemma_qpp_permutation(2560, 39, 80, 919, 1280, 0);
    }
}

/// The entries 8 to 15 of the table for the block lengths from 2112 to 6144 bits.
proof fn lemma_step8_entry_1(idx: int)
    requires
        8 <= idx < 16,
    ensures
        is_permutation(
            qpp_values(2112 + 64 * idx, F_K264_K768_STEP8[idx].0 as int, F_K264_K768_STEP8[idx].1 as int),
        ),
{
    if idx == 8 {
        lemma_qpp_permutation(2624, 27, 164, 1555, 656, 0);
    } else if idx == 9 {
        lemma_qpp_permutation(2688, 127, 504, 127, 1344, 0);
    } else if idx == 10 {
        lemma_qpp_permutation(2752, 143, 172, 943, 2064, 0);
    } else if idx == 11 {
        lemma_qpp_permutation(2816, 43, 88, 131, 2112, 0);
    } else if idx == 12 {
        lemma_qpp_permutation(2880, 29, 300, 1589, 720, 0);
    } else if idx == 13 {
        lemma_qpp_permutation(2944, 45, 92, 1701, 2576, 0);
    } else if idx == 14 {
        lemma_qpp_permutation(3008, 157, 188, 2165, 2256, 0);
    } else {
        lemma_qpp_permutation(3072, 47, 96, 719, 0, 0);
    }
}

/// The entries 16 to 23 of the table for the block lengths from 2112 to 6144 bits.
proof fn lemma_step8_entry_2(idx: int)
    requires
        16 <= idx < 24,
    ensures
        is_permutation(
            qpp_values(2112 + 64 * idx, F_K264_K768_STEP8[idx].0 as int, F_K264_K768_STEP8[idx].1 as int),
        ),
{
    if idx == 16 {
        lemma_qpp_permutation(3136, 13, 28, 965, 784, 0);
    } else if idx == 17 {
        lemma_qpp_permutation(3200, 111, 240, 2191, 0, 0);
    } else if idx == 18 {
        lemma_qpp_permutation(3264, 443, 204, 2483, 2448, 0);
    } else if idx == 19 {
        lemma_qpp_permutation(3328, 51, 104, 3067, 832, 0);
    } else if idx == 20 {
        lemma_qpp_permutation(3392, 51, 212, 3259, 848, 0);
    } else if idx == 21 {
        lemma_qpp_permutation(3456, 451, 192, 1387, 2304, 0);
    } else if idx == 22 {
        lemma_qpp_permutation(3520, 257, 220, 2753, 2640, 0);
    } else {
        lemma_qpp_permutation(3584, 57, 336, 3081, 1792, 0);
    }
}

/// The entries 24 to 31 of the table for the block lengths from 2112 to 6144 bits.
proof fn lemma_step8_entry_3(idx: int)
    requires
        24 <= idx < 32,
    ensures
        is_permutation(
            qpp_values(2112 + 64 * idx, F_K264_K768_STEP8[idx].0 as int, F_K264_K768_STEP8[idx].1 as int),
        ),
{
    if idx == 24 {
        lemma_qpp_permutation(3648, 313, 228, 1993, 912, 0);
    } else if idx == 25 {
        lemma_qpp_permutation(3712, 271, 232, 2671, 1856, 0);
    } else if idx == 26 {
        lemma_qpp_permutation(3776, 179, 236, 443, 2832, 0);
    } else if idx == 27 {
        lemma_qpp_permutation(3840, 331, 120, 1891, 2880, 0);
    } else if idx == 28 {
        lemma_qpp_permutation(3904, 363, 244, 1667, 976, 0);
    } else if idx == 29 {
        lemma_qpp_permutation(3968, 375, 248, 455, 1984, 0);
    } else if idx == 30 {
        lemma_qpp_permutation(4032, 127, 168, 127, 0, 0);
    } else {
        lemma_qpp_permutation(4096, 31, 64, 3039, 0, 0);
    }
}

/// The entries 32 to 39 of the table for the block lengths from 2112 to 6144 bits.
proof fn lemma_step8_entry_4(idx: int)
    requires
        32 <= idx < 40,
    ensures
        is_permutation(
            qpp_values(2112 + 64 * idx, F_K264_K768_STEP8[idx].0 as int, F_K264_K768_STEP8[idx].1 as int),
        ),
{
    if idx == 32 {
        lemma_qpp_permutation(4160, 33, 130, 2017, 260, 1040);
    } else if idx == 33 {
        lemma_qpp_permutation(4224, 43, 264, 2947, 2112, 0);
    } else if idx == 34 {
        lemma_qpp_permutation(4288, 33, 134, 2209, 804, 3216);
    } else if idx == 35 {
        lemma_qpp_permutation(4352, 477, 408, 885, 1088, 0);
    } else if idx == 36 {
        lemma_qpp_permutation(4416, 35, 138, 3659, 1380, 1104);
    } else if idx == 37 {
        lemma_qpp_permutation(4480, 233, 280, 4057, 2240, 0);
    } else if idx == 38 {
        lemma_qpp_permutation(4544, 357, 142, 3373, 1988, 3408);
    } else {
        lemma_qpp_permutation(4608, 337, 480, 1969, 0, 0);
    }
}

/// The entries 40 to 47 of the table for the block lengths from 2112 to 6144 bits.
proof fn lemma_step8_entry_5(idx: int)
    requires
        40 <= idx < 48,
    ensures
        is_permutation(
            qpp_values(2112 + 64 * idx, F_K264_K768_STEP8[idx].0 as int, F_K264_K768_STEP8[idx].1 as int),
        ),
{
    if idx == 40 {
        lemma_qpp_permutation(4672, 37, 146, 1389, 2628, 1168);
    } else if idx == 41 {
        lemma_qpp_permutation(4736, 71, 444, 2935, 2960, 0);
    } else if idx == 42 {
        lemma_qpp_permutation(4800, 71, 120, 2231, 0, 0);
    } else if idx == 43 {
        lemma_qpp_permutation(4864, 37, 152, 1709, 3648, 0);
    } else if idx == 44 {
        lemma_qpp_permutation(4928, 39, 462, 3159, 1540, 1232);
    } else if idx == 45 {
        lemma_qpp_permutation(4992, 127, 234, 511, 4836, 4368);
    } else if idx == 46 {
        lemma_qpp_permutation(5056, 39, 158, 1815, 4740, 3792);
    } else {
        lemma_qpp_permutation(5120, 39, 80, 919, 1280, 0);
    }
}

/// The entries 48 to 55 of the table for the block lengths from 2112 to 6144 bits.
proof fn lemma_step8_entry_6(idx: int)
    requires
        48 <= idx < 56,
    ensures
        is_permutation(
            qpp_values(2112 + 64 * idx, F_K264_K768_STEP8[idx].0 as int, F_K264_K768_STEP8[idx].1 as int),
        ),
{
    if idx == 48 {
        lemma_qpp_permutation(5184, 31, 96, 3679, 4032, 0);
    } else if idx == 49 {
        lemma_qpp_permutation(5248, 113, 902, 2833, 164, 656);
    } else if idx == 50 {
        lemma_qpp_permutation(5312, 41, 166, 2073, 996, 3984);
    } else if idx == 51 {
        lemma_qpp_permutation(5376, 251, 336, 2099, 0, 0);
    } else if idx == 52 {
        lemma_qpp_permutation(5440, 43, 170, 5187, 1700, 1360);
    } else if idx == 53 {
        lemma_qpp_permutation(5504, 21, 86, 2621, 1892, 2064);
    } else if idx == 54 {
        lemma_qpp_permutation(5568, 43, 174, 259, 2436, 4176);
    } else {
        lemma_qpp_permutation(5632, 45, 176, 4005, 2816, 0);
    }
}

/// The entries 56 to 63 of the table for the block lengths from 2112 to 6144 bits.
proof fn lemma_step8_entry_7(idx: int)
    requires
        56 <= idx < 64,
    ensures
        is_permutation(
            qpp_values(2112 + 64 * idx, F_K264_K768_STEP8[idx].0 as int, F_K264_K768_STEP8[idx].1 as int),
        ),
{
    if idx == 56 {
        lemma_qpp_permutation(5696, 45, 178, 2405, 3204, 1424);
    } else if idx == 57 {
        lemma_qpp_permutation(5760, 161, 120, 3041, 2880, 0);
    } else if idx == 58 {
        lemma_qpp_permutation(5824, 89, 182, 4777, 4004, 4368);
    } else if idx == 59 {
        lemma_qpp_permutation(5888, 323, 184, 875, 4416, 0);
    } else if idx == 60 {
        lemma_qpp_permutation(5952, 47, 186, 4559, 4836, 1488);
    } else if idx == 61 {
        lemma_qpp_permutation(6016, 23, 94, 1831, 2820, 5264);
    } else if idx == 62 {
        lemma_qpp_permutation(6080, 47, 190, 1423, 5700, 4560);
    } else {
        lemma_qpp_permutation(6144, 263, 480, 5303, 3072, 0);
    }
}

/// Every entry of the table for the block lengths from 2112 to 6144 bits gives a permutation.
proof fn lemma_step8_entry(idx: int)
    requires
        0 <= idx < 64,
    ensures
        is_permutation(
            qpp_values(2112 + 64 * idx, F_K264_K768_STEP8[idx].0 as int, F_K264_K768_STEP8[idx].1 as int),
        ),
{
    if idx < 8 {
        lemma_step8_entry_0(idx);
    } else if idx < 16 {
        lemma_step8_entry_1(idx);
    } else if idx < 24 {
        lemma_step8_entry_2(idx);
    } else if idx < 32 {
        lemma_step8_entry_3(idx);
    } else if idx < 40 {
        lemma_step8_entry_4(idx);
    } else if idx < 48 {
        lemma_step8_entry_5(idx);
    } else if idx < 56 {
        lemma_step8_entry_6(idx);
    } else {
        lemma_step8_entry_7(idx);
    }
}

/// The interleaver of every block length that LTE has is a permutation:
/// the interleaved indices of the places 0 to `k - 1` are the numbers 0 to
/// `k - 1`, each of them once.
pub proof fn lemma_lte_permutation(k: int)
    requires
        lte_params(k).is_some(),
    ensures
        is_permutation(qpp_values(k, lte_params(k).unwrap().0, lte_params(k).unwrap().1)),
        qpp_values(k, lte_params(k).unwrap().0, lte_params(k).unwrap().1).len() == k,
{
    if 40 <= k <= 512 {
        lemma_step1_entry((k - 40) / 8);
    } else if 528 <= k <= 1024 {
        lemma_step2_entry((k - 528) / 16);
    } else if 1056 <= k <= 2048 {
        lemma_step4_entry((k - 1056) / 32);
    } else {
        lemma_step8_entry((k - 2112) / 64);
    }
}

} // verus!
