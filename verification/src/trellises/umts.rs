//! Max-log-MAP decoding on the eight-state UMTS trellis.
//!
//! The state metrics of one stage are kept in two words: `s74` holds states 7
//! to 4 and `s30` holds states 3 to 0, the lower state in the lower lane.
//! The branch metrics of one stage are kept in one word, whose lane `2u + v`
//! holds the metric of an edge with input bit `u` and parity bit `v`.

use crate::bcjr::{BcjrDecoder, MIN_BLOCK_LEN};
use crate::dword::{rotated_right, DWord};
use crate::llr::Llr;
use crate::simd::fallback::{pack, unpack};
use crate::simd::{half, lane, max2, sat8, CmpExt, HalfExt, SaturateInto, SaturatingExt};
use std::collections::VecDeque;
use vstd::prelude::*;

verus! {

/// The state that the encoder enters from state `s` on input bit `u`.
pub open spec fn next_state(s: int, u: int) -> int {
    if u == 0 {
        if s == 0 {
            0
        } else if s == 1 {
            4
        } else if s == 2 {
            5
        } else if s == 3 {
            1
        } else if s == 4 {
            2
        } else if s == 5 {
            6
        } else if s == 6 {
            7
        } else {
            3
        }
    } else {
        if s == 0 {
            4
        } else if s == 1 {
            0
        } else if s == 2 {
            1
        } else if s == 3 {
            5
        } else if s == 4 {
            6
        } else if s == 5 {
            2
        } else if s == 6 {
            3
        } else {
            7
        }
    }
}

/// The state from which the encoder enters state `s` on input bit `u`.
pub open spec fn prev_state(s: int, u: int) -> int {
    if u == 0 {
        if s == 0 {
            0
        } else if s == 1 {
            3
        } else if s == 2 {
            4
        } else if s == 3 {
            7
        } else if s == 4 {
            1
        } else if s == 5 {
            2
        } else if s == 6 {
            5
        } else {
            6
        }
    } else {
        if s == 0 {
            1
        } else if s == 1 {
            2
        } else if s == 2 {
            5
        } else if s == 3 {
            6
        } else if s == 4 {
            0
        } else if s == 5 {
            3
        } else if s == 6 {
            4
        } else {
            7
        }
    }
}

/// The parity bit that the encoder emits when it leaves state `s` on input bit `u`.
pub open spec fn parity_bit(s: int, u: int) -> int {
    let on_zero: int = if s == 0 || s == 1 || s == 6 || s == 7 {
        0
    } else {
        1
    };
    if u == 0 {
        on_zero
    } else {
        1 - on_zero
    }
}

/// The place of the edge that leaves `s` on input bit `u` among the four
/// branch metrics of a stage.
pub open spec fn label(s: int, u: int) -> int {
    2 * u + parity_bit(s, u)
}

/// The metric of state `s` in the two words that hold the metrics of a stage.
pub open spec fn state_metric(s74: u32, s30: u32, s: int) -> int {
    if s == 0 {
        lane(s30, 0) as int
    } else if s == 1 {
        lane(s30, 1) as int
    } else if s == 2 {
        lane(s30, 2) as int
    } else if s == 3 {
        lane(s30, 3) as int
    } else if s == 4 {
        lane(s74, 0) as int
    } else if s == 5 {
        lane(s74, 1) as int
    } else if s == 6 {
        lane(s74, 2) as int
    } else {
        lane(s74, 3) as int
    }
}

/// The eight state metrics that two words hold, state 0 first.
pub open spec fn metrics(s74: u32, s30: u32) -> Seq<int> {
    Seq::new(8, |s: int| state_metric(s74, s30, s))
}

/// The branch metric in place `e` of the word that holds those of a stage.
pub open spec fn branch_metric(g: u32, e: int) -> int {
    if e == 0 {
        lane(g, 0) as int
    } else if e == 1 {
        lane(g, 1) as int
    } else if e == 2 {
        lane(g, 2) as int
    } else {
        lane(g, 3) as int
    }
}

/// The four branch metrics that a word holds.
pub open spec fn gammas(g: u32) -> Seq<int> {
    Seq::new(4, |e: int| branch_metric(g, e))
}

/// The forward metric of state `s` after a stage with branch metrics `g`,
/// from the metrics `a` before it: the better of the two edges that enter `s`.
pub open spec fn forward(a: Seq<int>, g: Seq<int>, s: int) -> int {
    max2(
        sat8(a[prev_state(s, 0)] + g[label(prev_state(s, 0), 0)]),
        sat8(a[prev_state(s, 1)] + g[label(prev_state(s, 1), 1)]),
    )
}

/// The backward metric of state `s` before a stage with branch metrics `g`,
/// from the metrics `b` after it: the better of the two edges that leave `s`.
pub open spec fn backward(b: Seq<int>, g: Seq<int>, s: int) -> int {
    max2(sat8(b[next_state(s, 0)] + g[label(s, 0)]), sat8(b[next_state(s, 1)] + g[label(s, 1)]))
}

/// The lanes of the words that line up, for the states 7 to 4, the metrics of
/// the states before them and the branch metrics of the edges between.
proof fn lemma_forward_upper(a74: u32, a30: u32, g: u32)
    by (bit_vector)
    ensures
        ({
            let a = ((a74 & 0x00FFFF00) << 8) | ((a30 & 0x00FFFF00) >> 8);
            &&& lane(a, 3) == lane(a74, 2)
            &&& lane(a, 2) == lane(a74, 1)
            &&& lane(a, 1) == lane(a30, 2)
            &&& lane(a, 0) == lane(a30, 1)
        }),
        ({
            let a = (a74 & 0xFF000000) | ((a74 & 0x000000FF) << 16) | ((a30 & 0xFF000000) >> 16) | (
            a30 & 0x000000FF);
            &&& lane(a, 3) == lane(a74, 3)
            &&& lane(a, 2) == lane(a74, 0)
            &&& lane(a, 1) == lane(a30, 3)
            &&& lane(a, 0) == lane(a30, 0)
        }),
        ({
            let x = ((g & 0x000000FF) << 24) | ((g & 0x0000FF00) << 8) | (g & 0x0000FFFF);
            &&& lane(x, 3) == lane(g, 0)
            &&& lane(x, 2) == lane(g, 1)
            &&& lane(x, 1) == lane(g, 1)
            &&& lane(x, 0) == lane(g, 0)
        }),
        ({
            let x = (g & 0xFFFF0000) | ((g & 0x00FF0000) >> 8) | ((g & 0xFF000000) >> 24);
            &&& lane(x, 3) == lane(g, 3)
            &&& lane(x, 2) == lane(g, 2)
            &&& lane(x, 1) == lane(g, 2)
            &&& lane(x, 0) == lane(g, 3)
        }),
{
}

/// The forward metrics of states 7 to 4 after one stage.
pub fn compute_a74(a74_prev: DWord, a30_prev: DWord, g: DWord) -> (r: DWord)
    ensures
        lane(r.0, 0) == forward(metrics(a74_prev.0, a30_prev.0), gammas(g.0), 4),
        lane(r.0, 1) == forward(metrics(a74_prev.0, a30_prev.0), gammas(g.0), 5),
        lane(r.0, 2) == forward(metrics(a74_prev.0, a30_prev.0), gammas(g.0), 6),
        lane(r.0, 3) == forward(metrics(a74_prev.0, a30_prev.0), gammas(g.0), 7),
{
    proof {
        lemma_forward_upper(a74_prev.0, a30_prev.0, g.0);
    }
    // Input bit 0: s6 -> s7 (0/0), s5 -> s6 (0/1), s2 -> s5 (0/1), s1 -> s4 (0/0).
    let a74 = ((a74_prev & 0x00FFFF00) << 8) | ((a30_prev & 0x00FFFF00) >> 8);
    let g74 = ((g & 0x000000FF) << 24) | ((g & 0x0000FF00) << 8) | (g & 0x0000FFFF);
    let zero74 = a74.saturating_add_i8(g74);

    // Input bit 1: s7 -> s7 (1/1), s4 -> s6 (1/0), s3 -> s5 (1/0), s0 -> s4 (1/1).
    let a74 = (a74_prev & 0xFF000000) | ((a74_prev & 0x000000FF) << 16) | ((a30_prev & 0xFF000000)
        >> 16) | (a30_prev & 0x000000FF);
    let g74 = (g & 0xFFFF0000) | ((g & 0x00FF0000) >> 8) | ((g & 0xFF000000) >> 24);
    let one74 = a74.saturating_add_i8(g74);

    zero74.max_i8(one74)
}

/// The forward metrics of states 3 to 0 after one stage.
pub fn compute_a30(a74_prev: DWord, a30_prev: DWord, g: DWord) -> (r: DWord)
    ensures
        lane(r.0, 0) == forward(metrics(a74_prev.0, a30_prev.0), gammas(g.0), 0),
        lane(r.0, 1) == forward(metrics(a74_prev.0, a30_prev.0), gammas(g.0), 1),
        lane(r.0, 2) == forward(metrics(a74_prev.0, a30_prev.0), gammas(g.0), 2),
        lane(r.0, 3) == forward(metrics(a74_prev.0, a30_prev.0), gammas(g.0), 3),
{
    proof {
        lemma_forward_upper(a74_prev.0, a30_prev.0, g.0);
    }
    // Input bit 0: s7 -> s3 (0/0), s4 -> s2 (0/1), s3 -> s1 (0/1), s0 -> s0 (0/0).
    let a30 = (a74_prev & 0xFF000000) | ((a74_prev & 0x000000FF) << 16) | ((a30_prev & 0xFF000000)
        >> 16) | (a30_prev & 0x000000FF);
    let g30 = ((g & 0x000000FF) << 24) | ((g & 0x0000FF00) << 8) | (g & 0x0000FFFF);
    let zero30 = a30.saturating_add_i8(g30);

    // Input bit 1: s6 -> s3 (1/1), s5 -> s2 (1/0), s2 -> s1 (1/0), s1 -> s0 (1/1).
    let a30 = ((a74_prev & 0x00FFFF00) << 8) | ((a30_prev & 0x00FFFF00) >> 8);
    let g30 = (g & 0xFFFF0000) | ((g & 0x00FF0000) >> 8) | ((g & 0xFF000000) >> 24);
    let one30 = a30.saturating_add_i8(g30);

    zero30.max_i8(one30)
}

/// The lanes of the words that line up, for every state, the metrics of the
/// states after it and the branch metrics of the edges between.
proof fn lemma_backward_words(b74: u32, b30: u32, g: u32)
    by (bit_vector)
    ensures
        ({
            let b = (b30 & 0xFF000000) | ((b74 & 0xFFFF0000) >> 8) | ((b30 & 0x00FF0000) >> 16);
            &&& lane(b, 3) == lane(b30, 3)
            &&& lane(b, 2) == lane(b74, 3)
            &&& lane(b, 1) == lane(b74, 2)
            &&& lane(b, 0) == lane(b30, 2)
        }),
        ({
            let x = ((g & 0x000000FF) << 24) | ((g & 0x000000FF) << 16) | (g & 0x0000FF00) | ((g
                & 0x0000FF00) >> 8);
            &&& lane(x, 3) == lane(g, 0)
            &&& lane(x, 2) == lane(g, 0)
            &&& lane(x, 1) == lane(g, 1)
            &&& lane(x, 0) == lane(g, 1)
        }),
        ({
            let b = (b74 & 0xFF000000) | ((b30 & 0xFFFF0000) >> 8) | ((b74 & 0x00FF0000) >> 16);
            &&& lane(b, 3) == lane(b74, 3)
            &&& lane(b, 2) == lane(b30, 3)
            &&& lane(b, 1) == lane(b30, 2)
            &&& lane(b, 0) == lane(b74, 2)
        }),
        ({
            let x = (g & 0xFF000000) | ((g & 0xFFFF0000) >> 8) | ((g & 0x00FF0000) >> 16);
            &&& lane(x, 3) == lane(g, 3)
            &&& lane(x, 2) == lane(g, 3)
            &&& lane(x, 1) == lane(g, 2)
            &&& lane(x, 0) == lane(g, 2)
        }),
        ({
            let b = ((b30 & 0x0000FF00) << 16) | ((b74 & 0x0000FFFF) << 8) | (b30 & 0x000000FF);
            &&& lane(b, 3) == lane(b30, 1)
            &&& lane(b, 2) == lane(b74, 1)
            &&& lane(b, 1) == lane(b74, 0)
            &&& lane(b, 0) == lane(b30, 0)
        }),
        ({
            let x = ((g & 0x0000FF00) << 16) | ((g & 0x0000FFFF) << 8) | (g & 0x000000FF);
            &&& lane(x, 3) == lane(g, 1)
            &&& lane(x, 2) == lane(g, 1)
            &&& lane(x, 1) == lane(g, 0)
            &&& lane(x, 0) == lane(g, 0)
        }),
        ({
            let b = ((b74 & 0x0000FF00) << 16) | ((b30 & 0x0000FFFF) << 8) | (b74 & 0x000000FF);
            &&& lane(b, 3) == lane(b74, 1)
            &&& lane(b, 2) == lane(b30, 1)
            &&& lane(b, 1) == lane(b30, 0)
            &&& lane(b, 0) == lane(b74, 0)
        }),
        ({
            let x = ((g & 0x00FF0000) << 8) | (g & 0x00FF0000) | ((g & 0xFF000000) >> 16) | ((g
                & 0xFF000000) >> 24);
            &&& lane(x, 3) == lane(g, 2)
            &&& lane(x, 2) == lane(g, 2)
            &&& lane(x, 1) == lane(g, 3)
            &&& lane(x, 0) == lane(g, 3)
        }),
{
}

/// The backward metrics of states 7 to 4 before one stage.
pub fn compute_b74(b74_next: DWord, b30_next: DWord, g: DWord) -> (r: DWord)
    ensures
        lane(r.0, 0) == backward(metrics(b74_next.0, b30_next.0), gammas(g.0), 4),
        lane(r.0, 1) == backward(metrics(b74_next.0, b30_next.0), gammas(g.0), 5),
        lane(r.0, 2) == backward(metrics(b74_next.0, b30_next.0), gammas(g.0), 6),
        lane(r.0, 3) == backward(metrics(b74_next.0, b30_next.0), gammas(g.0), 7),
{
    proof {
        lemma_backward_words(b74_next.0, b30_next.0, g.0);
    }
    // Input bit 0: s7 <- s3 (0/0), s6 <- s7 (0/0), s5 <- s6 (0/1), s4 <- s2 (0/1).
    let b74 = (b30_next & 0xFF000000) | ((b74_next & 0xFFFF0000) >> 8) | ((b30_next & 0x00FF0000)
        >> 16);
    let g74 = ((g & 0x000000FF) << 24) | ((g & 0x000000FF) << 16) | (g & 0x0000FF00) | ((g
        & 0x0000FF00) >> 8);
    let zero74 = b74.saturating_add_i8(g74);

    // Input bit 1: s7 <- s7 (1/1), s6 <- s3 (1/1), s5 <- s2 (1/0), s4 <- s6 (1/0).
    let b74 = (b74_next & 0xFF000000) | ((b30_next & 0xFFFF0000) >> 8) | ((b74_next & 0x00FF0000)
        >> 16);
    let g74 = (g & 0xFF000000) | ((g & 0xFFFF0000) >> 8) | ((g & 0x00FF0000) >> 16);
    let one74 = b74.saturating_add_i8(g74);

    zero74.max_i8(one74)
}

/// The backward metrics of states 3 to 0 before one stage.
pub fn compute_b30(b74_next: DWord, b30_next: DWord, g: DWord) -> (r: DWord)
    ensures
        lane(r.0, 0) == backward(metrics(b74_next.0, b30_next.0), gammas(g.0), 0),
        lane(r.0, 1) == backward(metrics(b74_next.0, b30_next.0), gammas(g.0), 1),
        lane(r.0, 2) == backward(metrics(b74_next.0, b30_next.0), gammas(g.0), 2),
        lane(r.0, 3) == backward(metrics(b74_next.0, b30_next.0), gammas(g.0), 3),
{
    proof {
        lemma_backward_words(b74_next.0, b30_next.0, g.0);
    }
    // Input bit 0: s3 <- s1 (0/1), s2 <- s5 (0/1), s1 <- s4 (0/0), s0 <- s0 (0/0).
    let b30 = ((b30_next & 0x0000FF00) << 16) | ((b74_next & 0x0000FFFF) << 8) | (b30_next
        & 0x000000FF);
    let g30 = ((g & 0x0000FF00) << 16) | ((g & 0x0000FFFF) << 8) | (g & 0x000000FF);
    let zero30 = b30.saturating_add_i8(g30);

    // Input bit 1: s3 <- s5 (1/0), s2 <- s1 (1/0), s1 <- s0 (1/1), s0 <- s4 (1/1).
    let b30 = ((b74_next & 0x0000FF00) << 16) | ((b30_next & 0x0000FFFF) << 8) | (b74_next
        & 0x000000FF);
    let g30 = ((g & 0x00FF0000) << 8) | (g & 0x00FF0000) | ((g & 0xFF000000) >> 16) | ((g
        & 0xFF000000) >> 24);
    let one30 = b30.saturating_add_i8(g30);

    zero30.max_i8(one30)
}

/// The lane of the masks `valid74` and `valid30` that belongs to state `s`.
pub open spec fn mask_of(valid74: u32, valid30: u32, s: int) -> i8 {
    if s == 0 {
        lane(valid30, 0)
    } else if s == 1 {
        lane(valid30, 1)
    } else if s == 2 {
        lane(valid30, 2)
    } else if s == 3 {
        lane(valid30, 3)
    } else if s == 4 {
        lane(valid74, 0)
    } else if s == 5 {
        lane(valid74, 1)
    } else if s == 6 {
        lane(valid74, 2)
    } else {
        lane(valid74, 3)
    }
}

/// The bits of `x` where the mask `m` has ones, and those of -128 where it
/// has zeros: `x` under a mask of all ones, -128 under a mask of all zeros.
pub open spec fn masked(x: i8, m: i8) -> i8 {
    (x & m) | ((-128i8) & !m)
}

/// The metric of the path through the edge that leaves `s` on input bit `u`:
/// the forward metric of `s`, the branch metric of the edge and the backward
/// metric of the state that the edge enters, added with saturation.
pub open spec fn through(a: Seq<int>, g: Seq<int>, b: Seq<int>, s: int, u: int) -> int {
    sat8(a[s] + sat8(g[label(s, u)] + b[next_state(s, u)]))
}

/// The largest of eight integers.
pub open spec fn max8(m: Seq<int>) -> int {
    max2(max2(max2(m[0], m[1]), max2(m[2], m[3])), max2(max2(m[4], m[5]), max2(m[6], m[7])))
}

/// What state `s` offers to the best path metric on input bit `u`: the metric
/// of the path through its edge, under the mask of the state.
pub open spec fn candidate(
    a: Seq<int>,
    g: Seq<int>,
    b: Seq<int>,
    valid74: u32,
    valid30: u32,
    s: int,
    u: int,
) -> int {
    masked(through(a, g, b, s, u) as i8, mask_of(valid74, valid30, s)) as int
}

/// The best path metric over the edges with input bit `u`, every state
/// under its mask: a mask of all ones lets a state through, a mask of all
/// zeros holds it back.
pub open spec fn best(
    a: Seq<int>,
    g: Seq<int>,
    b: Seq<int>,
    valid74: u32,
    valid30: u32,
    u: int,
) -> int {
    max8(Seq::new(8, |s: int| candidate(a, g, b, valid74, valid30, s, u)))
}

/// Masking a word and filling it up with -128 does so in every lane.
proof fn lemma_select(x: u32, m: u32)
    by (bit_vector)
    ensures
        ({
            let r = (x & m) | (0x80808080 & !m);
            &&& lane(r, 0) == masked(lane(x, 0), lane(m, 0))
            &&& lane(r, 1) == masked(lane(x, 1), lane(m, 1))
            &&& lane(r, 2) == masked(lane(x, 2), lane(m, 2))
            &&& lane(r, 3) == masked(lane(x, 3), lane(m, 3))
        }),
{
}

/// A mask of all ones keeps a value, a mask of all zeros gives -128.
pub proof fn lemma_masked(x: i8)
    by (bit_vector)
    ensures
        masked(x, -1i8) == x,
        masked(x, 0i8) == -128i8,
{
}

/// The lanes of a word that was shifted down by two lanes or by one, and its
/// lowest lane as a signed byte.
proof fn lemma_fold(w: u32)
    by (bit_vector)
    ensures
        lane(w >> 16, 0) == lane(w, 2),
        lane(w >> 16, 1) == lane(w, 3),
        lane(w >> 8, 0) == lane(w, 1),
        (w & 0xFF) as i8 == lane(w, 0),
{
}

/// The largest lane of two words, as a signed byte.
fn largest_lane(sum74: DWord, sum30: DWord) -> (r: i8)
    ensures
        r == max8(metrics(sum74.0, sum30.0)),
{
    let max = sum74.max_i8(sum30);
    proof {
        lemma_fold(max.0);
    }
    let max = max.max_i8(max >> 16);
    proof {
        lemma_fold(max.0);
    }
    let max = max.max_i8(max >> 8);
    proof {
        lemma_fold(max.0);
    }
    #[verifier::truncate] ((max.u32() & 0xFF) as i8)
}

/// Where the lanes of `all74` and `all30` hold the path metrics of the eight
/// states on input bit `u`, the words that come of them under the masks hold
/// what the states offer to the best path metric.
proof fn lemma_masked_paths(
    a: Seq<int>,
    g: Seq<int>,
    b: Seq<int>,
    all74: u32,
    all30: u32,
    valid74: u32,
    valid30: u32,
    u: int,
)
    requires
        forall|s: int|
            0 <= s < 8 ==> state_metric(all74, all30, s) == #[trigger] through(a, g, b, s, u),
    ensures
        max8(
            metrics(
                (all74 & valid74) | (0x80808080 & !valid74),
                (all30 & valid30) | (0x80808080 & !valid30),
            ),
        ) == best(a, g, b, valid74, valid30, u),
{
    lemma_select(all74, valid74);
    lemma_select(all30, valid30);
    let sum74 = (all74 & valid74) | (0x80808080 & !valid74);
    let sum30 = (all30 & valid30) | (0x80808080 & !valid30);
    let c = Seq::new(8, |s: int| candidate(a, g, b, valid74, valid30, s, u));
    assert forall|s: int| 0 <= s < 8 implies metrics(sum74, sum30)[s] == c[s] by {
        assert(state_metric(all74, all30, s) == through(a, g, b, s, u));
    }
    assert(metrics(sum74, sum30) =~= c);
}

/// The best path metric of a stage over the edges with input bit 0.
pub fn compute_max0(
    a74: DWord,
    a30: DWord,
    g: DWord,
    b74: DWord,
    b30: DWord,
    a74_valid: u32,
    a30_valid: u32,
) -> (r: Llr)
    ensures
        r.0 == best(
            metrics(a74.0, a30.0),
            gammas(g.0),
            metrics(b74.0, b30.0),
            a74_valid,
            a30_valid,
            0,
        ),
{
    proof {
        lemma_backward_words(b74.0, b30.0, g.0);
    }
    // States 7 to 4.
    let g74 = ((g & 0x000000FF) << 24) | ((g & 0x000000FF) << 16) | (g & 0x0000FF00) | ((g
        & 0x0000FF00) >> 8);
    let b_for74 = (b30 & 0xFF000000) | ((b74 & 0xFFFF0000) >> 8) | ((b30 & 0x00FF0000) >> 16);
    let all74 = a74.saturating_add_i8(g74.saturating_add_i8(b_for74));
    let sum74 = (all74 & a74_valid) | (0x80808080 & !a74_valid);

    // States 3 to 0.
    let g30 = ((g & 0x0000FF00) << 16) | ((g & 0x0000FFFF) << 8) | (g & 0x000000FF);
    let b_for30 = ((b30 & 0x0000FF00) << 16) | ((b74 & 0x0000FFFF) << 8) | (b30 & 0x000000FF);
    let all30 = a30.saturating_add_i8(g30.saturating_add_i8(b_for30));
    let sum30 = (all30 & a30_valid) | (0x80808080 & !a30_valid);

    proof {
        let a = metrics(a74.0, a30.0);
        let gs = gammas(g.0);
        let b = metrics(b74.0, b30.0);
        assert forall|s: int| 0 <= s < 8 implies state_metric(all74.0, all30.0, s)
            == #[trigger] through(a, gs, b, s, 0) by {}
        lemma_masked_paths(a, gs, b, all74.0, all30.0, a74_valid, a30_valid, 0);
    }
    Llr(largest_lane(sum74, sum30))
}

/// The best path metric of a stage over the edges with input bit 1.
pub fn compute_max1(
    a74: DWord,
    a30: DWord,
    g: DWord,
    b74: DWord,
    b30: DWord,
    a74_valid: u32,
    a30_valid: u32,
) -> (r: Llr)
    ensures
        r.0 == best(
            metrics(a74.0, a30.0),
            gammas(g.0),
            metrics(b74.0, b30.0),
            a74_valid,
            a30_valid,
            1,
        ),
{
    proof {
        lemma_backward_words(b74.0, b30.0, g.0);
    }
    // States 7 to 4.
    let g74 = (g & 0xFF000000) | ((g & 0xFFFF0000) >> 8) | ((g & 0x00FF0000) >> 16);
    let b_for74 = (b74 & 0xFF000000) | ((b30 & 0xFFFF0000) >> 8) | ((b74 & 0x00FF0000) >> 16);
    let all74 = a74.saturating_add_i8(g74.saturating_add_i8(b_for74));
    let sum74 = (all74 & a74_valid) | (0x80808080 & !a74_valid);

    // States 3 to 0.
    let g30 = ((g & 0x00FF0000) << 8) | (g & 0x00FF0000) | ((g & 0xFF000000) >> 16) | ((g
        & 0xFF000000) >> 24);
    let b_for30 = ((b74 & 0x0000FF00) << 16) | ((b30 & 0x0000FFFF) << 8) | (b74 & 0x000000FF);
    let all30 = a30.saturating_add_i8(g30.saturating_add_i8(b_for30));
    let sum30 = (all30 & a30_valid) | (0x80808080 & !a30_valid);

    proof {
        let a = metrics(a74.0, a30.0);
        let gs = gammas(g.0);
        let b = metrics(b74.0, b30.0);
        assert forall|s: int| 0 <= s < 8 implies state_metric(all74.0, all30.0, s)
            == #[trigger] through(a, gs, b, s, 1) by {}
        lemma_masked_paths(a, gs, b, all74.0, all30.0, a74_valid, a30_valid, 1);
    }
    Llr(largest_lane(sum74, sum30))
}

/// The lanes of a word that was rotated to the right by one lane.
proof fn lemma_rotations(w: u32)
    by (bit_vector)
    ensures
        lane(rotated_right(w, 8), 0) == lane(w, 1),
        lane(rotated_right(w, 8), 1) == lane(w, 2),
        lane(rotated_right(w, 8), 2) == lane(w, 3),
        lane(rotated_right(w, 8), 3) == lane(w, 0),
{
}

/// A word with empty upper lanes, laid over itself two lanes higher, holds
/// its two lower lanes twice.
proof fn lemma_doubled(w: u32)
    by (bit_vector)
    requires
        lane(w, 2) == 0,
        lane(w, 3) == 0,
    ensures
        lane((w << 16) | w, 0) == lane(w, 0),
        lane((w << 16) | w, 1) == lane(w, 1),
        lane((w << 16) | w, 2) == lane(w, 0),
        lane((w << 16) | w, 3) == lane(w, 1),
{
}

/// The sum of the four lanes of a word.
pub open spec fn lane_sum(w: u32) -> int {
    lane(w, 0) + lane(w, 1) + lane(w, 2) + lane(w, 3)
}

/// The scale coefficient of two states: half the sum of the two lower lanes
/// of `values10`, in every lane of the result. The two upper lanes of
/// `values10` are expected to be zero; whatever they hold, the result is the
/// halved lane sum of `values10` laid over itself two lanes higher and of
/// that word rotated by one lane.
pub fn scale_coeff2(values10: DWord) -> (r: DWord)
    ensures
        crate::simd::is_half_add_i8(
            rotated_right((values10.0 << 16) | values10.0, 8),
            (values10.0 << 16) | values10.0,
            r.0,
        ),
        lane(values10.0, 2) == 0 && lane(values10.0, 3) == 0 ==> {
            &&& lane(r.0, 0) == half(lane(values10.0, 1) + lane(values10.0, 0))
            &&& lane(r.0, 1) == half(lane(values10.0, 1) + lane(values10.0, 0))
            &&& lane(r.0, 2) == half(lane(values10.0, 1) + lane(values10.0, 0))
            &&& lane(r.0, 3) == half(lane(values10.0, 1) + lane(values10.0, 0))
        },
{
    let u32 = (values10 << 16) | values10;
    proof {
        lemma_rotations(u32.0);
        if lane(values10.0, 2) == 0 && lane(values10.0, 3) == 0 {
            lemma_doubled(values10.0);
        }
    }
    u32.rotate_right(8).half_add_i8(u32)
}

/// The scale coefficient of four states: the mean of the four lanes of
/// `values30`, rounded towards negative infinity, in every lane of the
/// result.
pub fn scale_coeff4(values30: DWord) -> (r: DWord)
    ensures
        lane(r.0, 0) == lane_sum(values30.0) / 4,
        lane(r.0, 1) == lane_sum(values30.0) / 4,
        lane(r.0, 2) == lane_sum(values30.0) / 4,
        lane(r.0, 3) == lane_sum(values30.0) / 4,
{
    let v30 = unpack(values30.u32());
    let sum: i16 = v30[0] as i16 + v30[1] as i16 + v30[2] as i16 + v30[3] as i16;
    let mean: i8 = if sum >= 0 {
        (sum / 4) as i8
    } else {
        (-((3 - sum) / 4)) as i8
    };
    DWord::new_u32(pack([mean, mean, mean, mean]))
}

/// The scale coefficient of eight states: the mean of the eight lanes of
/// `values74` and `values30`, rounded towards negative infinity, in every
/// lane of the result.
pub fn scale_coeff8(values74: DWord, values30: DWord) -> (r: DWord)
    ensures
        lane(r.0, 0) == (lane_sum(values74.0) + lane_sum(values30.0)) / 8,
        lane(r.0, 1) == (lane_sum(values74.0) + lane_sum(values30.0)) / 8,
        lane(r.0, 2) == (lane_sum(values74.0) + lane_sum(values30.0)) / 8,
        lane(r.0, 3) == (lane_sum(values74.0) + lane_sum(values30.0)) / 8,
{
    let v30 = unpack(values30.u32());
    let v74 = unpack(values74.u32());
    let sum: i16 = v30[0] as i16 + v30[1] as i16 + v30[2] as i16 + v30[3] as i16 + v74[0] as i16
        + v74[1] as i16 + v74[2] as i16 + v74[3] as i16;
    let mean: i8 = if sum >= 0 {
        (sum / 8) as i8
    } else {
        (-((7 - sum) / 8)) as i8
    };
    DWord::new_u32(pack([mean, mean, mean, mean]))
}

/// The states that the trellis can be in at one time of a block.
#[derive(Clone, Copy, Debug)]
pub enum Reach {
    /// State 0 alone: the start of a block, and the end of a terminated one.
    Origin,
    /// States 0 and 4: one stage after the start.
    Pair04,
    /// The even states: two stages after the start.
    Even,
    /// All eight states.
    All,
    /// States 0 to 3: two stages before the end.
    Low4,
    /// States 0 and 1: one stage before the end.
    Pair01,
}

/// Whether state `s` belongs to `reach`.
pub open spec fn reaches(reach: Reach, s: int) -> bool {
    match reach {
        Reach::Origin => s == 0,
        Reach::Pair04 => s == 0 || s == 4,
        Reach::Even => s == 0 || s == 2 || s == 4 || s == 6,
        Reach::All => true,
        Reach::Low4 => s < 4,
        Reach::Pair01 => s < 2,
    }
}

/// The coefficient that normalisation takes off the metrics of the states
/// of `reach`: their mean, rounded towards negative infinity. It is the same
/// for all of them.
pub open spec fn coefficient(reach: Reach, m: Seq<int>) -> int {
    match reach {
        Reach::Origin => m[0],
        Reach::Pair04 => (m[0] + m[4]) / 2,
        Reach::Even => (m[0] + m[2] + m[4] + m[6]) / 4,
        Reach::All => (m[0] + m[1] + m[2] + m[3] + m[4] + m[5] + m[6] + m[7]) / 8,
        Reach::Low4 => (m[0] + m[1] + m[2] + m[3]) / 4,
        Reach::Pair01 => (m[0] + m[1]) / 2,
    }
}

/// The metrics `m` after normalisation: a state of `reach` loses its
/// coefficient, with saturation, and every other state is set to -128.
pub open spec fn normalised(reach: Reach, m: Seq<int>) -> Seq<int> {
    Seq::new(
        8,
        |s: int|
            if reaches(reach, s) {
                sat8(m[s] - coefficient(reach, m))
            } else {
                -128
            },
    )
}

/// The state metrics of one time of the block.
#[derive(Clone, Copy)]
struct StateBytes {
    /// The values for states 7 to 4.
    s74: DWord,
    /// The values for states 3 to 0.
    s30: DWord,
}

/// What masking keeps of a word's lanes.
proof fn lemma_keep(w: u32)
    by (bit_vector)
    ensures
        lane(w & 0x000000FF, 0) == lane(w, 0),
        lane(w & 0x000000FF, 1) == 0,
        lane(w & 0x000000FF, 2) == 0,
        lane(w & 0x000000FF, 3) == 0,
        lane(w & 0x00FF00FF, 0) == lane(w, 0),
        lane(w & 0x00FF00FF, 1) == 0,
        lane(w & 0x00FF00FF, 2) == lane(w, 2),
        lane(w & 0x00FF00FF, 3) == 0,
        lane(w & 0x0000FFFF, 0) == lane(w, 0),
        lane(w & 0x0000FFFF, 1) == lane(w, 1),
        lane(w & 0x0000FFFF, 2) == 0,
        lane(w & 0x0000FFFF, 3) == 0,
{
}

/// Empty lanes take the value -128 from a word that holds it in their place.
proof fn lemma_fill(w: u32)
    by (bit_vector)
    ensures
        lane(w, 1) == 0 && lane(w, 2) == 0 && lane(w, 3) == 0 ==> {
            &&& lane(w | 0x80808000, 0) == lane(w, 0)
            &&& lane(w | 0x80808000, 1) == -128
            &&& lane(w | 0x80808000, 2) == -128
            &&& lane(w | 0x80808000, 3) == -128
        },
        lane(w, 1) == 0 && lane(w, 3) == 0 ==> {
            &&& lane(w | 0x80008000, 0) == lane(w, 0)
            &&& lane(w | 0x80008000, 1) == -128
            &&& lane(w | 0x80008000, 2) == lane(w, 2)
            &&& lane(w | 0x80008000, 3) == -128
        },
        lane(w, 2) == 0 && lane(w, 3) == 0 ==> {
            &&& lane(w | 0x80800000, 0) == lane(w, 0)
            &&& lane(w | 0x80800000, 1) == lane(w, 1)
            &&& lane(w | 0x80800000, 2) == -128
            &&& lane(w | 0x80800000, 3) == -128
        },
{
}

/// Two words with empty odd lanes, the first laid one lane higher over the
/// second, fill all four lanes.
proof fn lemma_stack(x: u32, y: u32)
    by (bit_vector)
    requires
        lane(x, 1) == 0,
        lane(x, 3) == 0,
        lane(y, 1) == 0,
        lane(y, 3) == 0,
    ensures
        lane((x << 8) | y, 0) == lane(y, 0),
        lane((x << 8) | y, 1) == lane(x, 0),
        lane((x << 8) | y, 2) == lane(y, 2),
        lane((x << 8) | y, 3) == lane(x, 2),
{
}

/// The lanes of the constant words of the decoder.
proof fn lemma_constants()
    by (bit_vector)
    ensures
        lane(0x80808080u32, 0) == -128 && lane(0x80808080u32, 1) == -128,
        lane(0x80808080u32, 2) == -128 && lane(0x80808080u32, 3) == -128,
        lane(0x80808000u32, 0) == 0 && lane(0x80808000u32, 1) == -128,
        lane(0x80808000u32, 2) == -128 && lane(0x80808000u32, 3) == -128,
        lane(0u32, 0) == 0 && lane(0u32, 1) == 0 && lane(0u32, 2) == 0 && lane(0u32, 3) == 0,
        lane(0x000000FFu32, 0) == -1 && lane(0x000000FFu32, 1) == 0,
        lane(0x000000FFu32, 2) == 0 && lane(0x000000FFu32, 3) == 0,
        lane(0x00FF00FFu32, 0) == -1 && lane(0x00FF00FFu32, 1) == 0,
        lane(0x00FF00FFu32, 2) == -1 && lane(0x00FF00FFu32, 3) == 0,
        lane(0x0000FFFFu32, 0) == -1 && lane(0x0000FFFFu32, 1) == -1,
        lane(0x0000FFFFu32, 2) == 0 && lane(0x0000FFFFu32, 3) == 0,
        lane(0xFFFFFFFFu32, 0) == -1 && lane(0xFFFFFFFFu32, 1) == -1,
        lane(0xFFFFFFFFu32, 2) == -1 && lane(0xFFFFFFFFu32, 3) == -1,
{
}

/// Normalises the metrics in `u74` and `u30` for the states of `reach`. For
/// the reaches that hold no state above 3, `u74` is not read.
fn normalise(reach: Reach, u74: DWord, u30: DWord) -> (r: StateBytes)
    ensures
        metrics(r.s74.0, r.s30.0) == normalised(reach, metrics(u74.0, u30.0)),
{
    proof {
        lemma_constants();
    }
    let r = match reach {
        Reach::Origin => StateBytes {
            s74: DWord::new_u32(0x80808080),
            s30: DWord::new_u32(0x80808000),
        },
        Reach::Pair04 => {
            let x = u74 & 0x000000FF;
            let y = u30 & 0x000000FF;
            proof {
                lemma_keep(u74.0);
                lemma_keep(u30.0);
                lemma_stack(x.0, y.0);
            }
            let coefficients = scale_coeff2((x << 8) | y);
            let c = coefficients & 0x000000FF;
            let d74 = x.saturating_sub_i8(c);
            let d30 = y.saturating_sub_i8(c);
            proof {
                lemma_keep(coefficients.0);
                lemma_fill(d74.0);
                lemma_fill(d30.0);
            }
            StateBytes { s74: d74 | 0x80808000, s30: d30 | 0x80808000 }
        },
        Reach::Even => {
            let x = u74 & 0x00FF00FF;
            let y = u30 & 0x00FF00FF;
            proof {
                lemma_keep(u74.0);
                lemma_keep(u30.0);
                lemma_stack(x.0, y.0);
            }
            let coefficients = scale_coeff4((x << 8) | y);
            let c = coefficients & 0x00FF00FF;
            let d74 = x.saturating_sub_i8(c);
            let d30 = y.saturating_sub_i8(c);
            proof {
                lemma_keep(coefficients.0);
                lemma_fill(d74.0);
                lemma_fill(d30.0);
            }
            StateBytes { s74: d74 | 0x80008000, s30: d30 | 0x80008000 }
        },
        Reach::All => {
            let coefficients = scale_coeff8(u74, u30);
            StateBytes {
                s74: u74.saturating_sub_i8(coefficients),
                s30: u30.saturating_sub_i8(coefficients),
            }
        },
        Reach::Low4 => {
            let coefficients = scale_coeff4(u30);
            StateBytes {
                s74: DWord::new_u32(0x80808080),
                s30: u30.saturating_sub_i8(coefficients),
            }
        },
        Reach::Pair01 => {
            let y = u30 & 0x0000FFFF;
            proof {
                lemma_keep(u30.0);
            }
            let coefficients = scale_coeff2(y);
            let c = coefficients & 0x0000FFFF;
            let d30 = y.saturating_sub_i8(c);
            proof {
                lemma_keep(coefficients.0);
                lemma_fill(d30.0);
            }
            StateBytes { s74: DWord::new_u32(0x80808080), s30: d30 | 0x80800000 }
        },
    };
    proof {
        let m = metrics(u74.0, u30.0);
        let t = normalised(reach, m);
        let got = metrics(r.s74.0, r.s30.0);
        assert(got[0] == t[0]);
        assert(got[1] == t[1]);
        assert(got[2] == t[2]);
        assert(got[3] == t[3]);
        assert(got[4] == t[4]);
        assert(got[5] == t[5]);
        assert(got[6] == t[6]);
        assert(got[7] == t[7]);
        assert(got =~= t);
    }
    r
}

/// The forward metrics of all states after a stage, before normalisation.
pub open spec fn stepped_forward(a: Seq<int>, g: Seq<int>) -> Seq<int> {
    Seq::new(8, |s: int| forward(a, g, s))
}

/// The backward metrics of all states before a stage, before normalisation.
pub open spec fn stepped_backward(b: Seq<int>, g: Seq<int>) -> Seq<int> {
    Seq::new(8, |s: int| backward(b, g, s))
}

/// The metrics of a trellis that is in state 0: 0 for that state and -128 for
/// the others.
pub open spec fn origin() -> Seq<int> {
    Seq::new(8, |s: int| if s == 0 { 0 } else { -128 })
}

/// The metrics of a trellis that may be in any state: 0 for all.
pub open spec fn open_end() -> Seq<int> {
    Seq::new(8, |s: int| 0)
}

/// The best path metric over the edges with input bit `u` that leave a state
/// of `reach`; every other state counts as -128.
pub open spec fn best_of(a: Seq<int>, g: Seq<int>, b: Seq<int>, reach: Reach, u: int) -> int {
    max8(
        Seq::new(
            8,
            |s: int|
                if reaches(reach, s) {
                    through(a, g, b, s, u)
                } else {
                    -128
                },
        ),
    )
}

/// The a-posteriori value of a stage: the best path metric for input bit 1
/// less the best for input bit 0, with saturation.
pub open spec fn stage_llr(a: Seq<int>, g: Seq<int>, b: Seq<int>, reach: Reach) -> int {
    sat8(best_of(a, g, b, reach, 1) - best_of(a, g, b, reach, 0))
}

/// The branch metrics of a stage from what was received for it: 0 for the
/// edge 0/0, the parity value for 0/1, the sum of the systematic and the
/// a-priori value for 1/0 and the sum of all three for 1/1, each saturated.
pub open spec fn branch_metrics(lu: Llr, lv: Llr, la: Llr) -> Seq<int> {
    Seq::new(
        4,
        |e: int|
            if e == 0 {
                0
            } else if e == 1 {
                lv.0 as int
            } else if e == 2 {
                sat8(la.0 + lu.0)
            } else {
                sat8(lv.0 + la.0 + lu.0)
            },
    )
}

/// The branch metrics of every stage of a block.
pub open spec fn block_metrics(systematic: Seq<Llr>, parity: Seq<Llr>, apriori: Seq<Llr>) -> Seq<
    Seq<int>,
> {
    Seq::new(systematic.len(), |i: int| branch_metrics(systematic[i], parity[i], apriori[i]))
}

/// The states that the forward pass lets the trellis be in at time `k` of a
/// block of `n` stages: it opens from state 0 and closes onto states 0 and 1.
pub open spec fn forward_reach(k: int, n: int) -> Reach {
    if k <= 0 {
        Reach::Origin
    } else if k == 1 {
        Reach::Pair04
    } else if k == 2 {
        Reach::Even
    } else if k == n - 2 {
        Reach::Low4
    } else if k == n - 1 {
        Reach::Pair01
    } else {
        Reach::All
    }
}

/// The states that the backward pass lets the trellis be in at time `k` of a
/// block of `n` stages: it closes only where the block is terminated.
pub open spec fn backward_reach(k: int, n: int, terminated: bool) -> Reach {
    if k <= 0 {
        Reach::Origin
    } else if k == 1 {
        Reach::Pair04
    } else if k == 2 {
        Reach::Even
    } else if terminated && k == n - 2 {
        Reach::Low4
    } else if terminated && k == n - 1 {
        Reach::Pair01
    } else {
        Reach::All
    }
}

/// The forward metrics at time `k`: those of state 0 alone at the start, and
/// after every stage the normalised step from the time before.
#[verifier::opaque]
pub open spec fn alpha(gs: Seq<Seq<int>>, k: int) -> Seq<int>
    decreases k,
{
    if k <= 0 {
        origin()
    } else {
        normalised(
            forward_reach(k, gs.len() as int),
            stepped_forward(alpha(gs, k - 1), gs[k - 1]),
        )
    }
}

/// The backward metrics at time `k`: at the end of the block those of state 0
/// alone if it is terminated and of any state if it is not, and before every
/// stage the normalised step from the time after.
#[verifier::opaque]
pub open spec fn beta(gs: Seq<Seq<int>>, k: int, terminated: bool) -> Seq<int>
    decreases gs.len() - k,
{
    if k >= gs.len() {
        if terminated {
            origin()
        } else {
            open_end()
        }
    } else {
        normalised(
            backward_reach(k, gs.len() as int, terminated),
            stepped_backward(beta(gs, k + 1, terminated), gs[k]),
        )
    }
}

/// The a-posteriori value of stage `i`, from the forward metrics before the
/// stage and the backward metrics after it.
pub open spec fn llr_at(gs: Seq<Seq<int>>, i: int, terminated: bool) -> int {
    stage_llr(
        alpha(gs, i),
        gs[i],
        beta(gs, i + 1, terminated),
        backward_reach(i, gs.len() as int, terminated),
    )
}

/// The a-posteriori values of a block.
pub open spec fn umts_decoded(
    systematic: Seq<Llr>,
    parity: Seq<Llr>,
    apriori: Seq<Llr>,
    terminated: bool,
) -> Seq<Llr> {
    Seq::new(
        systematic.len(),
        |i: int| Llr(llr_at(block_metrics(systematic, parity, apriori), i, terminated) as i8),
    )
}

/// The forward metrics of the start, and how those of a later time follow
/// from the time before.
pub proof fn lemma_alpha_step(gs: Seq<Seq<int>>, k: int)
    ensures
        k <= 0 ==> alpha(gs, k) == origin(),
        k > 0 ==> alpha(gs, k) == normalised(
            forward_reach(k, gs.len() as int),
            stepped_forward(alpha(gs, k - 1), gs[k - 1]),
        ),
{
    reveal(alpha);
}

/// The backward metrics of the end, and how those of an earlier time follow
/// from the time after.
pub proof fn lemma_beta_step(gs: Seq<Seq<int>>, k: int, terminated: bool)
    ensures
        k >= gs.len() ==> beta(gs, k, terminated) == (if terminated {
            origin()
        } else {
            open_end()
        }),
        k < gs.len() ==> beta(gs, k, terminated) == normalised(
            backward_reach(k, gs.len() as int, terminated),
            stepped_backward(beta(gs, k + 1, terminated), gs[k]),
        ),
{
    reveal(beta);
}

/// The word that holds the branch metrics of a stage.
fn branch_word(lu: Llr, lv: Llr, la: Llr) -> (g: DWord)
    ensures
        gammas(g.0) == branch_metrics(lu, lv, la),
{
    let g0p1: i32 = lv.0 as i32;
    let g1p0: i32 = la.0 as i32 + lu.0 as i32;
    let g1p1: i32 = g0p1 + g1p0;
    let b1: i8 = g0p1.saturate_into();
    let b2: i8 = g1p0.saturate_into();
    let b3: i8 = g1p1.saturate_into();
    let g = DWord::new_u32(pack([0, b1, b2, b3]));
    proof {
        let got = gammas(g.0);
        let t = branch_metrics(lu, lv, la);
        assert(got[0] == t[0]);
        assert(got[1] == t[1]);
        assert(got[2] == t[2]);
        assert(got[3] == t[3]);
        assert(got =~= t);
    }
    g
}

/// The states of the forward pass at time `k`.
fn forward_reach_at(k: usize, n: usize) -> (r: Reach)
    requires
        n >= MIN_BLOCK_LEN,
    ensures
        r == forward_reach(k as int, n as int),
{
    if k == 0 {
        Reach::Origin
    } else if k == 1 {
        Reach::Pair04
    } else if k == 2 {
        Reach::Even
    } else if k == n - 2 {
        Reach::Low4
    } else if k == n - 1 {
        Reach::Pair01
    } else {
        Reach::All
    }
}

/// The states of the backward pass at time `k`.
fn backward_reach_at(k: usize, n: usize, terminated: bool) -> (r: Reach)
    requires
        n >= MIN_BLOCK_LEN,
    ensures
        r == backward_reach(k as int, n as int, terminated),
{
    if k == 0 {
        Reach::Origin
    } else if k == 1 {
        Reach::Pair04
    } else if k == 2 {
        Reach::Even
    } else if terminated && k == n - 2 {
        Reach::Low4
    } else if terminated && k == n - 1 {
        Reach::Pair01
    } else {
        Reach::All
    }
}

/// Normalisation reads the metrics of the states 0 to 3 and, where `reach`
/// holds a state above them, those of the states 4 to 7.
proof fn lemma_normalised_reads(reach: Reach, m1: Seq<int>, m2: Seq<int>)
    requires
        m1[0] == m2[0],
        m1[1] == m2[1],
        m1[2] == m2[2],
        m1[3] == m2[3],
        reach is Pair04 || reach is Even || reach is All ==> m1[4] == m2[4] && m1[5] == m2[5]
            && m1[6] == m2[6] && m1[7] == m2[7],
    ensures
        normalised(reach, m1) == normalised(reach, m2),
{
    assert forall|s: int| 0 <= s < 8 implies normalised(reach, m1)[s] == normalised(reach, m2)[s] by {
        assert(coefficient(reach, m1) == coefficient(reach, m2));
    }
    assert(normalised(reach, m1) =~= normalised(reach, m2));
}

/// The forward metrics after a stage with branch metrics `g`, normalised for
/// the states of `reach`.
fn forward_step(reach: Reach, a: StateBytes, g: DWord) -> (r: StateBytes)
    ensures
        metrics(r.s74.0, r.s30.0) == normalised(
            reach,
            stepped_forward(metrics(a.s74.0, a.s30.0), gammas(g.0)),
        ),
{
    let u30 = compute_a30(a.s74, a.s30, g);
    let u74 = match reach {
        Reach::Origin | Reach::Low4 | Reach::Pair01 => a.s74,
        _ => compute_a74(a.s74, a.s30, g),
    };
    let r = normalise(reach, u74, u30);
    proof {
        lemma_normalised_reads(
            reach,
            metrics(u74.0, u30.0),
            stepped_forward(metrics(a.s74.0, a.s30.0), gammas(g.0)),
        );
    }
    r
}

/// The backward metrics before a stage with branch metrics `g`, normalised
/// for the states of `reach`.
fn backward_step(reach: Reach, b: StateBytes, g: DWord) -> (r: StateBytes)
    ensures
        metrics(r.s74.0, r.s30.0) == normalised(
            reach,
            stepped_backward(metrics(b.s74.0, b.s30.0), gammas(g.0)),
        ),
{
    let u30 = compute_b30(b.s74, b.s30, g);
    let u74 = match reach {
        Reach::Origin | Reach::Low4 | Reach::Pair01 => b.s74,
        _ => compute_b74(b.s74, b.s30, g),
    };
    let r = normalise(reach, u74, u30);
    proof {
        lemma_normalised_reads(
            reach,
            metrics(u74.0, u30.0),
            stepped_backward(metrics(b.s74.0, b.s30.0), gammas(g.0)),
        );
    }
    r
}

/// The a-posteriori value of a stage with branch metrics `g`, forward
/// metrics `a` before it and backward metrics `b` after it, where the trellis
/// is in a state of `reach` before the stage.
fn emit(reach: Reach, a: StateBytes, g: DWord, b: StateBytes) -> (r: Llr)
    ensures
        r.0 == stage_llr(
            metrics(a.s74.0, a.s30.0),
            gammas(g.0),
            metrics(b.s74.0, b.s30.0),
            reach,
        ),
{
    proof {
        lemma_constants();
    }
    let (valid74, valid30): (u32, u32) = match reach {
        Reach::Origin => (0x00000000, 0x000000FF),
        Reach::Pair04 => (0x000000FF, 0x000000FF),
        Reach::Even => (0x00FF00FF, 0x00FF00FF),
        Reach::All => (0xFFFFFFFF, 0xFFFFFFFF),
        Reach::Low4 => (0x00000000, 0xFFFFFFFF),
        Reach::Pair01 => (0x00000000, 0x0000FFFF),
    };
    let max1 = compute_max1(a.s74, a.s30, g, b.s74, b.s30, valid74, valid30);
    let max0 = compute_max0(a.s74, a.s30, g, b.s74, b.s30, valid74, valid30);
    proof {
        let am = metrics(a.s74.0, a.s30.0);
        let gm = gammas(g.0);
        let bm = metrics(b.s74.0, b.s30.0);
        assert forall|s: int, u: int| 0 <= s < 8 implies #[trigger] candidate(
            am,
            gm,
            bm,
            valid74,
            valid30,
            s,
            u,
        ) == (if reaches(reach, s) {
            through(am, gm, bm, s, u)
        } else {
            -128
        }) by {
            lemma_masked(through(am, gm, bm, s, u) as i8);
            assert(mask_of(valid74, valid30, s) == (if reaches(reach, s) {
                -1i8
            } else {
                0i8
            }));
        }
        assert(Seq::new(8, |s: int| candidate(am, gm, bm, valid74, valid30, s, 1)) =~= Seq::new(
            8,
            |s: int|
                if reaches(reach, s) {
                    through(am, gm, bm, s, 1)
                } else {
                    -128
                },
        ));
        assert(Seq::new(8, |s: int| candidate(am, gm, bm, valid74, valid30, s, 0)) =~= Seq::new(
            8,
            |s: int|
                if reaches(reach, s) {
                    through(am, gm, bm, s, 0)
                } else {
                    -128
                },
        ));
    }
    max1.saturating_sub(max0)
}

/// One stage of the forward pass: the metrics at time `k` from those at the
/// time before.
fn forward_stage(
    k: usize,
    n: usize,
    a: StateBytes,
    g: DWord,
    Ghost(gs): Ghost<Seq<Seq<int>>>,
) -> (r: StateBytes)
    requires
        n >= MIN_BLOCK_LEN,
        0 < k < n,
        gs.len() == n,
        metrics(a.s74.0, a.s30.0) == alpha(gs, k - 1),
        gammas(g.0) == gs[k - 1],
    ensures
        metrics(r.s74.0, r.s30.0) == alpha(gs, k as int),
{
    proof {
        lemma_alpha_step(gs, k as int);
    }
    forward_step(forward_reach_at(k, n), a, g)
}

/// One stage of the backward pass: the a-posteriori value of stage `i`, and
/// the metrics at time `i` from those at the time after. The metrics at time
/// 0 are of no use and are not computed.
fn backward_stage(
    i: usize,
    n: usize,
    terminated: bool,
    a: StateBytes,
    g: DWord,
    b: StateBytes,
    Ghost(gs): Ghost<Seq<Seq<int>>>,
) -> (r: (Llr, StateBytes))
    requires
        n >= MIN_BLOCK_LEN,
        i < n,
        gs.len() == n,
        metrics(a.s74.0, a.s30.0) == alpha(gs, i as int),
        gammas(g.0) == gs[i as int],
        metrics(b.s74.0, b.s30.0) == beta(gs, i + 1, terminated),
    ensures
        r.0.0 == llr_at(gs, i as int, terminated),
        i > 0 ==> metrics(r.1.s74.0, r.1.s30.0) == beta(gs, i as int, terminated),
{
    proof {
        lemma_beta_step(gs, i as int, terminated);
    }
    let reach = backward_reach_at(i, n, terminated);
    let l = emit(reach, a, g, b);
    if i > 0 {
        (l, backward_step(reach, b, g))
    } else {
        (l, b)
    }
}

/// The metrics of a trellis in state 0.
fn origin_state() -> (r: StateBytes)
    ensures
        metrics(r.s74.0, r.s30.0) == origin(),
{
    let r = StateBytes { s74: DWord::new_u32(0x80808080), s30: DWord::new_u32(0x80808000) };
    proof {
        lemma_constants();
        assert(metrics(r.s74.0, r.s30.0) =~= origin());
    }
    r
}

/// The metrics of a trellis in any state.
fn open_state() -> (r: StateBytes)
    ensures
        metrics(r.s74.0, r.s30.0) == open_end(),
{
    let r = StateBytes { s74: DWord::new_u32(0x00000000), s30: DWord::new_u32(0x00000000) };
    proof {
        lemma_constants();
        assert(metrics(r.s74.0, r.s30.0) =~= open_end());
    }
    r
}

/// The forward metrics of the first `a.len()` times of a block are in `a`.
spec fn holds_alphas(a: Seq<StateBytes>, gs: Seq<Seq<int>>) -> bool {
    forall|j: int| 0 <= j < a.len() ==> metrics(a[j].s74.0, a[j].s30.0) == #[trigger] alpha(gs, j)
}

/// The branch metrics of the first `g.len()` stages of a block are in `g`.
spec fn holds_gammas(g: Seq<DWord>, gs: Seq<Seq<int>>) -> bool {
    forall|j: int| 0 <= j < g.len() ==> gammas(g[j].0) == #[trigger] gs[j]
}

/// The a-posteriori values of the stages from `from` on are in `l`, that of
/// the stage `from` first.
spec fn holds_llrs(l: Seq<Llr>, gs: Seq<Seq<int>>, terminated: bool, from: int) -> bool {
    forall|j: int| 0 <= j < l.len() ==> (#[trigger] l[j]).0 == llr_at(gs, from + j, terminated)
}

/// The BCJR decoder for the eight-state UMTS trellis.
#[derive(Clone, Copy, Debug)]
pub struct UmtsTrellis;

impl BcjrDecoder for UmtsTrellis {
    open spec fn decoded(
        &self,
        systematic: Seq<Llr>,
        parity: Seq<Llr>,
        apriori: Seq<Llr>,
        terminated: bool,
    ) -> Seq<Llr> {
        umts_decoded(systematic, parity, apriori, terminated)
    }

    fn decode(
        &self,
        systematic: &[Llr],
        parity: &[Llr],
        apriori: &[Llr],
        terminated: bool,
    ) -> (l_app: Vec<Llr>) {
        let n = systematic.len();
        let ghost gs = block_metrics(systematic@, parity@, apriori@);

        // The branch metrics of every stage.
        let mut g_vector: Vec<DWord> = Vec::with_capacity(n);
        let mut i: usize = 0;
        while i < n
            invariant
                i <= n,
                n == systematic@.len(),
                n == parity@.len(),
                n == apriori@.len(),
                g_vector@.len() == i,
                gs == block_metrics(systematic@, parity@, apriori@),
                holds_gammas(g_vector@, gs),
            decreases n - i,
        {
            g_vector.push(branch_word(systematic[i], parity[i], apriori[i]));
            i += 1;
        }

        // The forward pass keeps the metrics of every time but the last.
        let mut a_vector: Vec<StateBytes> = Vec::with_capacity(n);
        let mut a = origin_state();
        proof {
            lemma_alpha_step(gs, 0);
        }
        a_vector.push(a);
        let mut k: usize = 1;
        while k < n
            invariant
                1 <= k <= n,
                n >= MIN_BLOCK_LEN,
                gs.len() == n,
                g_vector@.len() == n,
                a_vector@.len() == k,
                a == a_vector@[k - 1],
                holds_gammas(g_vector@, gs),
                holds_alphas(a_vector@, gs),
            decreases n - k,
        {
            proof {
                assert(metrics(a.s74.0, a.s30.0) == alpha(gs, k - 1));
                assert(gammas(g_vector@[k - 1].0) == gs[k - 1]);
            }
            a = forward_stage(k, n, a, g_vector[k - 1], Ghost(gs));
            a_vector.push(a);
            k += 1;
        }

        // The backward pass emits the values from the last stage to the
        // first; each goes to the front, so that they end up in their order.
        let mut l_app: VecDeque<Llr> = VecDeque::with_capacity(n);
        let mut b = if terminated {
            origin_state()
        } else {
            open_state()
        };
        proof {
            lemma_beta_step(gs, n as int, terminated);
        }
        let mut i: usize = n;
        while i > 0
            invariant
                i <= n,
                n >= MIN_BLOCK_LEN,
                gs.len() == n,
                g_vector@.len() == n,
                a_vector@.len() == n,
                l_app@.len() == n - i,
                holds_gammas(g_vector@, gs),
                holds_alphas(a_vector@, gs),
                holds_llrs(l_app@, gs, terminated, i as int),
                i > 0 ==> metrics(b.s74.0, b.s30.0) == beta(gs, i as int, terminated),
            decreases i,
        {
            i -= 1;
            proof {
                assert(metrics(a_vector@[i as int].s74.0, a_vector@[i as int].s30.0) == alpha(
                    gs,
                    i as int,
                ));
                assert(gammas(g_vector@[i as int].0) == gs[i as int]);
            }
            let (l, b_next) = backward_stage(
                i,
                n,
                terminated,
                a_vector[i],
                g_vector[i],
                b,
                Ghost(gs),
            );
            let ghost emitted = l_app@;
            l_app.push_front(l);
            b = b_next;
            proof {
                assert forall|j: int| 0 <= j < l_app@.len() implies (#[trigger] l_app@[j]).0
                    == llr_at(gs, i + j, terminated) by {
                    if j > 0 {
                        assert(l_app@[j] == emitted[j - 1]);
                    }
                }
            }
        }

        let mut values: Vec<Llr> = Vec::with_capacity(n);
        let mut j: usize = 0;
        while j < n
            invariant
                j <= n,
                l_app@.len() == n,
                values@ == l_app@.subrange(0, j as int),
            decreases n - j,
        {
            values.push(l_app[j]);
            j += 1;
            assert(values@ =~= l_app@.subrange(0, j as int));
        }
        proof {
            assert(values@ =~= l_app@);
            assert(values@ =~= umts_decoded(systematic@, parity@, apriori@, terminated)) by {
                assert forall|j: int| 0 <= j < n implies values@[j] == umts_decoded(
                    systematic@,
                    parity@,
                    apriori@,
                    terminated,
                )[j] by {
                    assert(l_app@[j].0 == llr_at(gs, 0 + j, terminated));
                }
            }
        }
        values
    }
}

} // verus!
