//! The quadratic polynomial permutation interleaver.
//!
//! The index that takes the place of `i` is `(f1 * i + f2 * i * i) mod k`.
//! The whole sequence comes cheaper from a recurrence: the next index is the
//! last one plus a step, modulo `k`, and the step grows by `2 * f2` modulo
//! `k` every time.

use vstd::arithmetic::div_mod::{
    lemma_add_mod_noop, lemma_mod_bound, lemma_mod_equivalence, lemma_mod_twice,
    lemma_mul_mod_noop_general, lemma_small_mod,
};
use vstd::prelude::*;
use vstd::set_lib::{lemma_int_range, lemma_subset_equality, set_int_range};

verus! {

/// The interleaved index of `i`: `(f1 * i + f2 * i * i) mod k`.
pub open spec fn qpp_pi(k: int, f1: int, f2: int, i: int) -> int {
    (f1 * i + f2 * i * i) % k
}

/// The step from the interleaved index of `i` to that of `i + 1`, modulo `k`.
pub open spec fn qpp_step(k: int, f1: int, f2: int, i: int) -> int {
    (f1 + f2 + 2 * f2 * i) % k
}

/// The interleaved indices of `from`, `from + 1` and so on up to `k - 1`.
pub open spec fn qpp_sequence(k: int, f1: int, f2: int, from: int) -> Seq<usize> {
    Seq::new((k - from) as nat, |j: int| qpp_pi(k, f1, f2, from + j) as usize)
}

/// The interleaved index of `i + 1` is that of `i` plus the step, modulo
/// `k`, and the step of `i + 1` is that of `i` plus `2 * f2`, modulo `k`.
pub proof fn lemma_qpp_recurrence(k: int, f1: int, f2: int, i: int)
    requires
        k > 0,
    ensures
        qpp_pi(k, f1, f2, i + 1) == (qpp_pi(k, f1, f2, i) + qpp_step(k, f1, f2, i)) % k,
        qpp_step(k, f1, f2, i + 1) == (qpp_step(k, f1, f2, i) + (2 * f2) % k) % k,
        qpp_pi(k, f1, f2, 0) == 0,
        qpp_step(k, f1, f2, 0) == (f1 + f2) % k,
        0 <= qpp_pi(k, f1, f2, i) < k,
        0 <= qpp_step(k, f1, f2, i) < k,
{
    let m = k;
    let p = f1 * i + f2 * i * i;
    let s = f1 + f2 + 2 * f2 * i;
    assert(f1 * (i + 1) + f2 * (i + 1) * (i + 1) == (f1 * i + f2 * i * i) + (f1 + f2 + 2 * f2 * i))
        by (nonlinear_arith);
    assert(f1 + f2 + 2 * f2 * (i + 1) == (f1 + f2 + 2 * f2 * i) + 2 * f2) by (nonlinear_arith);
    lemma_mod_twice_of(p, m);
    lemma_add_mod_noop(p, s, m);
    lemma_add_mod_noop(s, 2 * f2, m);
    lemma_mod_twice_of(2 * f2, m);
    lemma_mod_twice_of(s, m);
    assert(f1 * 0 + f2 * 0 * 0 == 0) by (nonlinear_arith);
    assert(2 * f2 * 0 == 0) by (nonlinear_arith);
    lemma_small_mod(0, k as nat);
}

/// Taking a remainder twice is taking it once.
proof fn lemma_mod_twice_of(x: int, m: int)
    requires
        m > 0,
    ensures
        (x % m) % m == x % m,
        0 <= x % m < m,
{
    lemma_mod_twice(x, m);
    lemma_mod_bound(x, m);
}

/// The interleaved indices of all `k` places, as integers.
pub open spec fn qpp_values(k: int, f1: int, f2: int) -> Seq<int> {
    Seq::new(k as nat, |i: int| qpp_pi(k, f1, f2, i))
}

/// Every number from 0 to `s.len() - 1` occurs in `s`, and none of them twice.
pub open spec fn is_permutation(s: Seq<int>) -> bool {
    &&& s.no_duplicates()
    &&& s.to_set() == set_int_range(0, s.len() as int)
}

/// The square of `x`.
pub open spec fn square(x: int) -> int {
    x * x
}

/// The eighth power of `x`.
pub open spec fn pow8(x: int) -> int {
    square(square(square(x)))
}

/// What makes the polynomial a permutation modulo `k`: `f1` has the inverse
/// `u` modulo `k`, and the eighth power of `f2` is a multiple of `k`. The
/// second is given by the remainders `r1` of the square of `f2` and `r2` of
/// its fourth power.
pub open spec fn qpp_witness(k: int, f1: int, f2: int, u: int, r1: int, r2: int) -> bool {
    &&& k > 0
    &&& (f1 * u) % k == 1int % k
    &&& (f2 * f2) % k == r1
    &&& (r1 * r1) % k == r2
    &&& (r2 * r2) % k == 0
}

/// With a witness, the eighth power of `f2` is a multiple of `k`.
proof fn lemma_eighth_power(k: int, f1: int, f2: int, u: int, r1: int, r2: int)
    requires
        qpp_witness(k, f1, f2, u, r1, r2),
    ensures
        pow8(f2) % k == 0,
{
    let g2 = square(f2);
    let g4 = square(g2);
    lemma_mul_mod_noop_general(g2, g2, k);
    lemma_mul_mod_noop_general(g4, g4, k);
}

/// A multiple of `m` times any number is a multiple of `m`.
proof fn lemma_multiple(a: int, b: int, m: int)
    requires
        m > 0,
        a % m == 0,
    ensures
        (a * b) % m == 0,
        (b * a) % m == 0,
{
    lemma_mul_mod_noop_general(a, b, m);
    lemma_mul_mod_noop_general(b, a, m);
    assert(0 * b == 0 && b * 0 == 0);
    lemma_small_mod(0, m as nat);
}

/// The square of a number that is 1 modulo `m` is 1 modulo `m`.
proof fn lemma_square_of_one(c: int, m: int)
    requires
        m > 1,
        c % m == 1,
    ensures
        square(c) % m == 1,
{
    lemma_mul_mod_noop_general(c, c, m);
    assert(1 * 1 == 1);
    lemma_small_mod(1, m as nat);
}

/// The square of a product is the product of the squares, and a difference
/// of two squares is the product of the sum and the difference.
proof fn lemma_squares(a: int, b: int)
    ensures
        square(a * b) == square(a) * square(b),
        (a - b) * (a + b) == square(a) - square(b),
        (a + b) * (a - b) == square(a) - square(b),
{
    assert((a * b) * (a * b) == (a * a) * (b * b)) by (nonlinear_arith);
    assert((a - b) * (a + b) == a * a - b * b) by (nonlinear_arith);
    assert((a + b) * (a - b) == a * a - b * b) by (nonlinear_arith);
}

/// With a witness, two places with the same interleaved index differ by a
/// multiple of `k`.
proof fn lemma_qpp_difference(
    k: int,
    f1: int,
    f2: int,
    u: int,
    r1: int,
    r2: int,
    i: int,
    j: int,
)
    requires
        k > 1,
        qpp_witness(k, f1, f2, u, r1, r2),
        qpp_pi(k, f1, f2, i) == qpp_pi(k, f1, f2, j),
    ensures
        (i - j) % k == 0,
{
    let d = i - j;
    let t = i + j;
    let n = f2 * t;
    let x = f1;
    let (x2, x4, x8) = (square(x), square(square(x)), pow8(x));
    let (n2, n4, n8) = (square(n), square(square(n)), pow8(n));
    let (u2, u4, u8) = (square(u), square(square(u)), pow8(u));
    let (t2, t4, t8) = (square(t), square(square(t)), pow8(t));
    let (g2, g4, g8) = (square(f2), square(square(f2)), pow8(f2));

    // The difference of the two values of the polynomial.
    let e0 = d * (x + n);
    assert((f1 * i + f2 * i * i) - (f1 * j + f2 * j * j) == (i - j) * (f1 + f2 * (i + j)))
        by (nonlinear_arith);
    lemma_mod_equivalence(f1 * i + f2 * i * i, f1 * j + f2 * j * j, k);
    assert(e0 % k == 0);

    // Times (x - n)(x^2 + n^2)(x^4 + n^4) it is d (x^8 - n^8).
    let e1 = e0 * (x - n);
    lemma_multiple(e0, x - n, k);
    lemma_squares(x, n);
    assert(e1 == d * (x2 - n2)) by (nonlinear_arith)
        requires
            e1 == (d * (x + n)) * (x - n),
            (x + n) * (x - n) == x2 - n2,
    ;
    let e2 = e1 * (x2 + n2);
    lemma_multiple(e1, x2 + n2, k);
    lemma_squares(x2, n2);
    assert(e2 == d * (x4 - n4)) by (nonlinear_arith)
        requires
            e2 == (d * (x2 - n2)) * (x2 + n2),
            (x2 - n2) * (x2 + n2) == x4 - n4,
    ;
    let e3 = e2 * (x4 + n4);
    lemma_multiple(e2, x4 + n4, k);
    lemma_squares(x4, n4);
    assert(e3 == d * (x8 - n8)) by (nonlinear_arith)
        requires
            e3 == (d * (x4 - n4)) * (x4 + n4),
            (x4 - n4) * (x4 + n4) == x8 - n8,
    ;

    // The eighth power of n is a multiple of k, so d x^8 is one too.
    lemma_eighth_power(k, f1, f2, u, r1, r2);
    lemma_squares(f2, t);
    lemma_squares(g2, t2);
    lemma_squares(g4, t4);
    assert(n8 == g8 * t8);
    lemma_multiple(g8, t8, k);
    lemma_multiple(n8, d, k);
    assert(d * x8 == e3 + d * n8) by (nonlinear_arith)
        requires
            e3 == d * (x8 - n8),
    ;
    lemma_add_mod_noop(e3, d * n8, k);
    lemma_small_mod(0, k as nat);
    assert((d * x8) % k == 0);

    // Times u^8 it is d (x u)^8, and x u is 1 modulo k.
    lemma_multiple(d * x8, u8, k);
    let c = x * u;
    lemma_small_mod(1, k as nat);
    lemma_squares(x, u);
    lemma_squares(x2, u2);
    lemma_squares(x4, u4);
    assert(pow8(c) == x8 * u8);
    lemma_square_of_one(c, k);
    lemma_square_of_one(square(c), k);
    lemma_square_of_one(square(square(c)), k);
    assert((d * x8) * u8 == d * pow8(c)) by (nonlinear_arith)
        requires
            pow8(c) == x8 * u8,
    ;
    lemma_mul_mod_noop_general(d, pow8(c), k);
    assert(d * 1 == d);
    assert(d % k == 0);
}

/// With a witness, no two places below `k` have the same interleaved index.
pub proof fn lemma_qpp_injective(
    k: int,
    f1: int,
    f2: int,
    u: int,
    r1: int,
    r2: int,
    i: int,
    j: int,
)
    requires
        qpp_witness(k, f1, f2, u, r1, r2),
        0 <= i < k,
        0 <= j < k,
        qpp_pi(k, f1, f2, i) == qpp_pi(k, f1, f2, j),
    ensures
        i == j,
{
    if k > 1 {
        if i >= j {
            lemma_qpp_difference(k, f1, f2, u, r1, r2, i, j);
            lemma_small_mod((i - j) as nat, k as nat);
        } else {
            lemma_qpp_difference(k, f1, f2, u, r1, r2, j, i);
            lemma_small_mod((j - i) as nat, k as nat);
        }
    }
}

/// With a witness, the interleaved indices of the places 0 to `k - 1` are
/// the numbers 0 to `k - 1`, each of them once.
pub proof fn lemma_qpp_permutation(k: int, f1: int, f2: int, u: int, r1: int, r2: int)
    requires
        qpp_witness(k, f1, f2, u, r1, r2),
    ensures
        is_permutation(qpp_values(k, f1, f2)),
        qpp_values(k, f1, f2).len() == k,
{
    let s = qpp_values(k, f1, f2);
    assert forall|i: int, j: int| 0 <= i < s.len() && 0 <= j < s.len() && i != j implies s[i]
        != s[j] by {
        if s[i] == s[j] {
            lemma_qpp_injective(k, f1, f2, u, r1, r2, i, j);
        }
    }
    assert forall|a: int| s.to_set().contains(a) implies set_int_range(0, k).contains(a) by {
        let i = choose|i: int| 0 <= i < s.len() && s[i] == a;
        lemma_mod_bound(f1 * i + f2 * i * i, k);
    }
    s.unique_seq_to_set();
    lemma_int_range(0, k);
    vstd::set_lib::lemma_len_subset(s.to_set(), set_int_range(0, k));
    lemma_subset_equality(s.to_set(), set_int_range(0, k));
}

/// Quadratic polynomial permutation (QPP) interleaver.
#[derive(Clone, Copy, Debug)]
pub struct Qpp {
    /// The block length.
    k: usize,
    /// The f1 parameter.
    f1: usize,
    /// The f2 parameter.
    f2: usize,
}

/// The sequence of interleaved indices of a `Qpp`, one at a time.
pub struct QppIterator {
    k: usize,
    two_f2_mod_k: usize,
    pi: usize,
    g: usize,
    i: usize,
    params: Ghost<(int, int)>,
}

/// The product of two values below `2^64` is below `2^128`.
proof fn lemma_product_fits(a: u128, b: u128)
    requires
        a <= 0xFFFF_FFFF_FFFF_FFFF,
        b <= 0xFFFF_FFFF_FFFF_FFFF,
    ensures
        a * b <= 0xFFFF_FFFF_FFFF_FFFE_0000_0000_0000_0001,
{
    assert(a * b <= 0xFFFF_FFFF_FFFF_FFFF * 0xFFFF_FFFF_FFFF_FFFF) by (nonlinear_arith)
        requires
            0 <= a <= 0xFFFF_FFFF_FFFF_FFFF,
            0 <= b <= 0xFFFF_FFFF_FFFF_FFFF,
    ;
}

impl Qpp {
    /// The block length.
    pub closed spec fn k(&self) -> int {
        self.k as int
    }

    /// The f1 parameter.
    pub closed spec fn f1(&self) -> int {
        self.f1 as int
    }

    /// The f2 parameter.
    pub closed spec fn f2(&self) -> int {
        self.f2 as int
    }

    /// The interleaver of block length `k` with the parameters `f1` and `f2`.
    pub fn new(k: usize, f1: usize, f2: usize) -> (r: Self)
        ensures
            r.k() == k,
            r.f1() == f1,
            r.f2() == f2,
    {
        Self { k, f1, f2 }
    }

    /// Get the interleaved index of `i`.
    /// It is slower to call this function `k` times than to walk the whole
    /// permuted sequence.
    pub fn pi(&self, i: usize) -> (r: usize)
        requires
            self.k() > 0,
        ensures
            r == qpp_pi(self.k(), self.f1(), self.f2(), i as int),
            r < self.k(),
    {
        let k = self.k as u128;
        let a = self.f1 as u128 % k;
        let b = self.f2 as u128 % k;
        let x = i as u128 % k;
        proof {
            lemma_product_fits(a, x);
            lemma_product_fits(b, x);
        }
        let t1 = a * x % k;
        let bx = b * x % k;
        proof {
            lemma_product_fits(bx, x);
        }
        let t2 = bx * x % k;
        proof {
            let m = self.k as int;
            lemma_mul_mod_noop_general(self.f1 as int, i as int, m);
            lemma_mul_mod_noop_general(self.f2 as int, i as int, m);
            lemma_mul_mod_noop_general(self.f2 * i, i as int, m);
            lemma_mul_mod_noop_general((self.f2 * i) % m, i as int, m);
            lemma_add_mod_noop(self.f1 * i, self.f2 * i * i, m);
            lemma_mod_twice_of(self.f1 * i + self.f2 * i * i, m);
        }
        ((t1 + t2) % k) as usize
    }

    /// Get an iterator that produces the permuted sequence from its start.
    /// It produces `k` indices and is faster than invoking `pi` `k` times.
    pub fn iter(&self) -> (it: QppIterator)
        requires
            self.k() > 0,
        ensures
            it.len() == self.k(),
            it.f1() == self.f1(),
            it.f2() == self.f2(),
            it.index() == 0,
            it.remaining() == qpp_sequence(self.k(), self.f1(), self.f2(), 0),
    {
        let k = self.k as u128;
        proof {
            lemma_qpp_recurrence(self.k as int, self.f1 as int, self.f2 as int, 0);
            lemma_mod_twice_of(2 * self.f2, self.k as int);
            lemma_mod_twice_of(self.f1 + self.f2, self.k as int);
        }
        QppIterator {
            k: self.k,
            two_f2_mod_k: ((2 * self.f2 as u128) % k) as usize,
            pi: 0,
            g: ((self.f1 as u128 + self.f2 as u128) % k) as usize,
            i: 0,
            params: Ghost((self.f1 as int, self.f2 as int)),
        }
    }
}

impl QppIterator {
    #[verifier::type_invariant]
    spec fn well_formed(self) -> bool {
        &&& self.k > 0
        &&& self.i <= self.k
        &&& self.params@.0 >= 0
        &&& self.params@.1 >= 0
        &&& self.two_f2_mod_k == (2 * self.params@.1) % (self.k as int)
        &&& self.pi == qpp_pi(self.k as int, self.params@.0, self.params@.1, self.i as int)
        &&& self.g == qpp_step(self.k as int, self.params@.0, self.params@.1, self.i as int)
    }

    /// The block length of the interleaver.
    pub closed spec fn len(&self) -> int {
        self.k as int
    }

    /// The f1 parameter of the interleaver.
    pub closed spec fn f1(&self) -> int {
        self.params@.0
    }

    /// The f2 parameter of the interleaver.
    pub closed spec fn f2(&self) -> int {
        self.params@.1
    }

    /// The number of indices that were produced.
    pub closed spec fn index(&self) -> int {
        self.i as int
    }

    /// The indices that are left to produce.
    pub open spec fn remaining(&self) -> Seq<usize> {
        qpp_sequence(self.len(), self.f1(), self.f2(), self.index())
    }

    /// Produces the interleaved index of the next place, or `None` once all
    /// `k` were produced.
    pub fn next(&mut self) -> (r: Option<usize>)
        ensures
            final(self).len() == old(self).len(),
            final(self).index() <= final(self).len(),
            final(self).f1() == old(self).f1(),
            final(self).f2() == old(self).f2(),
            old(self).index() < old(self).len() ==> r == Some(
                qpp_pi(old(self).len(), old(self).f1(), old(self).f2(), old(self).index()) as usize,
            ) && final(self).index() == old(self).index() + 1,
            old(self).index() >= old(self).len() ==> r.is_none() && final(self).index() == old(
                self,
            ).index(),
    {
        proof {
            use_type_invariant(&*self);
        }
        if self.i < self.k {
            let pi = self.pi;
            let g = self.g;
            let k = self.k as u128;
            proof {
                lemma_qpp_recurrence(
                    self.k as int,
                    self.params@.0,
                    self.params@.1,
                    self.i as int,
                );
                lemma_qpp_recurrence(
                    self.k as int,
                    self.params@.0,
                    self.params@.1,
                    self.i + 1,
                );
            }
            *self = QppIterator {
                k: self.k,
                two_f2_mod_k: self.two_f2_mod_k,
                pi: ((pi as u128 + g as u128) % k) as usize,
                g: ((g as u128 + self.two_f2_mod_k as u128) % k) as usize,
                i: self.i + 1,
                params: self.params,
            };
            Some(pi)
        } else {
            None
        }
    }

    /// The bounds on the number of indices: the block length, whatever was
    /// produced so far.
    pub fn size_hint(&self) -> (r: (usize, Option<usize>))
        ensures
            r.0 == self.len(),
            r.1 == Some(self.len() as usize),
    {
        (self.k, Some(self.k))
    }

    /// The indices that are left, in their order.
    pub fn collect(self) -> (v: Vec<usize>)
        ensures
            v@ == self.remaining(),
    {
        let mut it = self;
        let mut v: Vec<usize> = Vec::new();
        proof {
            use_type_invariant(&it);
        }
        loop
            invariant
                it.len() == self.len(),
                it.f1() == self.f1(),
                it.f2() == self.f2(),
                self.index() <= it.index() <= it.len(),
                v@.len() == it.index() - self.index(),
                forall|j: int|
                    0 <= j < v@.len() ==> v@[j] == qpp_pi(
                        self.len(),
                        self.f1(),
                        self.f2(),
                        self.index() + j,
                    ) as usize,
            ensures
                it.index() == it.len(),
            decreases it.len() - it.index(),
        {
            let ghost before = it.index();
            match it.next() {
                Some(x) => {
                    v.push(x);
                },
                None => {
                    break ;
                },
            }
            proof {
                use_type_invariant(&it);
            }
        }
        proof {
            assert(v@ =~= self.remaining());
        }
        v
    }
}

} // verus!
