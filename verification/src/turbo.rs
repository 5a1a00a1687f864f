//! The outer iteration of the turbo decoder.
//!
//! One iteration runs the constituent decoder twice: once on the block as it
//! was sent and once on the interleaved block. Each run hands the other what
//! it learnt beyond its own input, the extrinsic information, as a-priori
//! values.

use crate::bcjr::{BcjrDecoder, MIN_BLOCK_LEN};
use crate::llr::{zero_llrs, zeros, Llr};
use crate::simd::sat8;
use vstd::prelude::*;

verus! {

/// What one block gives the decoder, as sequences.
pub struct TurboInput {
    /// The systematic values.
    pub systematic: Seq<Llr>,
    /// The systematic values of the first decoder's termination.
    pub first_termination: Seq<Llr>,
    /// The parity values of the first decoder, termination included.
    pub first_parity: Seq<Llr>,
    /// The systematic values of the second decoder's termination.
    pub second_termination: Seq<Llr>,
    /// The parity values of the second decoder, termination included.
    pub second_parity: Seq<Llr>,
    /// The interleaver: the place in the block that each place of the
    /// interleaved block is read from.
    pub interleaver: Seq<usize>,
}

/// What the decoder keeps from one iteration to the next.
pub struct TurboState {
    /// The a-posteriori values of the second decoder, in the order of the block.
    pub l_app_deinterleaved: Seq<Llr>,
    /// The a-priori values that the second decoder was given.
    pub la_second: Seq<Llr>,
}

impl TurboInput {
    /// The shape that the decoder asks of a block: the parity sequences are
    /// as long as the block with its termination, both of them long enough
    /// for the constituent decoder, and the interleaver has a place of the
    /// block for every place.
    pub open spec fn well_formed(self) -> bool {
        &&& self.first_parity.len() == self.systematic.len() + self.first_termination.len()
        &&& self.second_parity.len() == self.systematic.len() + self.second_termination.len()
        &&& self.first_parity.len() >= MIN_BLOCK_LEN
        &&& self.second_parity.len() >= MIN_BLOCK_LEN
        &&& self.first_parity.len() <= usize::MAX
        &&& self.second_parity.len() <= usize::MAX
        &&& self.interleaver.len() == self.systematic.len()
        &&& forall|i: int|
            0 <= i < self.interleaver.len() ==> (#[trigger] self.interleaver[i])
                < self.systematic.len()
    }
}

/// The extrinsic information of a decoder: what it found, less what it was
/// given a priori, less what was received, each difference saturated.
pub open spec fn extrinsic(l_app: Llr, l_a: Llr, l_u: Llr) -> Llr {
    Llr(sat8(sat8(l_app.0 - l_a.0) - l_u.0) as i8)
}

/// `into` after the first `n` values of `values` were written to it one
/// after the other, the value of place `i` to the place `interleaver[i]`.
pub open spec fn scattered(interleaver: Seq<usize>, values: Seq<Llr>, into: Seq<Llr>, n: int) -> Seq<
    Llr,
>
    decreases n,
{
    if n <= 0 {
        into
    } else {
        scattered(interleaver, values, into, n - 1).update(
            interleaver[n - 1] as int,
            values[n - 1],
        )
    }
}

/// The systematic values in the order of the interleaved block.
pub open spec fn interleaved(input: TurboInput) -> Seq<Llr> {
    Seq::new(input.systematic.len(), |i: int| input.systematic[input.interleaver[i] as int])
}

/// The extrinsic information of the second decoder from the last iteration,
/// in the order of the interleaved block.
pub open spec fn second_extrinsic(input: TurboInput, last: TurboState) -> Seq<Llr> {
    Seq::new(
        input.systematic.len(),
        |i: int|
            extrinsic(
                last.l_app_deinterleaved[input.interleaver[i] as int],
                last.la_second[i],
                input.systematic[input.interleaver[i] as int],
            ),
    )
}

/// The a-priori values of the first decoder: all equiprobable in the first
/// iteration, and afterwards the extrinsic information of the second decoder
/// brought back to the order of the block, with equiprobable values for the
/// termination.
pub open spec fn la_first(input: TurboInput, last: Option<TurboState>) -> Seq<Llr> {
    match last {
        None => zero_llrs(input.first_parity.len()),
        Some(state) => scattered(
            input.interleaver,
            second_extrinsic(input, state),
            zero_llrs(input.first_parity.len()),
            input.systematic.len() as int,
        ),
    }
}

/// The a-posteriori values of the first decoder.
pub open spec fn l_app_first<B: BcjrDecoder>(
    bcjr: B,
    input: TurboInput,
    last: Option<TurboState>,
) -> Seq<Llr> {
    bcjr.decoded(
        input.systematic + input.first_termination,
        input.first_parity,
        la_first(input, last),
        input.first_termination.len() > 0,
    )
}

/// The a-priori values of the second decoder: the extrinsic information of
/// the first decoder in the order of the interleaved block, with
/// equiprobable values for the termination.
pub open spec fn la_second<B: BcjrDecoder>(
    bcjr: B,
    input: TurboInput,
    last: Option<TurboState>,
) -> Seq<Llr> {
    Seq::new(
        input.second_parity.len(),
        |i: int|
            if i < input.systematic.len() {
                extrinsic(
                    l_app_first(bcjr, input, last)[input.interleaver[i] as int],
                    la_first(input, last)[input.interleaver[i] as int],
                    input.systematic[input.interleaver[i] as int],
                )
            } else {
                Llr(0)
            },
    )
}

/// The a-posteriori values of the second decoder, in the order of the
/// interleaved block.
pub open spec fn l_app_second<B: BcjrDecoder>(
    bcjr: B,
    input: TurboInput,
    last: Option<TurboState>,
) -> Seq<Llr> {
    bcjr.decoded(
        interleaved(input) + input.second_termination,
        input.second_parity,
        la_second(bcjr, input, last),
        input.second_termination.len() > 0,
    )
}

/// What one iteration leaves for the next, from what the last one left.
pub open spec fn turbo_step<B: BcjrDecoder>(
    bcjr: B,
    input: TurboInput,
    last: Option<TurboState>,
) -> TurboState {
    TurboState {
        l_app_deinterleaved: scattered(
            input.interleaver,
            l_app_second(bcjr, input, last),
            zero_llrs(input.systematic.len()),
            input.systematic.len() as int,
        ),
        la_second: la_second(bcjr, input, last),
    }
}

/// Scattering keeps the length of what it writes to.
pub proof fn lemma_scattered_len(
    interleaver: Seq<usize>,
    values: Seq<Llr>,
    into: Seq<Llr>,
    n: int,
)
    requires
        n <= interleaver.len(),
        forall|a: int| 0 <= a < n ==> (#[trigger] interleaver[a]) < into.len(),
    ensures
        scattered(interleaver, values, into, n).len() == into.len(),
    decreases n,
{
    if n > 0 {
        lemma_scattered_len(interleaver, values, into, n - 1);
    }
}

/// Where the interleaver sends no two of the first `n` places to the same
/// place, scattering puts the value of every place `j` at `interleaver[j]`.
pub proof fn lemma_scattered_at(
    interleaver: Seq<usize>,
    values: Seq<Llr>,
    into: Seq<Llr>,
    n: int,
    j: int,
)
    requires
        0 <= j < n <= interleaver.len(),
        forall|a: int| 0 <= a < n ==> (#[trigger] interleaver[a]) < into.len(),
        forall|a: int, b: int|
            0 <= a < b < n ==> (#[trigger] interleaver[a]) != (#[trigger] interleaver[b]),
    ensures
        scattered(interleaver, values, into, n)[interleaver[j] as int] == values[j],
    decreases n,
{
    lemma_scattered_len(interleaver, values, into, n - 1);
    if j < n - 1 {
        lemma_scattered_at(interleaver, values, into, n - 1, j);
    }
}

/// Where the interleaver sends no two places to the same place, one
/// iteration does place by place what it does as a whole: the a-priori
/// value of the first decoder at `interleaver[j]` is the extrinsic
/// information of the second decoder at `j`, and the a-posteriori value that
/// is kept for `interleaver[j]` is that of the second decoder at `j`.
pub proof fn lemma_turbo_step_at<B: BcjrDecoder>(
    bcjr: B,
    input: TurboInput,
    last: TurboState,
    j: int,
)
    requires
        input.well_formed(),
        0 <= j < input.systematic.len(),
        forall|a: int, b: int|
            0 <= a < b < input.interleaver.len() ==> (#[trigger] input.interleaver[a]) != (
            #[trigger] input.interleaver[b]),
    ensures
        la_first(input, Some(last))[input.interleaver[j] as int] == extrinsic(
            last.l_app_deinterleaved[input.interleaver[j] as int],
            last.la_second[j],
            input.systematic[input.interleaver[j] as int],
        ),
        turbo_step(bcjr, input, Some(last)).l_app_deinterleaved[input.interleaver[j] as int]
            == l_app_second(bcjr, input, Some(last))[j],
        turbo_step(bcjr, input, Some(last)).l_app_deinterleaved.len() == input.systematic.len(),
        la_first(input, Some(last)).len() == input.first_parity.len(),
{
    let n = input.systematic.len() as int;
    lemma_scattered_at(
        input.interleaver,
        second_extrinsic(input, last),
        zero_llrs(input.first_parity.len()),
        n,
        j,
    );
    lemma_scattered_at(
        input.interleaver,
        l_app_second(bcjr, input, Some(last)),
        zero_llrs(input.systematic.len()),
        n,
        j,
    );
    lemma_scattered_len(
        input.interleaver,
        second_extrinsic(input, last),
        zero_llrs(input.first_parity.len()),
        n,
    );
    lemma_scattered_len(
        input.interleaver,
        l_app_second(bcjr, input, Some(last)),
        zero_llrs(input.systematic.len()),
        n,
    );
}

/// The first buffer of a decoder in `state`: the a-posteriori values of the
/// last iteration in the order of the block, empty where there was none.
pub open spec fn held_l_app(state: Option<TurboState>) -> Seq<Llr> {
    match state {
        Some(s) => s.l_app_deinterleaved,
        None => Seq::empty(),
    }
}

/// The second buffer of a decoder in `state`: the a-priori values that the
/// second decoder was given in the last iteration, empty where there was none.
pub open spec fn held_la_second(state: Option<TurboState>) -> Seq<Llr> {
    match state {
        Some(s) => s.la_second,
        None => Seq::empty(),
    }
}

/// The buffers that the decoder keeps between two iterations.
struct Buffers {
    l_app_deinterleaved: Vec<Llr>,
    la_second: Vec<Llr>,
}

/// A Turbo decoder.
pub struct TurboDecoder<B: BcjrDecoder> {
    /// The BCJR algorithm decoder.
    bcjr: B,
    /// What the last iteration left; nothing before the first.
    buffers: Option<Buffers>,
}

/// One decode in progress: every call of `advance` is one iteration.
pub struct TurboDecodeIterator<'a, B: BcjrDecoder> {
    /// Reference to the decoder.
    decoder: &'a mut TurboDecoder<B>,
    /// The systematic soft values.
    systematic: &'a [Llr],
    /// The termination soft values for the first decoder.
    first_decoder_systematic_termination: Option<&'a [Llr]>,
    /// The parity soft values for the first decoder (also includes termination parity).
    first_decoder_parity: &'a [Llr],
    /// The termination soft values for the second decoder.
    second_decoder_systematic_termination: Option<&'a [Llr]>,
    /// The parity soft values for the second decoder (also includes termination parity).
    second_decoder_parity: &'a [Llr],
    /// The interleaver.
    interleaver: Vec<usize>,
}

/// The values of an optional termination: none where there is no termination.
pub open spec fn termination(t: Option<&[Llr]>) -> Seq<Llr> {
    match t {
        Some(s) => s@,
        None => Seq::empty(),
    }
}

impl<B: BcjrDecoder> TurboDecoder<B> {
    /// The constituent decoder.
    pub closed spec fn bcjr(&self) -> B {
        self.bcjr
    }

    /// What the last iteration left; `None` where no decode is in progress
    /// or none of its iterations has run.
    pub closed spec fn state(&self) -> Option<TurboState> {
        match self.buffers {
            Some(b) => Some(
                TurboState {
                    l_app_deinterleaved: b.l_app_deinterleaved@,
                    la_second: b.la_second@,
                },
            ),
            None => None,
        }
    }

    /// The first of the two buffers: the a-posteriori values of the last
    /// iteration in the order of the block, empty where there is none.
    pub fn l_app_deinterleaved(&self) -> (r: &[Llr])
        ensures
            r@ == held_l_app(self.state()),
    {
        match &self.buffers {
            Some(b) => b.l_app_deinterleaved.as_slice(),
            None => &[],
        }
    }

    /// The second of the two buffers: the a-priori values that the second
    /// decoder was given in the last iteration, empty where there is none.
    pub fn la_second(&self) -> (r: &[Llr])
        ensures
            r@ == held_la_second(self.state()),
    {
        match &self.buffers {
            Some(b) => b.la_second.as_slice(),
            None => &[],
        }
    }

    /// Create a new Turbo decoder with a given trellis defined by the `bcjr` algorithm.
    pub fn new(bcjr: B) -> (r: Self)
        ensures
            r.bcjr() == bcjr,
            r.state().is_none(),
    {
        Self { bcjr, buffers: None }
    }

    /// Produce an iterator for the Turbo decoder.
    /// Each iteration in the iterator corresponds to a Turbo decoder iteration.
    /// The decode starts afresh: nothing of an earlier decode is used.
    pub fn decode<'a>(
        &'a mut self,
        systematic: &'a [Llr],
        first_decoder_systematic_termination: Option<&'a [Llr]>,
        first_decoder_parity: &'a [Llr],
        second_decoder_systematic_termination: Option<&'a [Llr]>,
        second_decoder_parity: &'a [Llr],
        interleaver: Vec<usize>,
    ) -> (it: TurboDecodeIterator<'a, B>)
        requires
            (TurboInput {
                systematic: systematic@,
                first_termination: termination(first_decoder_systematic_termination),
                first_parity: first_decoder_parity@,
                second_termination: termination(second_decoder_systematic_termination),
                second_parity: second_decoder_parity@,
                interleaver: interleaver@,
            }).well_formed(),
        ensures
            it.input() == (TurboInput {
                systematic: systematic@,
                first_termination: termination(first_decoder_systematic_termination),
                first_parity: first_decoder_parity@,
                second_termination: termination(second_decoder_systematic_termination),
                second_parity: second_decoder_parity@,
                interleaver: interleaver@,
            }),
            it.bcjr() == old(self).bcjr(),
            it.state().is_none(),
    {
        self.buffers = None;
        TurboDecodeIterator {
            decoder: self,
            systematic,
            first_decoder_systematic_termination,
            first_decoder_parity,
            second_decoder_systematic_termination,
            second_decoder_parity,
            interleaver,
        }
    }
}

impl<'a, B: BcjrDecoder> TurboDecodeIterator<'a, B> {
    #[verifier::type_invariant]
    spec fn shaped(self) -> bool {
        &&& self.input().well_formed()
        &&& match self.decoder.buffers {
            Some(b) => {
                &&& b.l_app_deinterleaved@.len() == self.systematic@.len()
                &&& b.la_second@.len() == self.second_decoder_parity@.len()
            },
            None => true,
        }
    }

    /// The block that is decoded.
    pub closed spec fn input(&self) -> TurboInput {
        TurboInput {
            systematic: self.systematic@,
            first_termination: termination(self.first_decoder_systematic_termination),
            first_parity: self.first_decoder_parity@,
            second_termination: termination(self.second_decoder_systematic_termination),
            second_parity: self.second_decoder_parity@,
            interleaver: self.interleaver@,
        }
    }

    /// The constituent decoder.
    pub closed spec fn bcjr(&self) -> B {
        self.decoder.bcjr
    }

    /// What the last iteration left; `None` before the first.
    pub closed spec fn state(&self) -> Option<TurboState> {
        self.decoder.state()
    }

    /// The a-posteriori values of the last iteration in the order of the
    /// block: the values to decide the bits by. Empty before the first
    /// iteration.
    pub fn get(&self) -> (r: &[Llr])
        ensures
            r@ == held_l_app(self.state()),
    {
        match &self.decoder.buffers {
            Some(b) => b.l_app_deinterleaved.as_slice(),
            None => &[],
        }
    }
}

impl<'a, B: BcjrDecoder> TurboDecodeIterator<'a, B> {
    /// The length of an optional termination.
    fn termination_len(t: &Option<&'a [Llr]>) -> (n: usize)
        ensures
            n == termination(*t).len(),
    {
        match t {
            Some(s) => s.len(),
            None => 0,
        }
    }

    /// `head` followed by the values of `tail`.
    fn with_termination(head: Vec<Llr>, tail: &Option<&'a [Llr]>) -> (v: Vec<Llr>)
        ensures
            v@ == head@ + termination(*tail),
    {
        let mut v = head;
        match tail {
            Some(s) => {
                let mut i: usize = 0;
                while i < s.len()
                    invariant
                        i <= s@.len(),
                        v@ == head@ + s@.subrange(0, i as int),
                    decreases s@.len() - i,
                {
                    v.push(s[i]);
                    i += 1;
                    assert(v@ =~= head@ + s@.subrange(0, i as int));
                }
                assert(s@.subrange(0, s@.len() as int) =~= s@);
            },
            None => {
                assert(v@ =~= head@ + Seq::<Llr>::empty());
            },
        }
        v
    }

    /// The extrinsic information from what a decoder found, what it was
    /// given a priori and what was received.
    fn extrinsic_of(l_app: Llr, l_a: Llr, l_u: Llr) -> (l_e: Llr)
        ensures
            l_e == extrinsic(l_app, l_a, l_u),
    {
        l_app.saturating_sub(l_a).saturating_sub(l_u)
    }

    /// Runs one iteration: the first decoder on the block, then the second
    /// on the interleaved block, each with the extrinsic information of the
    /// other as a-priori values. Afterwards `get` gives the a-posteriori
    /// values of the second decoder in the order of the block.
    pub fn advance(&mut self)
        ensures
            final(self).input() == old(self).input(),
            final(self).bcjr() == old(self).bcjr(),
            final(self).state() == Some(
                turbo_step(old(self).bcjr(), old(self).input(), old(self).state()),
            ),
    {
        proof {
            use_type_invariant(&*self);
        }
        let ghost input = self.input();
        let ghost last = self.state();
        let ghost bcjr = self.bcjr();
        let n = self.systematic.len();
        let first_term_len = Self::termination_len(&self.first_decoder_systematic_termination);
        let second_term_len = Self::termination_len(&self.second_decoder_systematic_termination);

        // The a-priori values of the first decoder: equiprobable in the first
        // iteration, the extrinsic information of the second decoder after it.
        let mut la_first_values = zeros(n + first_term_len);
        match &self.decoder.buffers {
            Some(b) => {
                let mut index: usize = 0;
                while index < n
                    invariant
                        index <= n,
                        n == input.systematic.len(),
                        input == self.input(),
                        input.well_formed(),
                        last == Some(
                            TurboState {
                                l_app_deinterleaved: b.l_app_deinterleaved@,
                                la_second: b.la_second@,
                            },
                        ),
                        la_first_values@ == scattered(
                            input.interleaver,
                            second_extrinsic(input, last.unwrap()),
                            zero_llrs(input.first_parity.len()),
                            index as int,
                        ),
                        la_first_values@.len() == input.first_parity.len(),
                        b.l_app_deinterleaved@.len() == n,
                        b.la_second@.len() == input.second_parity.len(),
                    decreases n - index,
                {
                    let int_index = self.interleaver[index];
                    let l_e = Self::extrinsic_of(
                        b.l_app_deinterleaved[int_index],
                        b.la_second[index],
                        self.systematic[int_index],
                    );
                    la_first_values.set(int_index, l_e);
                    index += 1;
                }
            },
            None => {},
        }

        let l_app_first_values = {
            let systematic = Self::with_termination(
                slice_to_vec(self.systematic),
                &self.first_decoder_systematic_termination,
            );
            self.decoder.bcjr.decode(
                systematic.as_slice(),
                self.first_decoder_parity,
                la_first_values.as_slice(),
                first_term_len > 0,
            )
        };

        // The a-priori values of the second decoder, and the systematic
        // values in its order.
        let mut la_second_values: Vec<Llr> = Vec::with_capacity(n + second_term_len);
        let mut interleaved_values: Vec<Llr> = Vec::with_capacity(n + second_term_len);
        let mut index: usize = 0;
        while index < n
            invariant
                index <= n,
                n == input.systematic.len(),
                input == self.input(),
                input.well_formed(),
                l_app_first_values@ == l_app_first(bcjr, input, last),
                l_app_first_values@.len() == input.first_parity.len(),
                la_first_values@ == la_first(input, last),
                la_first_values@.len() == input.first_parity.len(),
                la_second_values@ == la_second(bcjr, input, last).subrange(0, index as int),
                interleaved_values@ == interleaved(input).subrange(0, index as int),
            decreases n - index,
        {
            let int_index = self.interleaver[index];
            la_second_values.push(
                Self::extrinsic_of(
                    l_app_first_values[int_index],
                    la_first_values[int_index],
                    self.systematic[int_index],
                ),
            );
            interleaved_values.push(self.systematic[int_index]);
            index += 1;
            assert(la_second_values@ =~= la_second(bcjr, input, last).subrange(0, index as int));
            assert(interleaved_values@ =~= interleaved(input).subrange(0, index as int));
        }
        let mut index: usize = 0;
        while index < second_term_len
            invariant
                index <= second_term_len,
                n == input.systematic.len(),
                n + second_term_len == input.second_parity.len(),
                la_second_values@ == la_second(bcjr, input, last).subrange(0, n + index),
            decreases second_term_len - index,
        {
            la_second_values.push(Llr::zero());
            index += 1;
            assert(la_second_values@ =~= la_second(bcjr, input, last).subrange(0, n + index));
        }
        assert(la_second_values@ =~= la_second(bcjr, input, last));
        assert(interleaved_values@ =~= interleaved(input));

        let l_app_second_values = {
            let systematic = Self::with_termination(
                interleaved_values,
                &self.second_decoder_systematic_termination,
            );
            self.decoder.bcjr.decode(
                systematic.as_slice(),
                self.second_decoder_parity,
                la_second_values.as_slice(),
                second_term_len > 0,
            )
        };

        // De-interleave the a-posteriori values for decision making.
        let mut l_app = zeros(n);
        let mut index: usize = 0;
        while index < n
            invariant
                index <= n,
                n == input.systematic.len(),
                input == self.input(),
                input.well_formed(),
                l_app_second_values@ == l_app_second(bcjr, input, last),
                l_app_second_values@.len() == input.second_parity.len(),
                l_app@.len() == n,
                l_app@ == scattered(
                    input.interleaver,
                    l_app_second(bcjr, input, last),
                    zero_llrs(input.systematic.len()),
                    index as int,
                ),
            decreases n - index,
        {
            let int_index = self.interleaver[index];
            l_app.set(int_index, l_app_second_values[index]);
            index += 1;
        }

        self.decoder.buffers = Some(
            Buffers { l_app_deinterleaved: l_app, la_second: la_second_values },
        );
    }
}

/// The values of a slice as a vector.
fn slice_to_vec(s: &[Llr]) -> (v: Vec<Llr>)
    ensures
        v@ == s@,
{
    let mut v: Vec<Llr> = Vec::with_capacity(s.len());
    let mut i: usize = 0;
    while i < s.len()
        invariant
            i <= s@.len(),
            v@ == s@.subrange(0, i as int),
        decreases s@.len() - i,
    {
        v.push(s[i]);
        i += 1;
        assert(v@ =~= s@.subrange(0, i as int));
    }
    assert(s@.subrange(0, s@.len() as int) =~= s@);
    v
}

impl<'a, B: BcjrDecoder> Drop for TurboDecodeIterator<'a, B> {
    /// Releasing the iterator empties the two buffers of the decoder, so
    /// that nothing of this decode reaches the next.
    fn drop(&mut self)
        ensures
            final(self).state().is_none(),
            held_l_app(final(self).state()).len() == 0,
            held_la_second(final(self).state()).len() == 0,
        opens_invariants none
        no_unwind
    {
        proof {
            use_type_invariant(&*self);
        }
        self.decoder.buffers = None;
    }
}

} // verus!
