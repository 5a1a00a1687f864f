use crate::simd::sat8;
use vstd::prelude::*;

verus! {

/// Log-likelihood ratio of one bit: positive means that a one is more likely,
/// negative that a zero is, and zero that both are equally likely.
#[derive(Clone, Copy, Debug, PartialEq, Eq, Structural)]
pub struct Llr(pub i8);

/// `n` equiprobable values.
pub open spec fn zero_llrs(n: nat) -> Seq<Llr> {
    Seq::new(n, |i: int| Llr(0))
}

/// A vector of `n` equiprobable values.
pub fn zeros(n: usize) -> (v: Vec<Llr>)
    ensures
        v@ == zero_llrs(n as nat),
{
    let mut v: Vec<Llr> = Vec::with_capacity(n);
    let mut i: usize = 0;
    while i < n
        invariant
            i <= n,
            v@ == zero_llrs(i as nat),
        decreases n - i,
    {
        v.push(Llr(0));
        i += 1;
        assert(v@ =~= zero_llrs(i as nat));
    }
    v
}

impl Llr {
    /// The equiprobable value.
    pub fn zero() -> (r: Llr)
        ensures
            r.0 == 0,
    {
        Llr(0)
    }

    /// Subtracts `rhs`, clamping the difference to the range of a signed byte.
    pub fn saturating_sub(self, rhs: Llr) -> (r: Llr)
        ensures
            r.0 == sat8(self.0 - rhs.0),
    {
        let d: i16 = self.0 as i16 - rhs.0 as i16;
        if d > 127 {
            Llr(127)
        } else if d < -128 {
            Llr(-128)
        } else {
            Llr(d as i8)
        }
    }

    /// The hard decision: `true` exactly when the value is positive.
    pub fn hard(self) -> (bit: bool)
        ensures
            bit == (self.0 > 0),
    {
        self.0 > 0
    }
}

impl From<i8> for Llr {
    fn from(value: i8) -> (r: Llr) {
        Llr(value)
    }
}

impl vstd::std_specs::convert::FromSpecImpl<i8> for Llr {
    open spec fn obeys_from_spec() -> bool {
        true
    }

    open spec fn from_spec(value: i8) -> Llr {
        Llr(value)
    }
}

} // verus!
