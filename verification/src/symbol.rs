//! One received symbol of a block.

use crate::llr::Llr;
use vstd::prelude::*;

verus! {

/// What the decoder is given for one trellis stage.
#[derive(Clone, Copy, Debug)]
pub struct Symbol {
    /// The systematic part.
    pub lu: Llr,
    /// The parity part.
    pub lv: Llr,
    /// The apriori part.
    pub la: Llr,
}

/// Making a symbol from three values of one type.
pub trait NewSymbol<T>: Sized {
    /// The symbol with the systematic part `lu`, the parity part `lv` and
    /// the a-priori part `la`.
    spec fn symbol_of(lu: T, lv: T, la: T) -> Self;

    /// Makes the symbol of the three parts.
    fn new(lu: T, lv: T, la: T) -> (r: Self)
        ensures
            r == Self::symbol_of(lu, lv, la),
    ;
}

impl NewSymbol<Llr> for Symbol {
    open spec fn symbol_of(lu: Llr, lv: Llr, la: Llr) -> Self {
        Symbol { lu, lv, la }
    }

    fn new(lu: Llr, lv: Llr, la: Llr) -> (r: Self) {
        Self { lu, lv, la }
    }
}

impl NewSymbol<i8> for Symbol {
    open spec fn symbol_of(lu: i8, lv: i8, la: i8) -> Self {
        Symbol { lu: Llr(lu), lv: Llr(lv), la: Llr(la) }
    }

    fn new(lu: i8, lv: i8, la: i8) -> (r: Self) {
        Self { lu: Llr::from(lu), lv: Llr::from(lv), la: Llr::from(la) }
    }
}

} // verus!
