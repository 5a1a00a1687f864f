//! The interface between the turbo iteration and a constituent decoder.

use crate::llr::Llr;
use vstd::prelude::*;

verus! {

/// The smallest block that a decoder takes: three stages open the trellis and
/// three close it.
pub const MIN_BLOCK_LEN: usize = 6;

/// MAP decoder using the BCJR algorithm.
pub trait BcjrDecoder {
    /// The a-posteriori values of a block, as a function of what was received.
    spec fn decoded(
        &self,
        systematic: Seq<Llr>,
        parity: Seq<Llr>,
        apriori: Seq<Llr>,
        terminated: bool,
    ) -> Seq<Llr>;

    /// Decodes a block: `systematic` holds the systematic values, `parity` the
    /// parity values and `apriori` the a-priori values, one of each for every
    /// trellis stage. `terminated` says that the encoder was driven back to
    /// state 0 at the end of the block. The result has one value per stage.
    fn decode(
        &self,
        systematic: &[Llr],
        parity: &[Llr],
        apriori: &[Llr],
        terminated: bool,
    ) -> (l_app: Vec<Llr>)
        requires
            systematic@.len() == parity@.len(),
            systematic@.len() == apriori@.len(),
            systematic@.len() >= MIN_BLOCK_LEN,
        ensures
            l_app@.len() == systematic@.len(),
            l_app@ == self.decoded(systematic@, parity@, apriori@, terminated),
    ;
}

} // verus!
