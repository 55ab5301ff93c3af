//! The policy that decides whether a constructed block may be appended.

use vstd::prelude::*;
use crate::model::Block;

verus! {

/// A chain-acceptance policy: a predicate over candidate blocks.
pub trait Consensus {
    /// Whether the policy accepts `block`.
    spec fn accepts(&self, block: &Block) -> bool;

    fn validate_block(&self, block: &Block) -> (r: bool)
        ensures
            r == self.accepts(block),
    ;
}

/// Placeholder stake policy: a block is accepted when each of its
/// transactions has a positive gas limit.
pub struct ProofOfStake;

impl Consensus for ProofOfStake {
    open spec fn accepts(&self, block: &Block) -> bool {
        forall|i: int|
            0 <= i < block.transactions@.len() ==> #[trigger] block.transactions@[i].gas_limit > 0
    }

    fn validate_block(&self, block: &Block) -> (r: bool) {
        let mut i: usize = 0;
        while i < block.transactions.len()
            invariant
                i <= block.transactions@.len(),
                forall|j: int| 0 <= j < i ==> #[trigger] block.transactions@[j].gas_limit > 0,
            decreases block.transactions@.len() - i,
        {
            if block.transactions[i].gas_limit == 0 {
                return false;
            }
            i = i + 1;
        }
        true
    }
}

} // verus!
