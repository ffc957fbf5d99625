//! The 128-bit element type used by the block-oriented encoders.

use vstd::prelude::*;

verus! {

/// A 128-bit element: one lane of batched OT instances. Addition in the code's
/// element algebra is bitwise XOR over all 128 bits. The single `u128` field
/// gives the value its 16-byte size and alignment.
#[derive(Clone, Copy, Debug, PartialEq, Eq, Structural)]
pub struct Block {
    pub data: u128,
}

/// The sum of two blocks in the element algebra: bitwise XOR.
pub open spec fn xor_block(a: Block, b: Block) -> Block {
    Block { data: a.data ^ b.data }
}

/// The additive identity.
pub open spec fn zero_block() -> Block {
    Block { data: 0 }
}

impl Block {
    /// Builds a block holding the given 128 bits.
    pub fn new(data: u128) -> (r: Block)
        ensures
            r == (Block { data }),
    {
        Block { data }
    }

    /// The 128 bits this block holds.
    pub fn value(&self) -> (r: u128)
        ensures
            r == self.data,
    {
        self.data
    }

    /// The sum of `self` and `other` in the element algebra.
    pub fn xor(self, other: Block) -> (r: Block)
        ensures
            r == xor_block(self, other),
    {
        Block { data: self.data ^ other.data }
    }
}

impl Default for Block {
    /// The all-zero block.
    fn default() -> (r: Block)
        ensures
            r == zero_block(),
    {
        Block { data: 0 }
    }
}

} // verus!
