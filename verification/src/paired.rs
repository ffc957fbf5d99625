//! The paired encode: one block buffer and one byte buffer dual-encoded under
//! the same deterministic position-selection graph.

use vstd::prelude::*;
use crate::block::Block;
use crate::block_encode::{
    accumulate_block_spec, accumulate_blocks, encode_block_spec, expand_blocks,
    expand_out_block, lemma_acc_prefix_block_len,
};
use crate::byte_encode::{
    accumulate_byte_spec, accumulate_bytes, encode_byte_spec, expand_bytes, expand_out_byte,
    lemma_acc_prefix_byte_len,
};
use crate::code::{CodeError, ExConvCode};

verus! {

/// Relies on `<[u8]>::as_ptr` (std): reports whether the slice's first byte
/// sits at an address divisible by 16. The answer depends on where the caller
/// allocated the buffer, so nothing is promised of it.
#[verifier::external_body]
fn is_aligned_16(e: &[u8]) -> bool {
    (e.as_ptr() as usize) % 16 == 0
}

impl ExConvCode {
    /// Paired dual encode with the byte buffer's alignment verdict supplied by
    /// the caller. Wrong lengths are rejected with `LengthMismatch`, a
    /// negative verdict with `AlignmentViolation` (both leaving the buffers
    /// untouched); otherwise both buffers are encoded, under the identical
    /// position graph, since each stage's graph is a function of the
    /// configuration alone.
    pub fn dual_encode2_with_alignment(
        &self,
        e0: &mut [Block],
        e1: &mut [u8],
        bytes_aligned: bool,
    ) -> (r: Result<(), CodeError>)
        requires
            self.wf(),
        ensures
            old(e0)@.len() != self.spec_code_size() || old(e1)@.len() != self.spec_code_size()
                ==> {
                &&& r == Err::<(), CodeError>(CodeError::LengthMismatch)
                &&& final(e0)@ == old(e0)@
                &&& final(e1)@ == old(e1)@
            },
            old(e0)@.len() == self.spec_code_size() && old(e1)@.len() == self.spec_code_size()
                && !bytes_aligned ==> {
                &&& r == Err::<(), CodeError>(CodeError::AlignmentViolation)
                &&& final(e0)@ == old(e0)@
                &&& final(e1)@ == old(e1)@
            },
            old(e0)@.len() == self.spec_code_size() && old(e1)@.len() == self.spec_code_size()
                && bytes_aligned ==> {
                &&& r == Ok::<(), CodeError>(())
                &&& final(e0)@.len() == old(e0)@.len()
                &&& final(e1)@.len() == old(e1)@.len()
                &&& forall|k: int|
                    0 <= k < self.spec_message_size() as int ==> final(e0)@[k]
                        == encode_block_spec(*self, old(e0)@)[k]
                &&& forall|k: int|
                    0 <= k < self.spec_message_size() as int ==> final(e1)@[k]
                        == encode_byte_spec(*self, old(e1)@)[k]
            },
    {
        if e0.len() as u64 != self.code_size() || e1.len() as u64 != self.code_size() {
            return Err(CodeError::LengthMismatch);
        }
        if !bytes_aligned {
            return Err(CodeError::AlignmentViolation);
        }
        accumulate_blocks(self, e0);
        proof {
            lemma_acc_prefix_block_len(*self, old(e0)@, self.spec_code_size() as int);
        }
        expand_blocks(self, e0);
        accumulate_bytes(self, e1);
        proof {
            lemma_acc_prefix_byte_len(*self, old(e1)@, self.spec_code_size() as int);
        }
        expand_bytes(self, e1);
        proof {
            assert forall|k: int| 0 <= k < self.spec_message_size() as int implies e0@[k]
                == encode_block_spec(*self, old(e0)@)[k] by {
                assert(encode_block_spec(*self, old(e0)@)[k] == expand_out_block(
                    *self,
                    accumulate_block_spec(*self, old(e0)@),
                    k as u64,
                ));
            }
            assert forall|k: int| 0 <= k < self.spec_message_size() as int implies e1@[k]
                == encode_byte_spec(*self, old(e1)@)[k] by {
                assert(encode_byte_spec(*self, old(e1)@)[k] == expand_out_byte(
                    *self,
                    accumulate_byte_spec(*self, old(e1)@),
                    k as u64,
                ));
            }
        }
        Ok(())
    }

    /// Dual-encodes a block buffer and a byte buffer together. The byte buffer
    /// must start at a 16-byte boundary (vector-width kernels assume aligned
    /// loads); a misaligned or wrongly sized call is rejected before either
    /// buffer is touched.
    pub fn dual_encode2_block(&self, e0: &mut [Block], e1: &mut [u8]) -> (r: Result<
        (),
        CodeError,
    >)
        requires
            self.wf(),
        ensures
            match r {
                Ok(()) => {
                    &&& old(e0)@.len() == self.spec_code_size()
                    &&& old(e1)@.len() == self.spec_code_size()
                    &&& final(e0)@.len() == old(e0)@.len()
                    &&& final(e1)@.len() == old(e1)@.len()
                    &&& forall|k: int|
                        0 <= k < self.spec_message_size() as int ==> final(e0)@[k]
                            == encode_block_spec(*self, old(e0)@)[k]
                    &&& forall|k: int|
                        0 <= k < self.spec_message_size() as int ==> final(e1)@[k]
                            == encode_byte_spec(*self, old(e1)@)[k]
                },
                Err(err) => {
                    &&& final(e0)@ == old(e0)@
                    &&& final(e1)@ == old(e1)@
                    &&& (err == CodeError::LengthMismatch || err
                        == CodeError::AlignmentViolation)
                    &&& (err == CodeError::LengthMismatch <==> (old(e0)@.len()
                        != self.spec_code_size() || old(e1)@.len() != self.spec_code_size()))
                },
            },
    {
        let aligned: bool = is_aligned_16(e1);
        self.dual_encode2_with_alignment(e0, e1, aligned)
    }
}

} // verus!
