//! The two code stages over 128-bit block elements, with their mathematical
//! model and the laws (determinism, linearity) proved over that model.

use vstd::prelude::*;
use crate::block::{xor_block, zero_block, Block};
use crate::code::{CodeError, ExConvCode};
use crate::select::{lemma_sel_pos_bounds, sel_pos, sel_pos_exec};

verus! {

/// The pointwise sum of two equal-length buffers in the element algebra.
pub open spec fn xor_seq_block(a: Seq<Block>, b: Seq<Block>) -> Seq<Block>
    recommends
        a.len() == b.len(),
{
    Seq::new(a.len(), |i: int| xor_block(a[i], b[i]))
}

/// The XOR-sum of `s` at the first `t` selected positions of row `k` of the
/// selection over `[0, n)` with weight `w` under seed `sd`.
pub open spec fn row_sum_block(s: Seq<Block>, sd: u64, n: u64, w: u64, k: u64, t: int) -> Block
    recommends
        0 < w <= n,
        n <= s.len(),
        t <= w,
    decreases t,
{
    if t <= 0 {
        zero_block()
    } else {
        xor_block(
            row_sum_block(s, sd, n, w, k, t - 1),
            s[sel_pos(sd, n, w, k, (t - 1) as u64)],
        )
    }
}

/// One accumulator step: position `i` absorbs the XOR-sum of its selected
/// prior positions. Every selected position is below `i`, so a single forward
/// pass in increasing index order realizes the whole stage.
pub open spec fn acc_step_block(c: ExConvCode, s: Seq<Block>, i: u64) -> Seq<Block>
    recommends
        c.wf(),
        1 <= i < s.len(),
{
    s.update(
        i as int,
        xor_block(
            s[i as int],
            row_sum_block(s, c.acc_seed(), i, c.acc_width(i), i, c.acc_width(i) as int),
        ),
    )
}

/// The buffer after the accumulator has processed positions `1, ..., i - 1`.
pub open spec fn acc_prefix_block(c: ExConvCode, s: Seq<Block>, i: int) -> Seq<Block>
    recommends
        c.wf(),
        i <= s.len(),
    decreases i,
{
    if i <= 1 {
        s
    } else {
        acc_step_block(c, acc_prefix_block(c, s, i - 1), (i - 1) as u64)
    }
}

/// The accumulator stage: one forward pass over the whole buffer.
pub open spec fn accumulate_block_spec(c: ExConvCode, s: Seq<Block>) -> Seq<Block>
    recommends
        c.wf(),
        s.len() == c.spec_code_size(),
{
    acc_prefix_block(c, s, c.spec_code_size() as int)
}

/// Output `k` of the expander stage: the XOR-sum of `expander_weight`
/// accumulated positions.
pub open spec fn expand_out_block(c: ExConvCode, s: Seq<Block>, k: u64) -> Block
    recommends
        c.wf(),
        s.len() == c.spec_code_size(),
{
    row_sum_block(
        s,
        c.exp_seed(),
        c.spec_code_size(),
        c.spec_expander_weight(),
        k,
        c.spec_expander_weight() as int,
    )
}

/// The whole transform: accumulate, then expand down to `message_size`
/// outputs.
pub open spec fn encode_block_spec(c: ExConvCode, s: Seq<Block>) -> Seq<Block>
    recommends
        c.wf(),
        s.len() == c.spec_code_size(),
{
    Seq::new(
        c.spec_message_size() as nat,
        |k: int| expand_out_block(c, accumulate_block_spec(c, s), k as u64),
    )
}

/// The accumulator never changes the buffer's length.
pub proof fn lemma_acc_prefix_block_len(c: ExConvCode, s: Seq<Block>, i: int)
    requires
        i <= s.len(),
    ensures
        acc_prefix_block(c, s, i).len() == s.len(),
    decreases i,
{
    if i > 1 {
        lemma_acc_prefix_block_len(c, s, i - 1);
    }
}

/// Executable accumulator stage over blocks.
pub(crate) fn accumulate_blocks(c: &ExConvCode, e: &mut [Block])
    requires
        c.wf(),
        old(e)@.len() == c.spec_code_size(),
    ensures
        final(e)@ == accumulate_block_spec(*c, old(e)@),
{
    let n: usize = e.len();
    let aw: u64 = c.accumulator_weight();
    let sd: u64 = c.acc_seed_exec();
    let ghost s0 = e@;
    for i in 1..n
        invariant
            e@.len() == n as nat,
            n as int == c.spec_code_size() as int,
            c.wf(),
            aw == c.spec_accumulator_weight(),
            sd == c.acc_seed(),
            e@ == acc_prefix_block(*c, s0, i as int),
    {
        let iu: u64 = i as u64;
        let w: u64 = if iu < aw { iu } else { aw };
        let mut acc = Block { data: 0 };
        for t in 0..w
            invariant
                0 < w <= iu,
                iu == i as u64,
                1 <= i < n,
                e@.len() == n as nat,
                sd == c.acc_seed(),
                w == c.acc_width(iu),
                acc == row_sum_block(e@, sd, iu, w, iu, t as int),
                e@ == acc_prefix_block(*c, s0, i as int),
        {
            proof {
                lemma_sel_pos_bounds(sd, iu, w, iu, t);
            }
            let p: u64 = sel_pos_exec(sd, iu, w, iu, t);
            acc = acc.xor(e[p as usize]);
        }
        let cur: Block = e[i];
        e[i] = cur.xor(acc);
        proof {
            assert(e@ == acc_prefix_block(*c, s0, i as int + 1));
        }
    }
}

/// Executable expander stage over blocks: writes the `message_size` outputs
/// over the front of the buffer, leaving its length unchanged.
pub(crate) fn expand_blocks(c: &ExConvCode, e: &mut [Block])
    requires
        c.wf(),
        old(e)@.len() == c.spec_code_size(),
    ensures
        final(e)@.len() == old(e)@.len(),
        forall|k: int|
            0 <= k < c.spec_message_size() as int ==> final(e)@[k] == expand_out_block(
                *c,
                old(e)@,
                k as u64,
            ),
{
    let n: usize = e.len();
    let n64: u64 = c.code_size();
    let m: usize = c.message_size() as usize;
    let ew: u64 = c.expander_weight();
    let sd: u64 = c.exp_seed_exec();
    let ghost s0 = e@;
    let mut out: Vec<Block> = Vec::new();
    for k in 0..m
        invariant
            out@.len() == k as nat,
            e@ == s0,
            e@.len() == n as nat,
            n as int == c.spec_code_size() as int,
            n64 == c.spec_code_size(),
            m as int == c.spec_message_size() as int,
            c.wf(),
            ew == c.spec_expander_weight(),
            sd == c.exp_seed(),
            forall|j: int| 0 <= j < k as int ==> out@[j] == expand_out_block(*c, s0, j as u64),
    {
        let ku: u64 = k as u64;
        let mut acc = Block { data: 0 };
        for t in 0..ew
            invariant
                0 < ew <= n64,
                n64 == c.spec_code_size(),
                e@ == s0,
                e@.len() == n as nat,
                n as int == c.spec_code_size() as int,
                sd == c.exp_seed(),
                ku == k as u64,
                acc == row_sum_block(e@, sd, n64, ew, ku, t as int),
        {
            proof {
                lemma_sel_pos_bounds(sd, n64, ew, ku, t);
            }
            let p: u64 = sel_pos_exec(sd, n64, ew, ku, t);
            acc = acc.xor(e[p as usize]);
        }
        out.push(acc);
    }
    for k in 0..m
        invariant
            c.wf(),
            e@.len() == n as nat,
            m <= n,
            m as int == c.spec_message_size() as int,
            out@.len() == m as nat,
            forall|j: int| 0 <= j < k as int ==> e@[j] == out@[j],
            forall|j: int| 0 <= j < m as int ==> out@[j] == expand_out_block(*c, s0, j as u64),
    {
        e[k] = out[k];
    }
    proof {
        assert forall|k: int| 0 <= k < c.spec_message_size() as int implies e@[k]
            == expand_out_block(*c, s0, k as u64) by {
            assert(e@[k] == out@[k]);
        }
    }
}

proof fn lemma_xor128_shuffle(a: u128, b: u128, c: u128, d: u128)
    by (bit_vector)
    ensures
        ((a ^ b) ^ (c ^ d)) == ((a ^ c) ^ (b ^ d)),
{
}

/// A row sum is linear: summing the pointwise XOR of two buffers gives the
/// XOR of their row sums.
proof fn lemma_row_sum_block_linear(
    a: Seq<Block>,
    b: Seq<Block>,
    sd: u64,
    n: u64,
    w: u64,
    k: u64,
    t: int,
)
    requires
        a.len() == b.len(),
        n <= a.len(),
        0 < w <= n,
        0 <= t <= w,
    ensures
        row_sum_block(xor_seq_block(a, b), sd, n, w, k, t) == xor_block(
            row_sum_block(a, sd, n, w, k, t),
            row_sum_block(b, sd, n, w, k, t),
        ),
    decreases t,
{
    if t <= 0 {
        assert(0u128 ^ 0u128 == 0u128) by (bit_vector);
    } else {
        lemma_row_sum_block_linear(a, b, sd, n, w, k, t - 1);
        lemma_sel_pos_bounds(sd, n, w, k, (t - 1) as u64);
        let p = sel_pos(sd, n, w, k, (t - 1) as u64);
        let ra = row_sum_block(a, sd, n, w, k, t - 1);
        let rb = row_sum_block(b, sd, n, w, k, t - 1);
        lemma_xor128_shuffle(ra.data, rb.data, a[p].data, b[p].data);
    }
}

/// One accumulator step is linear.
proof fn lemma_acc_step_block_linear(c: ExConvCode, a: Seq<Block>, b: Seq<Block>, i: u64)
    requires
        c.wf(),
        a.len() == b.len(),
        1 <= i < a.len(),
    ensures
        acc_step_block(c, xor_seq_block(a, b), i) == xor_seq_block(
            acc_step_block(c, a, i),
            acc_step_block(c, b, i),
        ),
{
    let sd = c.acc_seed();
    let w = c.acc_width(i);
    lemma_row_sum_block_linear(a, b, sd, i, w, i, w as int);
    let ra = row_sum_block(a, sd, i, w, i, w as int);
    let rb = row_sum_block(b, sd, i, w, i, w as int);
    let lhs = acc_step_block(c, xor_seq_block(a, b), i);
    let rhs = xor_seq_block(acc_step_block(c, a, i), acc_step_block(c, b, i));
    assert forall|j: int| 0 <= j < a.len() implies lhs[j] == rhs[j] by {
        if j == i as int {
            lemma_xor128_shuffle(a[j].data, b[j].data, ra.data, rb.data);
        }
    }
    assert(lhs =~= rhs);
}

/// The whole accumulator pass is linear.
proof fn lemma_acc_prefix_block_linear(c: ExConvCode, a: Seq<Block>, b: Seq<Block>, i: int)
    requires
        c.wf(),
        a.len() == b.len(),
        a.len() <= u64::MAX,
        i <= a.len(),
    ensures
        acc_prefix_block(c, xor_seq_block(a, b), i) == xor_seq_block(
            acc_prefix_block(c, a, i),
            acc_prefix_block(c, b, i),
        ),
    decreases i,
{
    if i > 1 {
        lemma_acc_prefix_block_linear(c, a, b, i - 1);
        lemma_acc_prefix_block_len(c, a, i - 1);
        lemma_acc_prefix_block_len(c, b, i - 1);
        lemma_acc_step_block_linear(
            c,
            acc_prefix_block(c, a, i - 1),
            acc_prefix_block(c, b, i - 1),
            (i - 1) as u64,
        );
    }
}

/// Linearity of the transform over the element algebra: encoding the
/// pointwise XOR of two buffers yields, on every defined output position, the
/// XOR of their encodings. This is what makes the transform a linear code.
pub proof fn lemma_encode_block_linear(c: ExConvCode, a: Seq<Block>, b: Seq<Block>)
    requires
        c.wf(),
        a.len() == c.spec_code_size(),
        b.len() == c.spec_code_size(),
    ensures
        forall|k: int|
            0 <= k < c.spec_message_size() as int ==> encode_block_spec(c, xor_seq_block(a, b))[k]
                == xor_block(encode_block_spec(c, a)[k], encode_block_spec(c, b)[k]),
{
    let n = c.spec_code_size();
    lemma_acc_prefix_block_linear(c, a, b, n as int);
    let aa = accumulate_block_spec(c, a);
    let ab = accumulate_block_spec(c, b);
    lemma_acc_prefix_block_len(c, a, n as int);
    lemma_acc_prefix_block_len(c, b, n as int);
    assert forall|k: int|
        0 <= k < c.spec_message_size() as int implies encode_block_spec(c, xor_seq_block(a, b))[k]
        == xor_block(encode_block_spec(c, a)[k], encode_block_spec(c, b)[k]) by {
        lemma_row_sum_block_linear(
            aa,
            ab,
            c.exp_seed(),
            n,
            c.spec_expander_weight(),
            k as u64,
            c.spec_expander_weight() as int,
        );
    }
}

proof fn lemma_xor128_self(x: u128)
    by (bit_vector)
    ensures
        (x ^ x) == 0,
{
}

/// Zero is a fixed point of the transform: an all-zero buffer encodes to
/// all-zero outputs on every defined position, as linearity demands.
pub proof fn lemma_encode_block_zero(c: ExConvCode, s: Seq<Block>)
    requires
        c.wf(),
        s.len() == c.spec_code_size(),
        forall|i: int| 0 <= i < s.len() ==> s[i] == zero_block(),
    ensures
        forall|k: int|
            0 <= k < c.spec_message_size() as int ==> encode_block_spec(c, s)[k] == zero_block(),
{
    lemma_encode_block_linear(c, s, s);
    assert(xor_seq_block(s, s) =~= s) by {
        assert forall|i: int| 0 <= i < s.len() implies xor_seq_block(s, s)[i] == s[i] by {
            lemma_xor128_self(s[i].data);
        }
    }
    assert forall|k: int|
        0 <= k < c.spec_message_size() as int implies encode_block_spec(c, s)[k]
        == zero_block() by {
        lemma_xor128_self(encode_block_spec(c, s)[k].data);
    }
}

/// Determinism of the transform: two encoders built from the same four
/// parameters encode every block buffer identically.
pub proof fn lemma_encode_block_deterministic(c1: ExConvCode, c2: ExConvCode, s: Seq<Block>)
    requires
        c1.wf(),
        c2.wf(),
        c1.spec_message_size() == c2.spec_message_size(),
        c1.spec_code_size() == c2.spec_code_size(),
        c1.spec_expander_weight() == c2.spec_expander_weight(),
        c1.spec_accumulator_weight() == c2.spec_accumulator_weight(),
    ensures
        encode_block_spec(c1, s) == encode_block_spec(c2, s),
{
    crate::code::lemma_same_parameters_same_encoder(c1, c2);
}

impl ExConvCode {
    /// Dual-encodes a buffer of blocks in place: the accumulator pass followed
    /// by the expander pass. On success the first `message_size` elements hold
    /// the encoding of the input buffer and the length is unchanged; a buffer
    /// whose length is not `code_size` is rejected untouched.
    pub fn dual_encode_block(&self, e: &mut [Block]) -> (r: Result<(), CodeError>)
        requires
            self.wf(),
        ensures
            match r {
                Ok(()) => {
                    &&& old(e)@.len() == self.spec_code_size()
                    &&& final(e)@.len() == old(e)@.len()
                    &&& forall|k: int|
                        0 <= k < self.spec_message_size() as int ==> final(e)@[k]
                            == encode_block_spec(*self, old(e)@)[k]
                },
                Err(err) => {
                    &&& err == CodeError::LengthMismatch
                    &&& old(e)@.len() != self.spec_code_size()
                    &&& final(e)@ == old(e)@
                },
            },
    {
        if e.len() as u64 != self.code_size() {
            return Err(CodeError::LengthMismatch);
        }
        accumulate_blocks(self, e);
        proof {
            lemma_acc_prefix_block_len(*self, old(e)@, self.spec_code_size() as int);
        }
        expand_blocks(self, e);
        proof {
            assert forall|k: int| 0 <= k < self.spec_message_size() as int implies e@[k]
                == encode_block_spec(*self, old(e)@)[k] by {
                assert(encode_block_spec(*self, old(e)@)[k] == expand_out_block(
                    *self,
                    accumulate_block_spec(*self, old(e)@),
                    k as u64,
                ));
            }
        }
        Ok(())
    }
}

} // verus!
