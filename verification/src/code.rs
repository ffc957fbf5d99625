//! Configuration of the expand-convolute code.

use vstd::prelude::*;
use crate::select::{
    lemma_sel_pos_bounds, lemma_sel_pos_increasing, mix64, mix64_exec, sel_pos, sel_pos_exec,
};

verus! {

/// What can go wrong while configuring or running an encoder.
#[derive(Clone, Copy, Debug, PartialEq, Eq, Structural)]
pub enum CodeError {
    /// The four shape parameters violate the configuration invariant.
    InvalidParameters,
    /// A buffer handed to an encode call is not `code_size` elements long.
    LengthMismatch,
    /// The byte buffer of a paired encode does not start at a 16-byte boundary.
    AlignmentViolation,
}

/// Domain separator mixed into the seed for the accumulator stage's stream.
pub const ACC_TAG: u64 = 0xA11C_37F0_5E0D_2B91;

/// Domain separator mixed into the seed for the expander stage's stream.
pub const EXP_TAG: u64 = 0x5C1E_9D04_7B36_FA2D;

/// An expand-convolute encoder: the four immutable shape parameters plus the
/// pseudorandom seed they determine. Both pseudorandom stages derive their
/// position graphs from `seed` alone, so two encoders built from the same
/// parameters evaluate the same linear map.
#[derive(Debug)]
pub struct ExConvCode {
    message_size: u64,
    code_size: u64,
    expander_weight: u64,
    accumulator_weight: u64,
    seed: u64,
}

/// The configuration invariant: the code is a strict compression and both
/// stage weights are nonzero and below the code length.
pub open spec fn params_valid(
    message_size: u64,
    code_size: u64,
    expander_weight: u64,
    accumulator_weight: u64,
) -> bool {
    &&& 0 < message_size < code_size
    &&& 0 < expander_weight < code_size
    &&& 0 < accumulator_weight < code_size
}

/// The seed an encoder derives from its four parameters.
pub open spec fn seed_of(
    message_size: u64,
    code_size: u64,
    expander_weight: u64,
    accumulator_weight: u64,
) -> u64 {
    mix64(mix64(mix64(mix64(message_size) ^ code_size) ^ expander_weight) ^ accumulator_weight)
}

impl ExConvCode {
    /// The message (output) length, in elements.
    pub closed spec fn spec_message_size(&self) -> u64 {
        self.message_size
    }

    /// The code (input buffer) length, in elements.
    pub closed spec fn spec_code_size(&self) -> u64 {
        self.code_size
    }

    /// How many accumulated positions each output sums.
    pub closed spec fn spec_expander_weight(&self) -> u64 {
        self.expander_weight
    }

    /// How many prior positions each accumulator step sums.
    pub closed spec fn spec_accumulator_weight(&self) -> u64 {
        self.accumulator_weight
    }

    /// The derived pseudorandom seed.
    pub closed spec fn spec_seed(&self) -> u64 {
        self.seed
    }

    /// A well-formed encoder: valid parameters and the seed they determine.
    pub open spec fn wf(&self) -> bool {
        &&& params_valid(
            self.spec_message_size(),
            self.spec_code_size(),
            self.spec_expander_weight(),
            self.spec_accumulator_weight(),
        )
        &&& self.spec_seed() == seed_of(
            self.spec_message_size(),
            self.spec_code_size(),
            self.spec_expander_weight(),
            self.spec_accumulator_weight(),
        )
    }

    /// The seed of the accumulator stage's pseudorandom stream.
    pub open spec fn acc_seed(&self) -> u64 {
        self.spec_seed() ^ ACC_TAG
    }

    /// The seed of the expander stage's pseudorandom stream.
    pub open spec fn exp_seed(&self) -> u64 {
        self.spec_seed() ^ EXP_TAG
    }

    /// Builds an encoder, rejecting exactly the parameter sets that violate
    /// the configuration invariant.
    pub fn new(
        message_size: u64,
        code_size: u64,
        expander_weight: u64,
        accumulator_weight: u64,
    ) -> (r: Result<ExConvCode, CodeError>)
        ensures
            match r {
                Ok(c) => {
                    &&& params_valid(message_size, code_size, expander_weight, accumulator_weight)
                    &&& c.wf()
                    &&& c.spec_message_size() == message_size
                    &&& c.spec_code_size() == code_size
                    &&& c.spec_expander_weight() == expander_weight
                    &&& c.spec_accumulator_weight() == accumulator_weight
                },
                Err(e) => {
                    &&& e == CodeError::InvalidParameters
                    &&& !params_valid(message_size, code_size, expander_weight, accumulator_weight)
                },
            },
    {
        if message_size == 0 || message_size >= code_size || expander_weight == 0
            || expander_weight >= code_size || accumulator_weight == 0
            || accumulator_weight >= code_size {
            return Err(CodeError::InvalidParameters);
        }
        let seed: u64 = mix64_exec(
            mix64_exec(mix64_exec(mix64_exec(message_size) ^ code_size) ^ expander_weight)
                ^ accumulator_weight,
        );
        Ok(ExConvCode { message_size, code_size, expander_weight, accumulator_weight, seed })
    }

    /// The message (output) length, in elements.
    pub fn message_size(&self) -> (r: u64)
        ensures
            r == self.spec_message_size(),
    {
        self.message_size
    }

    /// The code (input buffer) length, in elements.
    pub fn code_size(&self) -> (r: u64)
        ensures
            r == self.spec_code_size(),
    {
        self.code_size
    }

    /// How many accumulated positions each output sums.
    pub fn expander_weight(&self) -> (r: u64)
        ensures
            r == self.spec_expander_weight(),
    {
        self.expander_weight
    }

    /// How many prior positions each accumulator step sums.
    pub fn accumulator_weight(&self) -> (r: u64)
        ensures
            r == self.spec_accumulator_weight(),
    {
        self.accumulator_weight
    }

    /// Executable accumulator-stage seed.
    pub fn acc_seed_exec(&self) -> (r: u64)
        ensures
            r == self.acc_seed(),
    {
        self.seed ^ ACC_TAG
    }

    /// Executable expander-stage seed.
    pub fn exp_seed_exec(&self) -> (r: u64)
        ensures
            r == self.exp_seed(),
    {
        self.seed ^ EXP_TAG
    }

    /// The accumulator's weight at position `i`: the configured weight, capped
    /// by how many prior positions exist.
    pub open spec fn acc_width(&self, i: u64) -> u64 {
        if i < self.spec_accumulator_weight() {
            i
        } else {
            self.spec_accumulator_weight()
        }
    }

    /// The `t`-th prior position mixed into position `i` by the accumulator.
    pub open spec fn acc_pos(&self, i: u64, t: u64) -> int {
        sel_pos(self.acc_seed(), i, self.acc_width(i), i, t)
    }

    /// The `t`-th accumulated position summed into output `k` by the expander.
    pub open spec fn exp_pos(&self, k: u64, t: u64) -> int {
        sel_pos(self.exp_seed(), self.spec_code_size(), self.spec_expander_weight(), k, t)
    }

    /// The positions that expander output `k` sums: row `k` of the
    /// position-selection graph. The graph is a public parameter of the code
    /// (interoperating parties must derive it identically), so it is exposed
    /// for inspection.
    pub fn expander_row(&self, k: u64) -> (row: Vec<u64>)
        requires
            self.wf(),
        ensures
            row@.len() == self.spec_expander_weight(),
            forall|t: int| 0 <= t < row@.len() ==> row@[t] as int == self.exp_pos(k, t as u64),
    {
        let ew: u64 = self.expander_weight();
        let n: u64 = self.code_size();
        let sd: u64 = self.exp_seed_exec();
        let mut row: Vec<u64> = Vec::new();
        for t in 0..ew
            invariant
                self.wf(),
                ew == self.spec_expander_weight(),
                n == self.spec_code_size(),
                sd == self.exp_seed(),
                row@.len() == t as nat,
                forall|j: int| 0 <= j < t as int ==> row@[j] as int == self.exp_pos(k, j as u64),
        {
            let p: u64 = sel_pos_exec(sd, n, ew, k, t);
            row.push(p);
        }
        row
    }
}

/// Two well-formed encoders built from equal parameters are equal outright:
/// the seed is a function of the parameters, so independently configured
/// parties derive identical pseudorandom graphs without communication.
pub proof fn lemma_same_parameters_same_encoder(c1: ExConvCode, c2: ExConvCode)
    requires
        c1.wf(),
        c2.wf(),
        c1.spec_message_size() == c2.spec_message_size(),
        c1.spec_code_size() == c2.spec_code_size(),
        c1.spec_expander_weight() == c2.spec_expander_weight(),
        c1.spec_accumulator_weight() == c2.spec_accumulator_weight(),
    ensures
        c1 == c2,
{
}

/// Each expander row reads exactly `expander_weight` distinct positions, all
/// inside the accumulated buffer: positions of one row strictly increase in
/// their sub-index.
pub proof fn lemma_expander_regular(c: ExConvCode, k: u64, t1: u64, t2: u64)
    requires
        c.wf(),
        t1 < t2 < c.spec_expander_weight(),
    ensures
        0 <= c.exp_pos(k, t1) < c.exp_pos(k, t2) < c.spec_code_size(),
{
    let sd = c.exp_seed();
    let n = c.spec_code_size();
    let w = c.spec_expander_weight();
    lemma_sel_pos_bounds(sd, n, w, k, t1);
    lemma_sel_pos_bounds(sd, n, w, k, t2);
    lemma_sel_pos_increasing(sd, n, w, k, t1, t2);
}

/// The accumulator's selection is regular in the same sense: for a position
/// `i` with at least one predecessor, the row mixed into `i` consists of
/// `acc_width(i)` strictly increasing positions, all before `i`.
pub proof fn lemma_accumulator_regular(c: ExConvCode, i: u64, t1: u64, t2: u64)
    requires
        c.wf(),
        1 <= i,
        t1 < t2 < c.acc_width(i),
    ensures
        0 <= c.acc_pos(i, t1) < c.acc_pos(i, t2) < i,
{
    let sd = c.acc_seed();
    let w = c.acc_width(i);
    lemma_sel_pos_bounds(sd, i, w, i, t1);
    lemma_sel_pos_bounds(sd, i, w, i, t2);
    lemma_sel_pos_increasing(sd, i, w, i, t1, t2);
}

} // verus!
