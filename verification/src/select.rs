//! Deterministic pseudorandom position selection shared by both code stages.
//!
//! Every position that either stage reads is produced by [`sel_pos`]: row `k`
//! of a selection over `[0, n)` with weight `w` picks one pseudorandom element
//! out of each of `w` near-equal contiguous chunks of `[0, n)`, so the `w`
//! positions of a row are strictly increasing and therefore distinct. The
//! pseudorandomness is a counter-mode expansion of a 64-bit seed through a
//! multiply-xorshift mixer, so the whole graph is a pure function of the seed.

use vstd::prelude::*;

verus! {

/// A 64-bit multiply-xorshift mixer (a bijective finalizer in the splitmix
/// family), used in counter mode to expand a seed into per-row randomness.
/// Opaque: no proof in this crate depends on the mixed bits themselves, only
/// on the mixer being a fixed deterministic function.
#[verifier::opaque]
pub open spec fn mix64(z: u64) -> u64 {
    let a = (z ^ (z >> 30u64)).wrapping_mul(0xBF58_476D_1CE4_E5B9u64);
    let b = (a ^ (a >> 27u64)).wrapping_mul(0x94D0_49BB_1331_11EBu64);
    b ^ (b >> 31u64)
}

/// Executable form of [`mix64`].
pub fn mix64_exec(z: u64) -> (r: u64)
    ensures
        r == mix64(z),
{
    proof {
        reveal(mix64);
    }
    let a: u64 = (z ^ (z >> 30u64)).wrapping_mul(0xBF58_476D_1CE4_E5B9u64);
    let b: u64 = (a ^ (a >> 27u64)).wrapping_mul(0x94D0_49BB_1331_11EBu64);
    b ^ (b >> 31u64)
}

/// The stream value for counters `a`, `b` under `seed`.
pub open spec fn prf(seed: u64, a: u64, b: u64) -> u64 {
    mix64(mix64(mix64(seed) ^ a) ^ b)
}

/// Executable form of [`prf`].
pub fn prf_exec(seed: u64, a: u64, b: u64) -> (r: u64)
    ensures
        r == prf(seed, a, b),
{
    mix64_exec(mix64_exec(mix64_exec(seed) ^ a) ^ b)
}

/// The lower boundary of chunk `t` when `[0, n)` is cut into `w` chunks.
pub open spec fn chunk_lo(n: u64, w: u64, t: int) -> int
    recommends
        0 < w,
{
    t * (n as int) / (w as int)
}

/// Position `t` of selection row `k` over `[0, n)` with weight `w`: a
/// pseudorandom element of chunk `t`.
pub open spec fn sel_pos(sd: u64, n: u64, w: u64, k: u64, t: u64) -> int
    recommends
        0 < w <= n,
        t < w,
{
    let lo = chunk_lo(n, w, t as int);
    let hi = chunk_lo(n, w, t as int + 1);
    lo + (prf(sd, k, t) as int) % (hi - lo)
}

/// Consecutive chunk boundaries are strictly increasing (every chunk is
/// nonempty), start at or after zero, and never pass `n`.
pub proof fn lemma_chunk_bounds(n: u64, w: u64, t: int)
    requires
        0 < w <= n,
        0 <= t < w,
    ensures
        0 <= chunk_lo(n, w, t),
        chunk_lo(n, w, t) < chunk_lo(n, w, t + 1),
        chunk_lo(n, w, t + 1) <= n,
{
    let ni = n as int;
    let wi = w as int;
    let a = t * ni;
    vstd::arithmetic::mul::lemma_mul_nonnegative(t, ni);
    vstd::arithmetic::div_mod::lemma_div_pos_is_pos(a, wi);
    assert((t + 1) * ni == t * ni + ni) by (nonlinear_arith);
    // chunk t + 1 stays within n: (t + 1) * n <= w * n, and (w * n) / w == n.
    vstd::arithmetic::mul::lemma_mul_inequality(t + 1, wi, ni);
    vstd::arithmetic::div_mod::lemma_div_is_ordered(a + ni, wi * ni, wi);
    vstd::arithmetic::div_mod::lemma_div_multiples_vanish(ni, wi);
    // the chunk is nonempty: a + n >= w * (a / w + 1) because a % w >= 0 and n >= w.
    let q = a / wi;
    vstd::arithmetic::div_mod::lemma_fundamental_div_mod(a, wi);
    vstd::arithmetic::div_mod::lemma_mod_bound(a, wi);
    vstd::arithmetic::div_mod::lemma_div_multiples_vanish(q + 1, wi);
    assert(wi * (q + 1) == wi * q + wi) by (nonlinear_arith);
    vstd::arithmetic::div_mod::lemma_div_is_ordered(wi * (q + 1), a + ni, wi);
}

/// A selected position lies inside its chunk.
pub proof fn lemma_sel_pos_in_chunk(sd: u64, n: u64, w: u64, k: u64, t: u64)
    requires
        0 < w <= n,
        t < w,
    ensures
        chunk_lo(n, w, t as int) <= sel_pos(sd, n, w, k, t) < chunk_lo(n, w, t as int + 1),
{
    lemma_chunk_bounds(n, w, t as int);
    let span = chunk_lo(n, w, t as int + 1) - chunk_lo(n, w, t as int);
    vstd::arithmetic::div_mod::lemma_mod_bound(prf(sd, k, t) as int, span);
}

/// Every selected position lies in `[0, n)`.
pub proof fn lemma_sel_pos_bounds(sd: u64, n: u64, w: u64, k: u64, t: u64)
    requires
        0 < w <= n,
        t < w,
    ensures
        0 <= sel_pos(sd, n, w, k, t) < n,
{
    lemma_chunk_bounds(n, w, t as int);
    lemma_sel_pos_in_chunk(sd, n, w, k, t);
    if t as int + 1 < w {
        lemma_chunk_monotone(n, w, t as int + 1, w as int);
    }
}

/// Chunk boundaries are monotone: `t1 <= t2` gives `chunk_lo(t1) <= chunk_lo(t2)`.
pub proof fn lemma_chunk_monotone(n: u64, w: u64, t1: int, t2: int)
    requires
        0 < w,
        t1 <= t2,
    ensures
        chunk_lo(n, w, t1) <= chunk_lo(n, w, t2),
{
    vstd::arithmetic::mul::lemma_mul_inequality(t1, t2, n as int);
    vstd::arithmetic::div_mod::lemma_div_is_ordered(t1 * (n as int), t2 * (n as int), w as int);
}

/// The positions of one row are strictly increasing in `t`, hence distinct.
pub proof fn lemma_sel_pos_increasing(sd: u64, n: u64, w: u64, k: u64, t1: u64, t2: u64)
    requires
        0 < w <= n,
        t1 < t2 < w,
    ensures
        sel_pos(sd, n, w, k, t1) < sel_pos(sd, n, w, k, t2),
{
    lemma_sel_pos_in_chunk(sd, n, w, k, t1);
    lemma_sel_pos_in_chunk(sd, n, w, k, t2);
    lemma_chunk_monotone(n, w, t1 as int + 1, t2 as int);
}

/// Executable form of [`sel_pos`]. The chunk arithmetic runs in 128 bits so
/// that `t * n` cannot overflow.
pub fn sel_pos_exec(sd: u64, n: u64, w: u64, k: u64, t: u64) -> (r: u64)
    requires
        0 < w <= n,
        t < w,
    ensures
        r as int == sel_pos(sd, n, w, k, t),
{
    proof {
        lemma_chunk_bounds(n, w, t as int);
        lemma_sel_pos_bounds(sd, n, w, k, t);
        vstd::arithmetic::mul::lemma_mul_upper_bound(
            t as int + 1,
            u64::MAX as int,
            n as int,
            u64::MAX as int,
        );
        vstd::arithmetic::mul::lemma_mul_inequality(t as int, t as int + 1, n as int);
    }
    let lo: u64 = (((t as u128) * (n as u128)) / (w as u128)) as u64;
    let hi: u64 = (((t as u128 + 1) * (n as u128)) / (w as u128)) as u64;
    let x: u64 = prf_exec(sd, k, t);
    lo + x % (hi - lo)
}

} // verus!
