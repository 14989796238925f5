//! Arithmetic hashing over a Mersenne prime field.
//!
//! Every hash the library produces (account leaves, tree nodes, signature
//! message digests, the public-data commitment) is built from one mixing
//! primitive, `combine`, working modulo `2^61 - 1`. The result is a total,
//! deterministic function of its inputs, which is what the replay engine's
//! determinism rests on.

use vstd::prelude::*;

verus! {

/// The prime modulus `2^61 - 1`; every hash value is below it.
pub const MODULUS: u64 = 0x1fff_ffff_ffff_ffff;

/// Multiplier for the left operand of `combine`.
pub const MULT_LEFT: u64 = 1_000_003;

/// Multiplier for the right operand of `combine`.
pub const MULT_RIGHT: u64 = 998_244_353;

/// Additive offset mixed into every `combine`.
pub const OFFSET: u64 = 0x5851_f42d;

/// What `combine` returns: a linear mix of the operands reduced mod `MODULUS`.
pub open spec fn spec_combine(a: u64, b: u64) -> u64 {
    (((a * MULT_LEFT + b * MULT_RIGHT + OFFSET) as int) % (MODULUS as int)) as u64
}

/// Mixes two hash values into one, below `MODULUS`.
pub fn combine(a: u64, b: u64) -> (r: u64)
    ensures
        r == spec_combine(a, b),
        r < MODULUS,
{
    proof {
        assert((a as int) * (MULT_LEFT as int) <= 0xffff_ffff_ffff_ffff * 1_000_003int)
            by (nonlinear_arith)
            requires a <= 0xffff_ffff_ffff_ffff;
        assert((b as int) * (MULT_RIGHT as int) <= 0xffff_ffff_ffff_ffff * 998_244_353int)
            by (nonlinear_arith)
            requires b <= 0xffff_ffff_ffff_ffff;
    }
    let x: u128 = (a as u128) * (MULT_LEFT as u128) + (b as u128) * (MULT_RIGHT as u128)
        + (OFFSET as u128);
    (x % (MODULUS as u128)) as u64
}

/// What `combine_wide` returns: the 128-bit value folded in as two 64-bit halves.
pub open spec fn spec_combine_wide(h: u64, v: u128) -> u64 {
    spec_combine(
        spec_combine(h, (v % 0x1_0000_0000_0000_0000) as u64),
        (v / 0x1_0000_0000_0000_0000) as u64,
    )
}

/// Folds a 128-bit value into a running hash.
pub fn combine_wide(h: u64, v: u128) -> (r: u64)
    ensures
        r == spec_combine_wide(h, v),
        r < MODULUS,
{
    let lo: u64 = (v % 0x1_0000_0000_0000_0000u128) as u64;
    let hi: u64 = (v / 0x1_0000_0000_0000_0000u128) as u64;
    combine(combine(h, lo), hi)
}

/// What `fold_bytes` returns: the bytes folded left to right onto the seed.
pub open spec fn spec_fold_bytes(seed: u64, s: Seq<u8>) -> u64
    decreases s.len(),
{
    if s.len() == 0 {
        seed
    } else {
        spec_combine(spec_fold_bytes(seed, s.drop_last()), s.last() as u64)
    }
}

/// Hashes a byte sequence, starting from a caller-chosen seed.
pub fn fold_bytes(seed: u64, s: &Vec<u8>) -> (r: u64)
    ensures
        r == spec_fold_bytes(seed, s@),
{
    let mut h: u64 = seed;
    let mut i: usize = 0;
    while i < s.len()
        invariant
            0 <= i <= s@.len(),
            h == spec_fold_bytes(seed, s@.take(i as int)),
        decreases s@.len() - i,
    {
        proof {
            assert(s@.take(i + 1).drop_last() =~= s@.take(i as int));
            assert(s@.take(i + 1).last() == s@[i as int]);
        }
        h = combine(h, s[i] as u64);
        i = i + 1;
    }
    proof {
        assert(s@.take(s@.len() as int) =~= s@);
    }
    h
}

} // verus!
