//! Proof-of-work solutions and what the pool learns from one: whether it is
//! valid for a challenge, and its difficulty.
use vstd::prelude::*;
use crate::bytes::{le_value, u64_from_le};

verus! {

/// A client's proposed solution: a 16-byte equihash digest and the 8-byte
/// nonce that produced it.
#[derive(Clone, Copy, Debug)]
pub struct Solution {
    pub digest: [u8; 16],
    pub nonce: [u8; 8],
}

impl Solution {
    /// The solution made of `digest` and `nonce`.
    pub fn new(digest: [u8; 16], nonce: [u8; 8]) -> (r: Self)
        ensures
            r.digest@ == digest@,
            r.nonce@ == nonce@,
    {
        Solution { digest, nonce }
    }

    /// The nonce read as a little-endian integer.
    pub open spec fn nonce_spec(&self) -> nat {
        le_value(self.nonce@)
    }

    /// The nonce read as a little-endian integer.
    pub fn nonce_value(&self) -> (r: u64)
        ensures
            r == self.nonce_spec(),
    {
        u64_from_le(&self.nonce)
    }
}

/// Whether `digest` is a valid equihash construction for `challenge` and `nonce`.
pub uninterp spec fn pow_valid(challenge: Seq<u8>, digest: Seq<u8>, nonce: Seq<u8>) -> bool;

/// The 32-byte keccak hash of a (sorted) digest and its nonce.
pub uninterp spec fn pow_hash(digest: Seq<u8>, nonce: Seq<u8>) -> Seq<u8>;

/// Number of leading zero bits in one byte.
pub open spec fn byte_leading_zeros(b: u8) -> nat {
    if b >= 128 {
        0
    } else if b >= 64 {
        1
    } else if b >= 32 {
        2
    } else if b >= 16 {
        3
    } else if b >= 8 {
        4
    } else if b >= 4 {
        5
    } else if b >= 2 {
        6
    } else if b >= 1 {
        7
    } else {
        8
    }
}

/// Number of leading zero bits of a byte string, first byte first.
pub open spec fn leading_zero_bits(h: Seq<u8>) -> nat
    decreases h.len(),
{
    if h.len() == 0 {
        0
    } else if h[0] == 0 {
        8 + leading_zero_bits(h.drop_first())
    } else {
        byte_leading_zeros(h[0])
    }
}

/// The difficulty of a solution: the leading zero bits of its hash.
pub open spec fn difficulty_of(s: Solution) -> nat {
    leading_zero_bits(pow_hash(s.digest@, s.nonce@))
}

/// Relies on drillx_2::Solution::is_valid: the equihash check of the digest
/// against the seed made of challenge and nonce, which depends on those
/// bytes alone.
#[verifier::external_body]
fn check_equihash(challenge: &[u8; 32], solution: &Solution) -> (r: bool)
    ensures
        r == pow_valid(challenge@, solution.digest@, solution.nonce@),
{
    drillx_2::Solution::new(solution.digest, solution.nonce).is_valid(challenge)
}

/// Relies on drillx_2::Solution::to_hash: the keccak hash of the sorted
/// digest followed by the nonce, which depends on those bytes alone.
#[verifier::external_body]
fn solution_hash(solution: &Solution) -> (r: [u8; 32])
    ensures
        r@ == pow_hash(solution.digest@, solution.nonce@),
{
    drillx_2::Solution::new(solution.digest, solution.nonce).to_hash().h
}

/// Number of leading zero bits in the byte `b`.
fn byte_zeros(b: u8) -> (r: u32)
    ensures
        r == byte_leading_zeros(b),
{
    if b >= 128 {
        0
    } else if b >= 64 {
        1
    } else if b >= 32 {
        2
    } else if b >= 16 {
        3
    } else if b >= 8 {
        4
    } else if b >= 4 {
        5
    } else if b >= 2 {
        6
    } else if b >= 1 {
        7
    } else {
        8
    }
}

/// The difficulty of a 32-byte hash: its leading zero bits, scanning bytes
/// from the first (as `drillx_2::difficulty` counts them).
pub fn hash_difficulty(hash: &[u8; 32]) -> (r: u32)
    ensures
        r == leading_zero_bits(hash@),
{
    let mut i: usize = 0;
    proof {
        assert(hash@.subrange(0, 32) =~= hash@);
    }
    while i < 32 && hash[i] == 0
        invariant
            i <= 32,
            hash@.len() == 32,
            leading_zero_bits(hash@) == 8 * i + leading_zero_bits(hash@.subrange(i as int, 32)),
        decreases 32 - i,
    {
        proof {
            let t = hash@.subrange(i as int, 32);
            assert(t.drop_first() =~= hash@.subrange(i + 1, 32));
        }
        i = i + 1;
    }
    if i == 32 {
        proof {
            assert(hash@.subrange(32, 32).len() == 0);
        }
        256
    } else {
        proof {
            assert(hash@.subrange(i as int, 32)[0] == hash@[i as int]);
        }
        8 * (i as u32) + byte_zeros(hash[i])
    }
}

/// Whether `solution` is valid for `challenge`.
pub fn is_valid_for(solution: &Solution, challenge: &[u8; 32]) -> (r: bool)
    ensures
        r == pow_valid(challenge@, solution.digest@, solution.nonce@),
{
    check_equihash(challenge, solution)
}

/// The difficulty of `solution`.
pub fn solution_difficulty(solution: &Solution) -> (r: u32)
    ensures
        r == difficulty_of(*solution),
{
    let h = solution_hash(solution);
    hash_difficulty(&h)
}

} // verus!
