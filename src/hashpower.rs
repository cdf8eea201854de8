//! Reward weight of a submission, derived from its difficulty.
use vstd::prelude::*;

verus! {

/// Lowest difficulty that is recorded or rewarded.
pub const MIN_DIFF: u32 = 8;

/// Hashpower credited for a submission of exactly `MIN_DIFF`.
pub const MIN_HASHPOWER: u64 = 5;

/// Largest hashpower any single submission can carry.
pub const MAX_HASHPOWER: u64 = 81_920;

/// Two to the power `n`.
pub open spec fn pow2(n: nat) -> nat
    decreases n,
{
    if n == 0 {
        1
    } else {
        2 * pow2((n - 1) as nat)
    }
}

/// `min(MIN_HASHPOWER * 2^(d - MIN_DIFF), MAX_HASHPOWER)`, for `d >= MIN_DIFF`.
pub open spec fn hashpower_of(d: u32) -> nat
    recommends
        d >= MIN_DIFF,
{
    let raw = MIN_HASHPOWER * pow2((d - MIN_DIFF) as nat);
    if raw <= MAX_HASHPOWER {
        raw as nat
    } else {
        MAX_HASHPOWER as nat
    }
}

/// `pow2` grows with its exponent.
pub proof fn lemma_pow2_monotone(a: nat, b: nat)
    requires
        a <= b,
    ensures
        pow2(a) <= pow2(b),
    decreases b,
{
    if a < b {
        lemma_pow2_monotone(a, (b - 1) as nat);
    }
}

/// The powers of two that bound the uncapped weights.
pub proof fn lemma_pow2_small()
    ensures
        pow2(0) == 1,
        pow2(13) == 8192,
        pow2(14) == 16384,
{
    reveal_with_fuel(pow2, 15);
}

/// The weight of a submission of difficulty `difficulty`: five for the
/// minimum difficulty, doubling with each further bit, capped at 81 920.
pub fn hashpower(difficulty: u32) -> (r: u64)
    requires
        difficulty >= MIN_DIFF,
    ensures
        r == hashpower_of(difficulty),
        MIN_HASHPOWER <= r <= MAX_HASHPOWER,
{
    let k: u32 = difficulty - MIN_DIFF;
    if k >= 14 {
        proof {
            lemma_pow2_monotone(14, k as nat);
            lemma_pow2_small();
        }
        return MAX_HASHPOWER;
    }
    let mut hp: u64 = MIN_HASHPOWER;
    let mut i: u32 = 0;
    while i < k
        invariant
            i <= k < 14,
            hp == MIN_HASHPOWER * pow2(i as nat),
        decreases k - i,
    {
        proof {
            lemma_pow2_monotone(i as nat, 13);
            lemma_pow2_small();
        }
        hp = hp * 2;
        i = i + 1;
    }
    proof {
        lemma_pow2_monotone(k as nat, 13);
        lemma_pow2_monotone(0, k as nat);
        lemma_pow2_small();
    }
    hp
}

} // verus!
