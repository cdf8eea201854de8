//! Little-endian integers over byte sequences.
use vstd::prelude::*;

verus! {

/// `256^n`.
pub open spec fn pow256(n: nat) -> nat
    decreases n,
{
    if n == 0 {
        1
    } else {
        256 * pow256((n - 1) as nat)
    }
}

/// The unsigned integer whose little-endian encoding is `s`.
pub open spec fn le_value(s: Seq<u8>) -> nat
    decreases s.len(),
{
    if s.len() == 0 {
        0
    } else {
        (s[0] + 256 * le_value(s.drop_first())) as nat
    }
}

/// The `n`-byte little-endian encoding of `v` (taken modulo `256^n`).
pub open spec fn le_bytes(v: nat, n: nat) -> Seq<u8>
    decreases n,
{
    if n == 0 {
        Seq::empty()
    } else {
        seq![(v % 256) as u8].add(le_bytes(v / 256, (n - 1) as nat))
    }
}

/// Eight bytes span exactly the range of `u64`.
pub proof fn lemma_pow256_eight()
    ensures
        pow256(8) == 0x1_0000_0000_0000_0000,
{
    reveal_with_fuel(pow256, 9);
}

/// Reading back an encoding gives the value, for values that fit.
pub proof fn lemma_le_round_trip(v: nat, n: nat)
    requires
        v < pow256(n),
    ensures
        le_bytes(v, n).len() == n,
        le_value(le_bytes(v, n)) == v,
    decreases n,
{
    if n > 0 {
        let m = (n - 1) as nat;
        assert(v / 256 < pow256(m));
        lemma_le_round_trip(v / 256, m);
        let s = le_bytes(v, n);
        assert(s.drop_first() =~= le_bytes(v / 256, m));
    }
}

/// The value of a byte string read from its far end, one byte at a time.
proof fn lemma_le_value_step(s: Seq<u8>, i: int)
    requires
        0 < i <= s.len(),
    ensures
        le_value(s.subrange(i - 1, s.len() as int)) == s[i - 1] + 256 * le_value(
            s.subrange(i, s.len() as int),
        ),
{
    let t = s.subrange(i - 1, s.len() as int);
    assert(t.drop_first() =~= s.subrange(i, s.len() as int));
}

/// The `u64` held little-endian in `b`.
pub fn u64_from_le(b: &[u8; 8]) -> (r: u64)
    ensures
        r == le_value(b@),
{
    let mut v: u64 = 0;
    let mut i: usize = 8;
    proof {
        lemma_pow256_eight();
    }
    while i > 0
        invariant
            i <= 8,
            b@.len() == 8,
            v == le_value(b@.subrange(i as int, 8)),
            v < pow256((8 - i) as nat),
            pow256(8) == 0x1_0000_0000_0000_0000,
        decreases i,
    {
        proof {
            lemma_le_value_step(b@, i as int);
            assert(pow256((8 - i + 1) as nat) == 256 * pow256((8 - i) as nat));
            assert(pow256((8 - i + 1) as nat) <= pow256(8)) by {
                lemma_pow256_monotone((8 - i + 1) as nat, 8);
            }
        }
        let byte = b[i - 1];
        v = (byte as u64) + 256 * v;
        i = i - 1;
    }
    assert(b@.subrange(0, 8) =~= b@);
    v
}

/// `pow256` grows with its exponent.
pub proof fn lemma_pow256_monotone(a: nat, b: nat)
    requires
        a <= b,
    ensures
        1 <= pow256(a) <= pow256(b),
    decreases b,
{
    if a < b {
        lemma_pow256_monotone(a, (b - 1) as nat);
    } else if a > 0 {
        lemma_pow256_monotone((a - 1) as nat, (a - 1) as nat);
    }
}

/// An encoding has as many bytes as asked for.
pub proof fn lemma_le_bytes_len(v: nat, n: nat)
    ensures
        le_bytes(v, n).len() == n,
    decreases n,
{
    if n > 0 {
        lemma_le_bytes_len(v / 256, (n - 1) as nat);
    }
}

/// Appends the eight-byte little-endian encoding of `v` to `out`.
pub fn push_u64_le(out: &mut Vec<u8>, v: u64)
    ensures
        final(out)@ == old(out)@ + le_bytes(v as nat, 8),
{
    let ghost start = out@;
    let ghost full = le_bytes(v as nat, 8);
    proof {
        lemma_le_bytes_len(v as nat, 8);
        assert(full.subrange(0, 8) =~= full);
    }
    let mut x: u64 = v;
    let mut i: usize = 0;
    while i < 8
        invariant
            i <= 8,
            full == le_bytes(v as nat, 8),
            full.len() == 8,
            out@ == start + full.take(i as int),
            full.subrange(i as int, 8) == le_bytes(x as nat, (8 - i) as nat),
        decreases 8 - i,
    {
        let ghost rest = full.subrange(i as int, 8);
        proof {
            assert(rest[0] == (x % 256) as u8);
            assert(full.subrange(i + 1, 8) =~= rest.drop_first());
            assert(rest.drop_first() =~= le_bytes((x / 256) as nat, (8 - i - 1) as nat));
            assert(full.take(i + 1) =~= full.take(i as int).push(rest[0]));
        }
        out.push((x % 256) as u8);
        x = x / 256;
        i = i + 1;
    }
    assert(full.take(8) =~= full);
}

/// Whether two 32-byte strings are equal.
pub fn bytes32_eq(a: &[u8; 32], b: &[u8; 32]) -> (r: bool)
    ensures
        r == (a@ == b@),
{
    let mut i: usize = 0;
    while i < 32
        invariant
            i <= 32,
            a@.len() == 32,
            b@.len() == 32,
            forall|j: int| 0 <= j < i ==> a@[j] == b@[j],
        decreases 32 - i,
    {
        if a[i] != b[i] {
            return false;
        }
        i = i + 1;
    }
    assert(a@ =~= b@);
    true
}

} // verus!
