//! Little-endian integer decoding.
use vstd::prelude::*;

verus! {

/// Unsigned value of `b` read as a little-endian integer.
pub open spec fn le_value(b: Seq<u8>) -> nat
    decreases b.len(),
{
    if b.len() == 0 {
        0
    } else {
        b[0] as nat + 256 * le_value(b.drop_first())
    }
}

/// `256` to the power `k`.
pub open spec fn pow256(k: nat) -> nat
    decreases k,
{
    if k == 0 {
        1
    } else {
        256 * pow256((k - 1) as nat)
    }
}

/// Signed value of a four-byte little-endian two's complement integer.
pub open spec fn le_i32(b: Seq<u8>) -> int {
    if le_value(b) >= 0x8000_0000 {
        le_value(b) - 0x1_0000_0000
    } else {
        le_value(b) as int
    }
}

pub proof fn lemma_le_value_bound(b: Seq<u8>)
    ensures
        le_value(b) < pow256(b.len()),
    decreases b.len(),
{
    if b.len() > 0 {
        lemma_le_value_bound(b.drop_first());
    }
}

/// Decodes the bytes `b[start..start + n]` as an unsigned little-endian integer.
pub fn decode_le(b: &[u8], start: usize, n: usize) -> (r: u64)
    requires
        n <= 8,
        start + n <= b@.len(),
    ensures
        r as nat == le_value(b@.subrange(start as int, start + n)),
{
    let len = b.len();
    let mut acc: u64 = 0;
    let mut k: usize = n;
    while k > 0
        invariant
            k <= n <= 8,
            start + n <= b@.len(),
            len == b@.len(),
            acc as nat == le_value(b@.subrange(start + k, start + n)),
            (acc as nat) < pow256((n - k) as nat),
        decreases k,
    {
        k = k - 1;
        let ghost s = b@.subrange(start + k, start + n);
        assert(s.drop_first() =~= b@.subrange(start + k + 1, start + n));
        assert(pow256((n - k) as nat) == 256 * pow256((n - k - 1) as nat));
        assert(pow256((n - k) as nat) <= pow256(8)) by {
            lemma_pow256_mono((n - k) as nat, 8);
        }
        assert(pow256(8) == 0x1_0000_0000_0000_0000) by {
            reveal_with_fuel(pow256, 9);
        }
        acc = b[start + k] as u64 + 256 * acc;
    }
    assert(b@.subrange(start as int, start + n) =~= b@.subrange(start + k, start + n));
    acc
}

pub proof fn lemma_pow256_mono(a: nat, b: nat)
    requires
        a <= b,
    ensures
        pow256(a) <= pow256(b),
    decreases b,
{
    if a < b {
        lemma_pow256_mono(a, (b - 1) as nat);
    }
}

} // verus!
