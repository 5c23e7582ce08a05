//! Little-endian numbers.

use vstd::prelude::*;

verus! {

/// The number that `bytes` hold in little-endian order: the first byte
/// counts least.
pub open spec fn le_value(bytes: Seq<u8>) -> nat
    decreases bytes.len(),
{
    if bytes.len() == 0 {
        0
    } else {
        bytes[0] as nat + 256 * le_value(bytes.drop_first())
    }
}

/// The lowest `width` bytes of `n` in little-endian order.
pub open spec fn le_bytes(n: nat, width: nat) -> Seq<u8>
    decreases width,
{
    if width == 0 {
        Seq::empty()
    } else {
        seq![(n % 256) as u8] + le_bytes(n / 256, (width - 1) as nat)
    }
}

/// 256 to the power of `k`.
pub open spec fn pow256(k: nat) -> nat
    decreases k,
{
    if k == 0 {
        1
    } else {
        256 * pow256((k - 1) as nat)
    }
}

/// A little-endian number of `k` bytes lies below 256 to the `k`.
pub proof fn lemma_le_value_bound(bytes: Seq<u8>)
    ensures
        le_value(bytes) < pow256(bytes.len()),
    decreases bytes.len(),
{
    if bytes.len() > 0 {
        lemma_le_value_bound(bytes.drop_first());
    }
}

/// Writing a number in as many bytes as it was read from gives those bytes
/// back.
pub proof fn lemma_le_bytes_of_value(bytes: Seq<u8>)
    ensures
        le_bytes(le_value(bytes), bytes.len()) == bytes,
    decreases bytes.len(),
{
    if bytes.len() > 0 {
        let rest = bytes.drop_first();
        lemma_le_bytes_of_value(rest);
        let n = le_value(bytes);
        assert(n % 256 == bytes[0] as nat && n / 256 == le_value(rest)) by {
            let q = le_value(rest);
            let b = bytes[0] as nat;
            assert(n == b + 256 * q);
            assert((b + 256 * q) % 256 == b && (b + 256 * q) / 256 == q) by (nonlinear_arith)
                requires
                    b < 256,
            ;
        }
        assert(le_bytes(n, bytes.len()) =~= bytes);
    } else {
        assert(le_bytes(le_value(bytes), bytes.len()) =~= bytes);
    }
}

/// Reading back what was written gives the number, as far as it fits in the
/// bytes.
pub proof fn lemma_le_value_of_bytes(n: nat, width: nat)
    ensures
        le_bytes(n, width).len() == width,
        le_value(le_bytes(n, width)) == n % pow256(width),
    decreases width,
{
    if width > 0 {
        let rest = le_bytes(n / 256, (width - 1) as nat);
        lemma_le_value_of_bytes(n / 256, (width - 1) as nat);
        let whole = le_bytes(n, width);
        assert(whole.drop_first() =~= rest);
        let p = pow256((width - 1) as nat);
        lemma_pow256_positive((width - 1) as nat);
        assert(n % 256 + 256 * ((n / 256) % p) == n % (256 * p)) by (nonlinear_arith)
            requires
                p > 0,
        ;
    }
}

/// Every power of 256 is positive.
pub proof fn lemma_pow256_positive(k: nat)
    ensures
        pow256(k) > 0,
    decreases k,
{
    if k > 0 {
        lemma_pow256_positive((k - 1) as nat);
    }
}

/// Reads up to eight bytes as a little-endian number.
pub fn le_decode(bytes: &[u8]) -> (value: u64)
    requires
        bytes@.len() <= 8,
    ensures
        value == le_value(bytes@),
{
    let n: usize = bytes.len();
    let mut value: u64 = 0;
    let mut i: usize = n;
    proof {
        assert(bytes@.skip(n as int) =~= Seq::<u8>::empty());
        reveal_with_fuel(pow256, 9);
    }
    while i > 0
        invariant
            n == bytes@.len(),
            n <= 8,
            i <= n,
            value == le_value(bytes@.skip(i as int)),
        decreases i,
    {
        proof {
            lemma_le_value_bound(bytes@.skip(i as int));
            reveal_with_fuel(pow256, 9);
            assert(bytes@.skip(i as int).len() <= 7);
            assert(pow256(bytes@.skip(i as int).len()) <= pow256(7)) by {
                lemma_pow256_monotone(bytes@.skip(i as int).len(), 7);
            }
            assert(pow256(7) == 0x100_0000_0000_0000);
            assert(bytes@.skip(i - 1).drop_first() =~= bytes@.skip(i as int));
        }
        i = i - 1;
        value = value * 256 + bytes[i] as u64;
    }
    assert(bytes@.skip(0) =~= bytes@);
    value
}

/// The powers of 256 grow with the exponent.
pub proof fn lemma_pow256_monotone(j: nat, k: nat)
    requires
        j <= k,
    ensures
        pow256(j) <= pow256(k),
    decreases k,
{
    if j < k {
        lemma_pow256_monotone(j, (k - 1) as nat);
    }
}

} // verus!
