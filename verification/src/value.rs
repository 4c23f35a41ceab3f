//! The numeric value that a little-endian byte sequence denotes.

use vstd::prelude::*;

verus! {

/// 256 raised to the power `n`: the number of distinct byte sequences of
/// length `n`, and the weight of the byte at position `n` in a little-endian
/// encoding.
pub open spec fn pow256(n: nat) -> nat
    decreases n,
{
    if n == 0 {
        1
    } else {
        256 * pow256((n - 1) as nat)
    }
}

/// The unsigned integer denoted by `b` read little-endian: the byte at
/// position `i` contributes `b[i] * 256^i`.
pub open spec fn le_value(b: Seq<u8>) -> nat
    decreases b.len(),
{
    if b.len() == 0 {
        0
    } else {
        b[0] as nat + 256 * le_value(b.subrange(1, b.len() as int))
    }
}

/// The signed integer denoted by `b` read little-endian, reinterpreting the
/// unsigned value as two's complement of width `8 * b.len()`.
pub open spec fn le_signed_value(b: Seq<u8>) -> int
    recommends
        b.len() > 0,
{
    if le_value(b) < pow256(b.len()) / 2 {
        le_value(b) as int
    } else {
        le_value(b) - pow256(b.len())
    }
}

/// Every power of 256 is at least one.
pub proof fn lemma_pow256_positive(n: nat)
    ensures
        pow256(n) >= 1,
    decreases n,
{
    if n > 0 {
        lemma_pow256_positive((n - 1) as nat);
    }
}

/// `pow256` does not decrease as the exponent grows.
pub proof fn lemma_pow256_monotone(a: nat, b: nat)
    requires
        a <= b,
    ensures
        pow256(a) <= pow256(b),
    decreases b,
{
    if a < b {
        lemma_pow256_monotone(a, (b - 1) as nat);
        lemma_pow256_positive((b - 1) as nat);
    }
}

/// The values of `pow256` at the supported integer widths.
pub proof fn lemma_pow256_widths()
    ensures
        pow256(1) == 0x100,
        pow256(2) == 0x1_0000,
        pow256(4) == 0x1_0000_0000,
        pow256(8) == 0x1_0000_0000_0000_0000,
        pow256(16) == 0x1_0000_0000_0000_0000_0000_0000_0000_0000,
{
    assert(pow256(0) == 1);
    assert(pow256(1) == 0x100);
    assert(pow256(2) == 0x1_0000);
    assert(pow256(3) == 0x100_0000);
    assert(pow256(4) == 0x1_0000_0000);
    assert(pow256(5) == 0x100_0000_0000);
    assert(pow256(6) == 0x1_0000_0000_0000);
    assert(pow256(7) == 0x100_0000_0000_0000);
    assert(pow256(8) == 0x1_0000_0000_0000_0000);
    assert(pow256(9) == 0x100_0000_0000_0000_0000);
    assert(pow256(10) == 0x1_0000_0000_0000_0000_0000);
    assert(pow256(11) == 0x100_0000_0000_0000_0000_0000);
    assert(pow256(12) == 0x1_0000_0000_0000_0000_0000_0000);
    assert(pow256(13) == 0x100_0000_0000_0000_0000_0000_0000);
    assert(pow256(14) == 0x1_0000_0000_0000_0000_0000_0000_0000);
    assert(pow256(15) == 0x100_0000_0000_0000_0000_0000_0000_0000);
    assert(pow256(16) == 0x1_0000_0000_0000_0000_0000_0000_0000_0000);
}

/// A sequence of `n` bytes denotes a value below `256^n`.
pub proof fn lemma_le_value_bound(b: Seq<u8>)
    ensures
        le_value(b) < pow256(b.len()),
    decreases b.len(),
{
    if b.len() > 0 {
        lemma_le_value_bound(b.subrange(1, b.len() as int));
    }
}

/// Splitting a byte sequence at any point splits its value: the prefix
/// contributes its own value and the suffix contributes its value shifted up
/// by `256^m`. This is why decoding a record field by field, each field from
/// its own byte range, recovers exactly the value of the whole buffer.
pub proof fn lemma_le_value_split(b: Seq<u8>, m: int)
    requires
        0 <= m <= b.len(),
    ensures
        le_value(b) == le_value(b.subrange(0, m)) + pow256(m as nat) * le_value(
            b.subrange(m, b.len() as int),
        ),
    decreases m,
{
    if m == 0 {
        assert(b.subrange(0, 0).len() == 0);
        assert(le_value(b.subrange(0, 0)) == 0);
        assert(pow256(0) == 1);
        assert(b.subrange(0, b.len() as int) =~= b);
        assert(le_value(b) == 0 + 1 * le_value(b.subrange(0, b.len() as int)));
    } else {
        let tail = b.subrange(1, b.len() as int);
        lemma_le_value_split(tail, m - 1);
        assert(tail.subrange(0, m - 1) =~= b.subrange(1, m));
        assert(tail.subrange(m - 1, tail.len() as int) =~= b.subrange(m, b.len() as int));
        let head = b.subrange(0, m);
        assert(head.subrange(1, head.len() as int) =~= b.subrange(1, m));
        let x = le_value(b.subrange(1, m));
        let y = le_value(b.subrange(m, b.len() as int));
        let p = pow256((m - 1) as nat);
        assert(le_value(tail) == x + p * y);
        assert(head[0] == b[0]);
        assert(le_value(head) == b[0] as nat + 256 * x);
        assert(le_value(b) == b[0] as nat + 256 * (x + p * y));
        assert(256 * (x + p * y) == 256 * x + 256 * (p * y)) by (nonlinear_arith);
        assert(256 * (p * y) == (256 * p) * y) by (nonlinear_arith);
        assert(pow256(m as nat) == 256 * p);
        assert(le_value(b) == le_value(head) + pow256(m as nat) * y);
    }
}

} // verus!
