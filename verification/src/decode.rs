//! The exact-width decodable capability and its primitive implementations.

use crate::error::DecodeError;
use crate::value::le_signed_value;
use crate::value::le_value;
use crate::value::lemma_le_value_bound;
use crate::value::lemma_pow256_monotone;
use crate::value::lemma_pow256_widths;
use crate::value::pow256;
use vstd::prelude::*;

verus! {

/// The capability of decoding from a fixed number of bytes: a type declares
/// its exact encoded width and a decode function over exactly that many
/// bytes, little-endian. Decoding is total over every bit pattern of the
/// declared width and pure: the result is a function of the bytes alone, and
/// the buffer is only read.
pub trait FromExactBytesLe: Sized {
    /// The exact number of bytes a value of this type decodes from. A
    /// property of the type, not of any value of it.
    spec fn spec_n_bytes() -> nat;

    /// The value that `from_bytes_le` returns on a buffer whose bytes are
    /// `b`.
    spec fn from_bytes_le_spec(b: Seq<u8>) -> Self;

    /// The declared width, as a runtime value.
    fn n_bytes() -> (n: usize)
        ensures
            n as nat == Self::spec_n_bytes(),
    ;

    /// Decodes a value from exactly `Self::n_bytes()` bytes.
    fn from_bytes_le(b: &[u8]) -> (r: Self)
        requires
            b@.len() == Self::spec_n_bytes(),
        ensures
            r == Self::from_bytes_le_spec(b@),
    ;
}

/// Accumulates up to 16 little-endian bytes into the widest supported
/// unsigned integer, most significant byte first.
fn le_bytes_to_u128(b: &[u8]) -> (r: u128)
    requires
        b@.len() <= 16,
    ensures
        r as nat == le_value(b@),
{
    let n = b.len();
    let mut r: u128 = 0;
    let mut i: usize = n;
    while i > 0
        invariant
            i <= n,
            n == b@.len(),
            n <= 16,
            r as nat == le_value(b@.subrange(i as int, n as int)),
        decreases i,
    {
        i = i - 1;
        proof {
            let rest = b@.subrange(i + 1, n as int);
            lemma_le_value_bound(rest);
            lemma_pow256_monotone(rest.len(), 15);
            lemma_pow256_widths();
            assert(pow256(16) == 256 * pow256(15));
        }
        r = r * 256 + (b[i] as u128);
        proof {
            let cur = b@.subrange(i as int, n as int);
            assert(cur[0] == b@[i as int]);
            assert(cur.subrange(1, cur.len() as int) =~= b@.subrange(i + 1, n as int));
        }
    }
    proof {
        assert(b@.subrange(0, n as int) =~= b@);
    }
    r
}

impl FromExactBytesLe for u8 {
    open spec fn spec_n_bytes() -> nat {
        1
    }

    open spec fn from_bytes_le_spec(b: Seq<u8>) -> u8 {
        le_value(b) as u8
    }

    fn n_bytes() -> usize {
        1
    }

    fn from_bytes_le(b: &[u8]) -> (r: u8) {
        proof {
            lemma_le_value_bound(b@);
            lemma_pow256_widths();
        }
        let v = le_bytes_to_u128(b);
        v as u8
    }
}

impl FromExactBytesLe for u16 {
    open spec fn spec_n_bytes() -> nat {
        2
    }

    open spec fn from_bytes_le_spec(b: Seq<u8>) -> u16 {
        le_value(b) as u16
    }

    fn n_bytes() -> usize {
        2
    }

    fn from_bytes_le(b: &[u8]) -> (r: u16) {
        proof {
            lemma_le_value_bound(b@);
            lemma_pow256_widths();
        }
        let v = le_bytes_to_u128(b);
        v as u16
    }
}

impl FromExactBytesLe for u32 {
    open spec fn spec_n_bytes() -> nat {
        4
    }

    open spec fn from_bytes_le_spec(b: Seq<u8>) -> u32 {
        le_value(b) as u32
    }

    fn n_bytes() -> usize {
        4
    }

    fn from_bytes_le(b: &[u8]) -> (r: u32) {
        proof {
            lemma_le_value_bound(b@);
            lemma_pow256_widths();
        }
        let v = le_bytes_to_u128(b);
        v as u32
    }
}

impl FromExactBytesLe for u64 {
    open spec fn spec_n_bytes() -> nat {
        8
    }

    open spec fn from_bytes_le_spec(b: Seq<u8>) -> u64 {
        le_value(b) as u64
    }

    fn n_bytes() -> usize {
        8
    }

    fn from_bytes_le(b: &[u8]) -> (r: u64) {
        proof {
            lemma_le_value_bound(b@);
            lemma_pow256_widths();
        }
        let v = le_bytes_to_u128(b);
        v as u64
    }
}

impl FromExactBytesLe for u128 {
    open spec fn spec_n_bytes() -> nat {
        16
    }

    open spec fn from_bytes_le_spec(b: Seq<u8>) -> u128 {
        le_value(b) as u128
    }

    fn n_bytes() -> usize {
        16
    }

    fn from_bytes_le(b: &[u8]) -> (r: u128) {
        proof {
            lemma_le_value_bound(b@);
            lemma_pow256_widths();
        }
        le_bytes_to_u128(b)
    }
}

impl FromExactBytesLe for i8 {
    open spec fn spec_n_bytes() -> nat {
        1
    }

    open spec fn from_bytes_le_spec(b: Seq<u8>) -> i8 {
        le_signed_value(b) as i8
    }

    fn n_bytes() -> usize {
        1
    }

    fn from_bytes_le(b: &[u8]) -> (r: i8) {
        proof {
            lemma_le_value_bound(b@);
            lemma_pow256_widths();
        }
        let v = le_bytes_to_u128(b);
        if v < 0x80 {
            v as i8
        } else {
            let d = (0xFFu128 - v) as i8;
            -d - 1
        }
    }
}

impl FromExactBytesLe for i16 {
    open spec fn spec_n_bytes() -> nat {
        2
    }

    open spec fn from_bytes_le_spec(b: Seq<u8>) -> i16 {
        le_signed_value(b) as i16
    }

    fn n_bytes() -> usize {
        2
    }

    fn from_bytes_le(b: &[u8]) -> (r: i16) {
        proof {
            lemma_le_value_bound(b@);
            lemma_pow256_widths();
        }
        let v = le_bytes_to_u128(b);
        if v < 0x8000 {
            v as i16
        } else {
            let d = (0xFFFFu128 - v) as i16;
            -d - 1
        }
    }
}

impl FromExactBytesLe for i32 {
    open spec fn spec_n_bytes() -> nat {
        4
    }

    open spec fn from_bytes_le_spec(b: Seq<u8>) -> i32 {
        le_signed_value(b) as i32
    }

    fn n_bytes() -> usize {
        4
    }

    fn from_bytes_le(b: &[u8]) -> (r: i32) {
        proof {
            lemma_le_value_bound(b@);
            lemma_pow256_widths();
        }
        let v = le_bytes_to_u128(b);
        if v < 0x8000_0000 {
            v as i32
        } else {
            let d = (0xFFFF_FFFFu128 - v) as i32;
            -d - 1
        }
    }
}

impl FromExactBytesLe for i64 {
    open spec fn spec_n_bytes() -> nat {
        8
    }

    open spec fn from_bytes_le_spec(b: Seq<u8>) -> i64 {
        le_signed_value(b) as i64
    }

    fn n_bytes() -> usize {
        8
    }

    fn from_bytes_le(b: &[u8]) -> (r: i64) {
        proof {
            lemma_le_value_bound(b@);
            lemma_pow256_widths();
        }
        let v = le_bytes_to_u128(b);
        if v < 0x8000_0000_0000_0000 {
            v as i64
        } else {
            let d = (0xFFFF_FFFF_FFFF_FFFFu128 - v) as i64;
            -d - 1
        }
    }
}

impl FromExactBytesLe for i128 {
    open spec fn spec_n_bytes() -> nat {
        16
    }

    open spec fn from_bytes_le_spec(b: Seq<u8>) -> i128 {
        le_signed_value(b) as i128
    }

    fn n_bytes() -> usize {
        16
    }

    fn from_bytes_le(b: &[u8]) -> (r: i128) {
        proof {
            lemma_le_value_bound(b@);
            lemma_pow256_widths();
        }
        let v = le_bytes_to_u128(b);
        if v < 0x8000_0000_0000_0000_0000_0000_0000_0000 {
            v as i128
        } else {
            let d = (0xFFFF_FFFF_FFFF_FFFF_FFFF_FFFF_FFFF_FFFFu128 - v) as i128;
            -d - 1
        }
    }
}

/// Decodes a value of `T` from a runtime-length buffer. This is the boundary
/// where a buffer of unknown length meets a declared width: the length is
/// checked once, a mismatch is refused with [`DecodeError::LengthMismatch`],
/// and on the exact width the result is exactly that of
/// [`FromExactBytesLe::from_bytes_le`].
pub fn try_from_bytes_le<T: FromExactBytesLe>(b: &[u8]) -> (r: Result<T, DecodeError>)
    ensures
        r is Ok <==> b@.len() == T::spec_n_bytes(),
        r matches Ok(v) ==> v == T::from_bytes_le_spec(b@),
        r matches Err(e) ==> e == (DecodeError::LengthMismatch {
            expected: T::spec_n_bytes() as usize,
            actual: b@.len() as usize,
        }),
{
    let expected = T::n_bytes();
    if b.len() == expected {
        Ok(T::from_bytes_le(b))
    } else {
        Err(DecodeError::LengthMismatch { expected, actual: b.len() })
    }
}

/// Decoding is pure: every value that `from_bytes_le`'s contract admits on a
/// given buffer is the one value `from_bytes_le_spec` names, so two calls on
/// identical bytes yield equal values.
pub proof fn lemma_decode_deterministic<T: FromExactBytesLe>(b: Seq<u8>, r1: T, r2: T)
    requires
        r1 == T::from_bytes_le_spec(b),
        r2 == T::from_bytes_le_spec(b),
    ensures
        r1 == r2,
{
}

/// On one byte, the decoded `u8` is exactly the little-endian value of the
/// buffer: the sum of `b[i] * 256^i` over all positions.
pub proof fn lemma_decode_u8_exact(b: Seq<u8>)
    requires
        b.len() == 1,
    ensures
        <u8 as FromExactBytesLe>::from_bytes_le_spec(b) as nat == le_value(b),
{
    lemma_le_value_bound(b);
    lemma_pow256_widths();
}

/// On two bytes, the decoded `u16` is exactly the little-endian value of the
/// buffer.
pub proof fn lemma_decode_u16_exact(b: Seq<u8>)
    requires
        b.len() == 2,
    ensures
        <u16 as FromExactBytesLe>::from_bytes_le_spec(b) as nat == le_value(b),
{
    lemma_le_value_bound(b);
    lemma_pow256_widths();
}

/// On four bytes, the decoded `u32` is exactly the little-endian value of the
/// buffer.
pub proof fn lemma_decode_u32_exact(b: Seq<u8>)
    requires
        b.len() == 4,
    ensures
        <u32 as FromExactBytesLe>::from_bytes_le_spec(b) as nat == le_value(b),
{
    lemma_le_value_bound(b);
    lemma_pow256_widths();
}

/// On eight bytes, the decoded `u64` is exactly the little-endian value of
/// the buffer.
pub proof fn lemma_decode_u64_exact(b: Seq<u8>)
    requires
        b.len() == 8,
    ensures
        <u64 as FromExactBytesLe>::from_bytes_le_spec(b) as nat == le_value(b),
{
    lemma_le_value_bound(b);
    lemma_pow256_widths();
}

/// On sixteen bytes, the decoded `u128` is exactly the little-endian value of
/// the buffer.
pub proof fn lemma_decode_u128_exact(b: Seq<u8>)
    requires
        b.len() == 16,
    ensures
        <u128 as FromExactBytesLe>::from_bytes_le_spec(b) as nat == le_value(b),
{
    lemma_le_value_bound(b);
    lemma_pow256_widths();
}

/// On one byte, the decoded `i8` is exactly the little-endian value of the
/// buffer reinterpreted as two's complement.
pub proof fn lemma_decode_i8_exact(b: Seq<u8>)
    requires
        b.len() == 1,
    ensures
        <i8 as FromExactBytesLe>::from_bytes_le_spec(b) as int == le_signed_value(b),
{
    lemma_le_value_bound(b);
    lemma_pow256_widths();
}

/// On two bytes, the decoded `i16` is exactly the little-endian value of the
/// buffer reinterpreted as two's complement.
pub proof fn lemma_decode_i16_exact(b: Seq<u8>)
    requires
        b.len() == 2,
    ensures
        <i16 as FromExactBytesLe>::from_bytes_le_spec(b) as int == le_signed_value(b),
{
    lemma_le_value_bound(b);
    lemma_pow256_widths();
}

/// On four bytes, the decoded `i32` is exactly the little-endian value of the
/// buffer reinterpreted as two's complement.
pub proof fn lemma_decode_i32_exact(b: Seq<u8>)
    requires
        b.len() == 4,
    ensures
        <i32 as FromExactBytesLe>::from_bytes_le_spec(b) as int == le_signed_value(b),
{
    lemma_le_value_bound(b);
    lemma_pow256_widths();
}

/// On eight bytes, the decoded `i64` is exactly the little-endian value of
/// the buffer reinterpreted as two's complement.
pub proof fn lemma_decode_i64_exact(b: Seq<u8>)
    requires
        b.len() == 8,
    ensures
        <i64 as FromExactBytesLe>::from_bytes_le_spec(b) as int == le_signed_value(b),
{
    lemma_le_value_bound(b);
    lemma_pow256_widths();
}

/// On sixteen bytes, the decoded `i128` is exactly the little-endian value of
/// the buffer reinterpreted as two's complement.
pub proof fn lemma_decode_i128_exact(b: Seq<u8>)
    requires
        b.len() == 16,
    ensures
        <i128 as FromExactBytesLe>::from_bytes_le_spec(b) as int == le_signed_value(b),
{
    lemma_le_value_bound(b);
    lemma_pow256_widths();
}

} // verus!
