//! Splitting a fixed-length sequence into a prefix and a suffix, without
//! copying.

use crate::error::DecodeError;
use vstd::prelude::*;
use vstd::slice::slice_subrange;

verus! {

/// Splits `b` at position `m` into a prefix of length `m` and a suffix of
/// length `b.len() - m`. Both results are views into `b`'s own storage: no
/// byte is copied, and concatenating them gives back `b` exactly.
pub fn split_fixed<T>(b: &[T], m: usize) -> (r: (&[T], &[T]))
    requires
        m <= b@.len(),
    ensures
        r.0@ == b@.subrange(0, m as int),
        r.1@ == b@.subrange(m as int, b@.len() as int),
        r.0@.len() == m,
        r.1@.len() == b@.len() - m,
        r.0@ + r.1@ == b@,
{
    let prefix = slice_subrange(b, 0, m);
    let suffix = slice_subrange(b, m, b.len());
    proof {
        assert(prefix@ + suffix@ =~= b@);
    }
    (prefix, suffix)
}

/// Splits `b` at a split point chosen at runtime. Where the split point is
/// within bounds the result is exactly that of [`split_fixed`]; a split point
/// beyond the buffer's length is refused with [`DecodeError::InvalidSplit`]
/// instead of reading out of bounds.
pub fn try_split_fixed<T>(b: &[T], m: usize) -> (r: Result<(&[T], &[T]), DecodeError>)
    ensures
        r is Ok <==> m <= b@.len(),
        r matches Ok(parts) ==> {
            &&& parts.0@ == b@.subrange(0, m as int)
            &&& parts.1@ == b@.subrange(m as int, b@.len() as int)
            &&& parts.0@ + parts.1@ == b@
        },
        r matches Err(e) ==> e == (DecodeError::InvalidSplit {
            split_point: m,
            len: b@.len() as usize,
        }),
{
    if m <= b.len() {
        Ok(split_fixed(b, m))
    } else {
        Err(DecodeError::InvalidSplit { split_point: m, len: b.len() })
    }
}

} // verus!
