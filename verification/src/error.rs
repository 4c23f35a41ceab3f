//! The error conditions at the boundary of the decoder.

use vstd::prelude::*;

verus! {

/// Why a boundary operation refused a buffer. Decoding itself is total: every
/// bit pattern of the right width decodes, so errors arise only where a
/// runtime-length buffer or split point meets a declared width.
#[derive(Clone, Copy, Debug, PartialEq, Eq, Structural)]
pub enum DecodeError {
    /// The buffer's length does not equal the target type's declared width.
    LengthMismatch { expected: usize, actual: usize },
    /// The requested split point exceeds the buffer's length.
    InvalidSplit { split_point: usize, len: usize },
}

} // verus!
