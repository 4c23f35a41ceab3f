//! A worked composite record: the sequential split-and-decode pattern.

use crate::decode::FromExactBytesLe;
use crate::split::split_fixed;
use crate::value::le_value;
use crate::value::lemma_le_value_split;
use crate::value::pow256;
use vstd::prelude::*;

verus! {

/// A record of four little-endian fields laid out contiguously in
/// declaration order, with no padding: one, two, four and eight bytes wide.
///
/// Its decoder shows the pattern every composite record follows: split the
/// buffer at the current field's width, decode the prefix with the field
/// type's own decoder, and thread the suffix to the next field until no byte
/// remains. A composite decoded this way is itself one field decoder usable
/// inside an outer composite.
#[derive(Clone, Copy, Debug, PartialEq, Eq, Structural)]
pub struct Header {
    pub a: u8,
    pub b: u16,
    pub c: u32,
    pub d: u64,
}

impl FromExactBytesLe for Header {
    /// The record's width is the sum of its fields' widths.
    open spec fn spec_n_bytes() -> nat {
        <u8 as FromExactBytesLe>::spec_n_bytes() + <u16 as FromExactBytesLe>::spec_n_bytes()
            + <u32 as FromExactBytesLe>::spec_n_bytes()
            + <u64 as FromExactBytesLe>::spec_n_bytes()
    }

    /// Each field is the decode of its own byte range, at the offset given by
    /// the widths of the fields before it, independent of the other fields.
    open spec fn from_bytes_le_spec(bytes: Seq<u8>) -> Header {
        Header {
            a: <u8 as FromExactBytesLe>::from_bytes_le_spec(bytes.subrange(0, 1)),
            b: <u16 as FromExactBytesLe>::from_bytes_le_spec(bytes.subrange(1, 3)),
            c: <u32 as FromExactBytesLe>::from_bytes_le_spec(bytes.subrange(3, 7)),
            d: <u64 as FromExactBytesLe>::from_bytes_le_spec(bytes.subrange(7, 15)),
        }
    }

    fn n_bytes() -> usize {
        15
    }

    fn from_bytes_le(bytes: &[u8]) -> (r: Header) {
        let (a_bytes, rest_a) = split_fixed(bytes, 1);
        let a = u8::from_bytes_le(a_bytes);
        proof {
            assert(rest_a@ =~= bytes@.subrange(1, 15));
        }
        let (b_bytes, rest_b) = split_fixed(rest_a, 2);
        let b = u16::from_bytes_le(b_bytes);
        proof {
            assert(b_bytes@ =~= bytes@.subrange(1, 3));
            assert(rest_b@ =~= bytes@.subrange(3, 15));
        }
        let (c_bytes, rest_c) = split_fixed(rest_b, 4);
        let c = u32::from_bytes_le(c_bytes);
        proof {
            assert(c_bytes@ =~= bytes@.subrange(3, 7));
            assert(rest_c@ =~= bytes@.subrange(7, 15));
        }
        let (d_bytes, rest_d) = split_fixed(rest_c, 8);
        let d = u64::from_bytes_le(d_bytes);
        proof {
            assert(d_bytes@ =~= bytes@.subrange(7, 15));
        }
        // The widths consumed sum to the record's width: the final suffix is
        // empty, so the buffer was consumed exactly.
        assert(rest_d@.len() == 0);
        Header { a, b, c, d }
    }
}

/// A composite with another composite as a field: [`Header`]'s decoder is
/// used as one field decoder inside a larger record, showing that the
/// split-and-decode pattern nests.
#[derive(Clone, Copy, Debug, PartialEq, Eq, Structural)]
pub struct Envelope {
    pub head: Header,
    pub tag: u32,
}

impl FromExactBytesLe for Envelope {
    open spec fn spec_n_bytes() -> nat {
        <Header as FromExactBytesLe>::spec_n_bytes() + <u32 as FromExactBytesLe>::spec_n_bytes()
    }

    open spec fn from_bytes_le_spec(bytes: Seq<u8>) -> Envelope {
        Envelope {
            head: <Header as FromExactBytesLe>::from_bytes_le_spec(bytes.subrange(0, 15)),
            tag: <u32 as FromExactBytesLe>::from_bytes_le_spec(bytes.subrange(15, 19)),
        }
    }

    fn n_bytes() -> usize {
        19
    }

    fn from_bytes_le(bytes: &[u8]) -> (r: Envelope) {
        let (head_bytes, rest) = split_fixed(bytes, 15);
        let head = Header::from_bytes_le(head_bytes);
        proof {
            assert(rest@ =~= bytes@.subrange(15, 19));
        }
        let (tag_bytes, rest_tag) = split_fixed(rest, 4);
        let tag = u32::from_bytes_le(tag_bytes);
        proof {
            assert(tag_bytes@ =~= bytes@.subrange(15, 19));
        }
        assert(rest_tag@.len() == 0);
        Envelope { head, tag }
    }
}

/// The record's numeric content splits exactly across its fields: the value
/// of the whole buffer is the sum of each field's byte range's value,
/// weighted by 256 raised to the field's offset. No byte is counted twice
/// and none is left over.
pub proof fn lemma_header_value_decomposition(bytes: Seq<u8>)
    requires
        bytes.len() == 15,
    ensures
        le_value(bytes) == le_value(bytes.subrange(0, 1)) + pow256(1) * le_value(
            bytes.subrange(1, 3),
        ) + pow256(3) * le_value(bytes.subrange(3, 7)) + pow256(7) * le_value(
            bytes.subrange(7, 15),
        ),
{
    let rest1 = bytes.subrange(1, 15);
    let rest2 = bytes.subrange(3, 15);
    lemma_le_value_split(bytes, 1);
    lemma_le_value_split(rest1, 2);
    lemma_le_value_split(rest2, 4);
    assert(rest1.subrange(0, 2) =~= bytes.subrange(1, 3));
    assert(rest1.subrange(2, 14) =~= bytes.subrange(3, 15));
    assert(rest2.subrange(0, 4) =~= bytes.subrange(3, 7));
    assert(rest2.subrange(4, 12) =~= bytes.subrange(7, 15));
    assert(pow256(0) == 1);
    assert(pow256(1) == 0x100);
    assert(pow256(2) == 0x1_0000);
    assert(pow256(3) == 0x100_0000);
    assert(pow256(4) == 0x1_0000_0000);
    assert(pow256(5) == 0x100_0000_0000);
    assert(pow256(6) == 0x1_0000_0000_0000);
    assert(pow256(7) == 0x100_0000_0000_0000);
    let v0 = le_value(bytes.subrange(0, 1));
    let v1 = le_value(bytes.subrange(1, 3));
    let v2 = le_value(bytes.subrange(3, 7));
    let v3 = le_value(bytes.subrange(7, 15));
    assert(le_value(rest2) == v2 + 0x1_0000_0000 * v3);
    assert(le_value(rest1) == v1 + 0x1_0000 * (v2 + 0x1_0000_0000 * v3));
    assert(le_value(bytes) == v0 + 0x100 * (v1 + 0x1_0000 * (v2 + 0x1_0000_0000 * v3)));
    assert(0x100 * (v1 + 0x1_0000 * (v2 + 0x1_0000_0000 * v3)) == 0x100 * v1 + 0x100_0000 * v2
        + 0x100_0000_0000_0000 * v3) by (nonlinear_arith);
}

} // verus!
