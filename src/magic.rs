//! How a magic pattern was written in a schema.
use vstd::prelude::*;
use crate::endian::{decode, encode_uint, pow256, ByteOrder};
use crate::schema::{width_bytes, IntWidth};

verus! {

/// The kind of literal a magic pattern was written as. A multi-byte numeric
/// magic is turned into bytes in the field's byte order.
#[derive(Clone, Debug, PartialEq)]
pub enum MagicType {
    Str,
    ByteStr,
    Byte,
    Char,
    /// An integer literal, with the name of its type.
    Int(String),
    Float,
    Bool,
    Verbatim,
}

/// The pattern a numeric magic literal of the given width stands for in the
/// given byte order; `None` where the value does not fit the width.
pub fn numeric_magic(value: u64, width: IntWidth, order: ByteOrder) -> (r: Option<Vec<u8>>)
    ensures
        r is Some <==> value < pow256(width_bytes(width)),
        r matches Some(b) ==> b@.len() == width_bytes(width) && decode(order, b@) == value,
{
    proof {
        reveal_with_fuel(pow256, 9);
    }
    let (n, fits): (usize, bool) = match width {
        IntWidth::U8 => (1, value < 0x100),
        IntWidth::U16 => (2, value < 0x1_0000),
        IntWidth::U32 => (4, value < 0x1_0000_0000),
        IntWidth::U64 => (8, true),
    };
    if fits {
        Some(encode_uint(order, value, n))
    } else {
        None
    }
}

} // verus!
