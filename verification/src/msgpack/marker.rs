//! Marker taxonomy: the leading format byte of a MessagePack value, and the
//! total mapping between the 256 byte values and the marker variants.

use vstd::prelude::*;

verus! {

/// The shape of the next value on the wire. Fixed-size variants carry the
/// length or value embedded in the low bits of the marker byte.
#[derive(Clone, Copy, Debug, PartialEq, Eq, Structural)]
pub enum Marker {
    Nil,
    True,
    False,
    PosFixInt(u8),
    NegFixInt(i8),
    U8,
    U16,
    U32,
    U64,
    I8,
    I16,
    I32,
    I64,
    F32,
    F64,
    FixStr(u8),
    Str8,
    Str16,
    Str32,
    Bin8,
    Bin16,
    Bin32,
    FixArray(u8),
    Array16,
    Array32,
    FixMap(u8),
    Map16,
    Map32,
    FixExt1,
    FixExt2,
    FixExt4,
    FixExt8,
    FixExt16,
    Ext8,
    Ext16,
    Ext32,
    Reserved,
}

/// The marker denoted by a wire byte. Total: every byte value maps to
/// exactly one variant.
pub open spec fn marker_of(b: u8) -> Marker {
    if b < 0x80 {
        Marker::PosFixInt(b)
    } else if b < 0x90 {
        Marker::FixMap((b - 0x80) as u8)
    } else if b < 0xa0 {
        Marker::FixArray((b - 0x90) as u8)
    } else if b < 0xc0 {
        Marker::FixStr((b - 0xa0) as u8)
    } else if b == 0xc0 {
        Marker::Nil
    } else if b == 0xc1 {
        Marker::Reserved
    } else if b == 0xc2 {
        Marker::False
    } else if b == 0xc3 {
        Marker::True
    } else if b == 0xc4 {
        Marker::Bin8
    } else if b == 0xc5 {
        Marker::Bin16
    } else if b == 0xc6 {
        Marker::Bin32
    } else if b == 0xc7 {
        Marker::Ext8
    } else if b == 0xc8 {
        Marker::Ext16
    } else if b == 0xc9 {
        Marker::Ext32
    } else if b == 0xca {
        Marker::F32
    } else if b == 0xcb {
        Marker::F64
    } else if b == 0xcc {
        Marker::U8
    } else if b == 0xcd {
        Marker::U16
    } else if b == 0xce {
        Marker::U32
    } else if b == 0xcf {
        Marker::U64
    } else if b == 0xd0 {
        Marker::I8
    } else if b == 0xd1 {
        Marker::I16
    } else if b == 0xd2 {
        Marker::I32
    } else if b == 0xd3 {
        Marker::I64
    } else if b == 0xd4 {
        Marker::FixExt1
    } else if b == 0xd5 {
        Marker::FixExt2
    } else if b == 0xd6 {
        Marker::FixExt4
    } else if b == 0xd7 {
        Marker::FixExt8
    } else if b == 0xd8 {
        Marker::FixExt16
    } else if b == 0xd9 {
        Marker::Str8
    } else if b == 0xda {
        Marker::Str16
    } else if b == 0xdb {
        Marker::Str32
    } else if b == 0xdc {
        Marker::Array16
    } else if b == 0xdd {
        Marker::Array32
    } else if b == 0xde {
        Marker::Map16
    } else if b == 0xdf {
        Marker::Map32
    } else {
        Marker::NegFixInt(b as i8)
    }
}

/// True when the embedded length or value of a fixed-size variant is in the
/// range that a single marker byte can carry.
pub open spec fn marker_wf(m: Marker) -> bool {
    match m {
        Marker::PosFixInt(n) => n < 0x80,
        Marker::NegFixInt(n) => -32 <= n < 0,
        Marker::FixStr(n) => n < 0x20,
        Marker::FixArray(n) => n < 0x10,
        Marker::FixMap(n) => n < 0x10,
        _ => true,
    }
}

/// The wire byte of a marker.
pub open spec fn byte_of(m: Marker) -> u8 {
    match m {
        Marker::Nil => 0xc0,
        Marker::True => 0xc3,
        Marker::False => 0xc2,
        Marker::PosFixInt(n) => n,
        Marker::NegFixInt(n) => n as u8,
        Marker::U8 => 0xcc,
        Marker::U16 => 0xcd,
        Marker::U32 => 0xce,
        Marker::U64 => 0xcf,
        Marker::I8 => 0xd0,
        Marker::I16 => 0xd1,
        Marker::I32 => 0xd2,
        Marker::I64 => 0xd3,
        Marker::F32 => 0xca,
        Marker::F64 => 0xcb,
        Marker::FixStr(n) => (0xa0 + (n % 0x20)) as u8,
        Marker::Str8 => 0xd9,
        Marker::Str16 => 0xda,
        Marker::Str32 => 0xdb,
        Marker::Bin8 => 0xc4,
        Marker::Bin16 => 0xc5,
        Marker::Bin32 => 0xc6,
        Marker::FixArray(n) => (0x90 + (n % 0x10)) as u8,
        Marker::Array16 => 0xdc,
        Marker::Array32 => 0xdd,
        Marker::FixMap(n) => (0x80 + (n % 0x10)) as u8,
        Marker::Map16 => 0xde,
        Marker::Map32 => 0xdf,
        Marker::FixExt1 => 0xd4,
        Marker::FixExt2 => 0xd5,
        Marker::FixExt4 => 0xd6,
        Marker::FixExt8 => 0xd7,
        Marker::FixExt16 => 0xd8,
        Marker::Ext8 => 0xc7,
        Marker::Ext16 => 0xc8,
        Marker::Ext32 => 0xc9,
        Marker::Reserved => 0xc1,
    }
}

impl Marker {
    /// Decodes a wire byte into its marker, extracting the embedded length
    /// or value of fixed-size variants from the low bits.
    pub fn from_u8(b: u8) -> (m: Marker)
        ensures
            m == marker_of(b),
            marker_wf(m),
    {
        if b < 0x80 {
            Marker::PosFixInt(b)
        } else if b < 0x90 {
            Marker::FixMap(b - 0x80)
        } else if b < 0xa0 {
            Marker::FixArray(b - 0x90)
        } else if b < 0xc0 {
            Marker::FixStr(b - 0xa0)
        } else if b >= 0xe0 {
            proof {
                assert((b as i8) < 0 && (b as i8) >= -32) by (bit_vector)
                    requires
                        b >= 0xe0,
                ;
            }
            Marker::NegFixInt(#[verifier::truncate] (b as i8))
        } else if b == 0xc0 {
            Marker::Nil
        } else if b == 0xc1 {
            Marker::Reserved
        } else if b == 0xc2 {
            Marker::False
        } else if b == 0xc3 {
            Marker::True
        } else if b == 0xc4 {
            Marker::Bin8
        } else if b == 0xc5 {
            Marker::Bin16
        } else if b == 0xc6 {
            Marker::Bin32
        } else if b == 0xc7 {
            Marker::Ext8
        } else if b == 0xc8 {
            Marker::Ext16
        } else if b == 0xc9 {
            Marker::Ext32
        } else if b == 0xca {
            Marker::F32
        } else if b == 0xcb {
            Marker::F64
        } else if b == 0xcc {
            Marker::U8
        } else if b == 0xcd {
            Marker::U16
        } else if b == 0xce {
            Marker::U32
        } else if b == 0xcf {
            Marker::U64
        } else if b == 0xd0 {
            Marker::I8
        } else if b == 0xd1 {
            Marker::I16
        } else if b == 0xd2 {
            Marker::I32
        } else if b == 0xd3 {
            Marker::I64
        } else if b == 0xd4 {
            Marker::FixExt1
        } else if b == 0xd5 {
            Marker::FixExt2
        } else if b == 0xd6 {
            Marker::FixExt4
        } else if b == 0xd7 {
            Marker::FixExt8
        } else if b == 0xd8 {
            Marker::FixExt16
        } else if b == 0xd9 {
            Marker::Str8
        } else if b == 0xda {
            Marker::Str16
        } else if b == 0xdb {
            Marker::Str32
        } else if b == 0xdc {
            Marker::Array16
        } else if b == 0xdd {
            Marker::Array32
        } else if b == 0xde {
            Marker::Map16
        } else {
            Marker::Map32
        }
    }

    /// Encodes a marker back into its wire byte.
    pub fn to_u8(self) -> (b: u8)
        ensures
            b == byte_of(self),
    {
        match self {
            Marker::Nil => 0xc0,
            Marker::True => 0xc3,
            Marker::False => 0xc2,
            Marker::PosFixInt(n) => n,
            Marker::NegFixInt(n) => #[verifier::truncate] (n as u8),
            Marker::U8 => 0xcc,
            Marker::U16 => 0xcd,
            Marker::U32 => 0xce,
            Marker::U64 => 0xcf,
            Marker::I8 => 0xd0,
            Marker::I16 => 0xd1,
            Marker::I32 => 0xd2,
            Marker::I64 => 0xd3,
            Marker::F32 => 0xca,
            Marker::F64 => 0xcb,
            Marker::FixStr(n) => 0xa0 + (n % 0x20),
            Marker::Str8 => 0xd9,
            Marker::Str16 => 0xda,
            Marker::Str32 => 0xdb,
            Marker::Bin8 => 0xc4,
            Marker::Bin16 => 0xc5,
            Marker::Bin32 => 0xc6,
            Marker::FixArray(n) => 0x90 + (n % 0x10),
            Marker::Array16 => 0xdc,
            Marker::Array32 => 0xdd,
            Marker::FixMap(n) => 0x80 + (n % 0x10),
            Marker::Map16 => 0xde,
            Marker::Map32 => 0xdf,
            Marker::FixExt1 => 0xd4,
            Marker::FixExt2 => 0xd5,
            Marker::FixExt4 => 0xd6,
            Marker::FixExt8 => 0xd7,
            Marker::FixExt16 => 0xd8,
            Marker::Ext8 => 0xc7,
            Marker::Ext16 => 0xc8,
            Marker::Ext32 => 0xc9,
            Marker::Reserved => 0xc1,
        }
    }
}

/// Decoding a wire byte and re-encoding the marker gives the byte back:
/// the mapping loses nothing in either direction.
pub proof fn lemma_marker_byte_round_trip(b: u8)
    ensures
        byte_of(marker_of(b)) == b,
{
    if b >= 0xe0 {
        assert(b as i8 as u8 == b) by (bit_vector)
            requires
                b >= 0xe0,
        ;
    }
}

/// Re-encoding a well-formed marker and decoding the byte gives the marker
/// back.
pub proof fn lemma_marker_of_byte_round_trip(m: Marker)
    requires
        marker_wf(m),
    ensures
        marker_of(byte_of(m)) == m,
{
    if let Marker::NegFixInt(n) = m {
        assert(-32 <= n < 0 ==> n as u8 >= 0xe0 && (n as u8) as i8 == n) by (bit_vector);
    }
}

} // verus!
