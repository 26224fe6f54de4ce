//! The small value types that the byte stream is decoded into.

use vstd::prelude::*;

verus! {

/// A variable-width unsigned integer as it stands in the stream: the variant
/// records which width tag the leading byte carried.
#[derive(Clone, Copy, Debug, PartialEq, Eq, Structural)]
pub enum VSVal {
    U8(u8),
    U16(u16),
    U32(u32),
}

impl VSVal {
    /// The logical value, regardless of the stored width.
    pub open spec fn spec_value(self) -> u32 {
        match self {
            VSVal::U8(x) => x as u32,
            VSVal::U16(x) => x as u32,
            VSVal::U32(x) => x,
        }
    }
}

/// A 64-bit file timestamp split into its two little-endian halves.
#[derive(Clone, Copy, Debug, PartialEq, Eq, Structural)]
pub struct FileTime {
    pub dw_low_date_time: u32,
    pub dw_high_date_time: u32,
}

/// A length-prefixed string: the stored 16-bit byte length and the decoded text.
#[derive(Clone, Debug)]
pub struct WString {
    pub length: u16,
    pub content: String,
}

/// The spec-level model of a `WString`.
pub struct WStringV {
    pub length: u16,
    pub content: Seq<char>,
}

impl DeepView for WString {
    type V = WStringV;

    open spec fn deep_view(&self) -> WStringV {
        WStringV { length: self.length, content: self.content@ }
    }
}

/// The raw bit pattern of a 32-bit IEEE-754 value as it stands in the stream.
/// The decoder never interprets these bits; a caller that wants the numeric
/// value reassembles it from the little-endian pattern held here.
#[derive(Clone, Copy, Debug, PartialEq, Eq, Structural)]
pub struct F32Bits {
    pub bits: u32,
}

/// The raw 3-byte packed identifier. Use `get_form_id` for the resolved form.
#[derive(Clone, Copy, Debug, PartialEq, Eq, Structural)]
pub struct RefId {
    pub byte0: u8,
    pub byte1: u8,
    pub byte2: u8,
}

/// The four reference origins a packed identifier resolves to, keyed by the
/// top two bits of its first byte.
#[derive(Clone, Copy, Debug, PartialEq, Eq, Structural)]
pub enum RefIdType {
    /// An index into the form-identifier array. A stored magnitude of n maps
    /// to index n - 1; the subtraction has already been done here.
    Index(u32),
    /// A reference into the authoritative source data.
    Default(u32),
    /// A reference created at runtime.
    Created(u32),
    /// The top two bits carried the one undefined pattern.
    Unknown(u32),
}

impl DeepView for RefIdType {
    type V = RefIdType;

    open spec fn deep_view(&self) -> RefIdType {
        *self
    }
}

/// The magnitude packed into an identifier's bytes. The source format folds
/// `byte1` in twice and never uses `byte2` for the value (while the stream
/// still stores three bytes); this is load-bearing for byte alignment and is
/// reproduced exactly, not corrected.
pub open spec fn spec_parsed_id(byte0: u8, byte1: u8) -> u32 {
    (byte0 * 0x10000 + byte1 * 0x100 + byte1) as u32
}

/// The resolved origin of a packed identifier: classified by the top two bits
/// of `byte0`, with the table-index origin shifted down by one (magnitude 0
/// standing for the null authoritative reference). `byte2` plays no part.
pub open spec fn spec_form_id(byte0: u8, byte1: u8) -> RefIdType {
    let m = spec_parsed_id(byte0, byte1);
    if byte0 / 64 == 0 {
        if m == 0 {
            RefIdType::Default(0)
        } else {
            RefIdType::Index((m - 1) as u32)
        }
    } else if byte0 / 64 == 1 {
        RefIdType::Default(m)
    } else if byte0 / 64 == 2 {
        RefIdType::Created(m)
    } else {
        RefIdType::Unknown(m)
    }
}

impl RefId {
    /// The packed magnitude. `byte1` stands in for both middle and low bytes:
    /// see `spec_parsed_id`.
    pub fn get_parsed_id(&self) -> (r: u32)
        ensures
            r == spec_parsed_id(self.byte0, self.byte1),
    {
        (self.byte0 as u32) * 0x10000 + (self.byte1 as u32) * 0x100 + (self.byte1 as u32)
    }

    /// Resolve the identifier to its origin, keyed by the top two bits of the
    /// first byte. Table indexes come back with 1 already subtracted.
    pub fn get_form_id(&self) -> (r: RefIdType)
        ensures
            r == spec_form_id(self.byte0, self.byte1),
    {
        let parsed_id = self.get_parsed_id();
        match self.byte0 / 64 {
            0 => {
                if parsed_id == 0 {
                    RefIdType::Default(0)
                } else {
                    RefIdType::Index(parsed_id - 1)
                }
            },
            1 => RefIdType::Default(parsed_id),
            2 => RefIdType::Created(parsed_id),
            _ => RefIdType::Unknown(parsed_id),
        }
    }
}

} // verus!
