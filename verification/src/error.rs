//! Error and warning taxonomy of the decoder.
//!
//! A `DecodeError` aborts the whole decode (format-fatal). A `Warning` is a
//! recoverable anomaly: the decoder substitutes a defined fallback value,
//! records the warning, and continues. Callers can thus distinguish a fully
//! clean decode from one that met unknown field values.

use vstd::prelude::*;

verus! {

/// A format-fatal condition: the decode stops and reports it.
#[derive(Clone, Copy, Debug, PartialEq, Eq, Structural)]
pub enum DecodeError {
    /// A read of `requested` bytes at `offset` would pass the end of a
    /// buffer of `length` bytes.
    OutOfBounds { offset: usize, requested: usize, length: usize },
    /// The buffer does not begin with the 13-byte magic string.
    MagicMismatch,
    /// The header names a compression scheme this decoder does not support
    /// (code 1, the legacy codec, or any code other than 0 and 2).
    UnsupportedCompression { code: u16 },
    /// A change form's combined byte selects a length-field width outside
    /// the defined set {0, 64, 128}.
    InvalidLengthWidth { value: u8 },
    /// A compressed span could not be decompressed at all.
    DecompressFailed,
    /// A compressed span decompressed to a different size than declared.
    DecompressSizeMismatch { expected: usize, actual: usize },
    /// A span of bytes that must be text is not valid UTF-8.
    MalformedText { offset: usize },
}

/// A recoverable anomaly met during decode. The decoder substitutes the
/// documented fallback value and records one of these.
#[derive(Clone, Copy, Debug, PartialEq, Eq, Structural)]
pub enum Warning {
    /// A variable-width integer carried the undefined width tag 3; the value
    /// zero was substituted.
    InvalidVsvalWidth,
    /// A length-prefixed string was not valid UTF-8; a sentinel string was
    /// substituted.
    MalformedString,
    /// A global-data record carried a type tag with no registered decoder;
    /// the terminal empty variant was substituted.
    UnknownGlobalDataTag { tag: u32 },
    /// A misc-stat category byte outside the known range.
    UnknownMiscStatCategory { value: u8 },
    /// A crime-type code outside the known range.
    UnknownCrimeType { value: u32 },
    /// A byte meant to hold a boolean held a value above 1.
    UnknownBoolByte { value: u8 },
    /// A quest run-data item carried an unknown type tag; it was read as a
    /// reference identifier.
    UnknownQuestDataType { value: u32 },
}

} // verus!
