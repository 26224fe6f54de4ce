//! The byte cursor: a buffer plus a read position, with fixed-width integer,
//! variable-width integer, string and raw-span reads. Every read either
//! consumes exactly its width and advances the position, or fails with an
//! out-of-bounds error; no read ever passes the end of the buffer.
//!
//! Each executable read has a spec-level twin (`sp_*`) over the byte
//! sequence and the position, and its `ensures` ties the two together
//! exactly. Composite decoders elsewhere in the crate are specified by
//! composing these spec functions.

use vstd::prelude::*;

use crate::error::{DecodeError, Warning};
use crate::fundamental_types::{FileTime, F32Bits, RefId, RefIdType, VSVal, WString, WStringV};
use crate::fundamental_types::spec_form_id;
use vstd::arithmetic::div_mod::lemma_div_denominator;

verus! {

/// `n` bytes can be read at position `i` of buffer `b`.
pub open spec fn can_read(b: Seq<u8>, i: int, n: int) -> bool {
    0 <= i && 0 <= n && i + n <= b.len()
}

/// The out-of-bounds error for a read of `n` bytes at position `i` of a
/// buffer of `len` bytes.
pub open spec fn oob(i: int, n: int, len: int) -> DecodeError {
    DecodeError::OutOfBounds { offset: i as usize, requested: n as usize, length: len as usize }
}

/// An executable error agrees with a spec-level error: out-of-bounds errors
/// agree by kind (their reported positions are diagnostic only), every other
/// kind agrees exactly.
pub open spec fn err_matches(e: DecodeError, e2: DecodeError) -> bool {
    match e2 {
        DecodeError::OutOfBounds { .. } => e matches DecodeError::OutOfBounds { .. },
        _ => e == e2,
    }
}

/// The unsigned 16-bit value stored little-endian at position `i`.
pub open spec fn le16(b: Seq<u8>, i: int) -> u16 {
    (b[i] + b[i + 1] * 0x100) as u16
}

/// The unsigned 32-bit value stored little-endian at position `i`.
pub open spec fn le32(b: Seq<u8>, i: int) -> u32 {
    (b[i] + b[i + 1] * 0x100 + b[i + 2] * 0x10000 + b[i + 3] * 0x1000000) as u32
}

/// The signed 32-bit value stored little-endian at position `i`
/// (two's complement reading of `le32`).
pub open spec fn le32_signed(b: Seq<u8>, i: int) -> i32 {
    if le32(b, i) <= i32::MAX {
        le32(b, i) as i32
    } else {
        (le32(b, i) - 0x1_0000_0000) as i32
    }
}

pub open spec fn sp_u8(b: Seq<u8>, i: int) -> Result<(u8, int), DecodeError> {
    if can_read(b, i, 1) {
        Ok((b[i], i + 1))
    } else {
        Err(oob(i, 1, b.len() as int))
    }
}

pub open spec fn sp_u16(b: Seq<u8>, i: int) -> Result<(u16, int), DecodeError> {
    if can_read(b, i, 2) {
        Ok((le16(b, i), i + 2))
    } else {
        Err(oob(i, 2, b.len() as int))
    }
}

pub open spec fn sp_u32(b: Seq<u8>, i: int) -> Result<(u32, int), DecodeError> {
    if can_read(b, i, 4) {
        Ok((le32(b, i), i + 4))
    } else {
        Err(oob(i, 4, b.len() as int))
    }
}

pub open spec fn sp_i32(b: Seq<u8>, i: int) -> Result<(i32, int), DecodeError> {
    if can_read(b, i, 4) {
        Ok((le32_signed(b, i), i + 4))
    } else {
        Err(oob(i, 4, b.len() as int))
    }
}

pub open spec fn sp_f32(b: Seq<u8>, i: int) -> Result<(F32Bits, int), DecodeError> {
    if can_read(b, i, 4) {
        Ok((F32Bits { bits: le32(b, i) }, i + 4))
    } else {
        Err(oob(i, 4, b.len() as int))
    }
}

pub open spec fn sp_bytes(b: Seq<u8>, i: int, n: int) -> Result<(Seq<u8>, int), DecodeError> {
    if can_read(b, i, n) {
        Ok((b.subrange(i, i + n), i + n))
    } else {
        Err(oob(i, n, b.len() as int))
    }
}

/// The two little-endian bytes of a 16-bit value.
pub open spec fn le_bytes_u16(x: u16) -> Seq<u8> {
    seq![(x % 0x100) as u8, (x / 0x100) as u8]
}

/// The four little-endian bytes of a 32-bit value.
pub open spec fn le_bytes_u32(x: u32) -> Seq<u8> {
    seq![
        (x % 0x100) as u8,
        (x / 0x100 % 0x100) as u8,
        (x / 0x10000 % 0x100) as u8,
        (x / 0x1000000) as u8,
    ]
}

/// The byte cursor: an immutable buffer and the position of the next read.
pub struct SaveFileReader {
    index: usize,
    buffer: Vec<u8>,
}

impl SaveFileReader {
    /// The buffer this cursor reads from.
    pub closed spec fn bytes(&self) -> Seq<u8> {
        self.buffer@
    }

    /// The position of the next read.
    pub closed spec fn pos(&self) -> int {
        self.index as int
    }

    /// The position never passes the end of the buffer.
    pub open spec fn wf(&self) -> bool {
        0 <= self.pos() <= self.bytes().len()
    }

    pub fn new(buffer: Vec<u8>) -> (r: Self)
        ensures
            r.wf(),
            r.bytes() == buffer@,
            r.pos() == 0,
    {
        SaveFileReader { index: 0, buffer }
    }

    pub fn read_u8(&mut self) -> (r: Result<u8, DecodeError>)
        requires
            old(self).wf(),
        ensures
            final(self).wf(),
            final(self).bytes() == old(self).bytes(),
            match sp_u8(old(self).bytes(), old(self).pos()) {
                Ok((v, j)) => r matches Ok(x) && x == v && final(self).pos() == j,
                Err(e2) => (r matches Err(e) && err_matches(e, e2)) && final(self).pos() == old(self).pos(),
            },
    {
        if self.buffer.len() - self.index >= 1 {
            let v = self.buffer[self.index];
            self.index = self.index + 1;
            Ok(v)
        } else {
            Err(DecodeError::OutOfBounds { offset: self.index, requested: 1, length: self.buffer.len() })
        }
    }

    pub fn read_u16(&mut self) -> (r: Result<u16, DecodeError>)
        requires
            old(self).wf(),
        ensures
            final(self).wf(),
            final(self).bytes() == old(self).bytes(),
            match sp_u16(old(self).bytes(), old(self).pos()) {
                Ok((v, j)) => r matches Ok(x) && x == v && final(self).pos() == j,
                Err(e2) => (r matches Err(e) && err_matches(e, e2)) && final(self).pos() == old(self).pos(),
            },
    {
        if self.buffer.len() - self.index >= 2 {
            let b0 = self.buffer[self.index];
            let b1 = self.buffer[self.index + 1];
            self.index = self.index + 2;
            Ok(b0 as u16 + (b1 as u16) * 0x100)
        } else {
            Err(DecodeError::OutOfBounds { offset: self.index, requested: 2, length: self.buffer.len() })
        }
    }

    pub fn read_u32(&mut self) -> (r: Result<u32, DecodeError>)
        requires
            old(self).wf(),
        ensures
            final(self).wf(),
            final(self).bytes() == old(self).bytes(),
            match sp_u32(old(self).bytes(), old(self).pos()) {
                Ok((v, j)) => r matches Ok(x) && x == v && final(self).pos() == j,
                Err(e2) => (r matches Err(e) && err_matches(e, e2)) && final(self).pos() == old(self).pos(),
            },
    {
        if self.buffer.len() - self.index >= 4 {
            let b0 = self.buffer[self.index];
            let b1 = self.buffer[self.index + 1];
            let b2 = self.buffer[self.index + 2];
            let b3 = self.buffer[self.index + 3];
            self.index = self.index + 4;
            Ok(b0 as u32 + (b1 as u32) * 0x100 + (b2 as u32) * 0x10000 + (b3 as u32) * 0x1000000)
        } else {
            Err(DecodeError::OutOfBounds { offset: self.index, requested: 4, length: self.buffer.len() })
        }
    }

    pub fn read_i32(&mut self) -> (r: Result<i32, DecodeError>)
        requires
            old(self).wf(),
        ensures
            final(self).wf(),
            final(self).bytes() == old(self).bytes(),
            match sp_i32(old(self).bytes(), old(self).pos()) {
                Ok((v, j)) => r matches Ok(x) && x == v && final(self).pos() == j,
                Err(e2) => (r matches Err(e) && err_matches(e, e2)) && final(self).pos() == old(self).pos(),
            },
    {
        let u = match self.read_u32() {
            Ok(u) => u,
            Err(e) => {
                return Err(e);
            },
        };
        if u <= 0x7fff_ffff {
            Ok(u as i32)
        } else {
            // Two's complement: the value is u - 2^32, assembled without
            // leaving the i32 range.
            Ok(-((u32::MAX - u) as i32) - 1)
        }
    }

    /// The raw bit pattern of a little-endian 32-bit IEEE-754 field. The bits
    /// are carried as they stand in the stream, never interpreted.
    pub fn read_f32(&mut self) -> (r: Result<F32Bits, DecodeError>)
        requires
            old(self).wf(),
        ensures
            final(self).wf(),
            final(self).bytes() == old(self).bytes(),
            match sp_f32(old(self).bytes(), old(self).pos()) {
                Ok((v, j)) => r matches Ok(x) && x == v && final(self).pos() == j,
                Err(e2) => (r matches Err(e) && err_matches(e, e2)) && final(self).pos() == old(self).pos(),
            },
    {
        let bits = match self.read_u32() {
            Ok(u) => u,
            Err(e) => {
                return Err(e);
            },
        };
        Ok(F32Bits { bits })
    }

    /// A copy of the next `n` bytes.
    pub fn read_bytes_to_vec(&mut self, n: usize) -> (r: Result<Vec<u8>, DecodeError>)
        requires
            old(self).wf(),
        ensures
            final(self).wf(),
            final(self).bytes() == old(self).bytes(),
            match sp_bytes(old(self).bytes(), old(self).pos(), n as int) {
                Ok((v, j)) => r matches Ok(x) && x@ == v && final(self).pos() == j,
                Err(e2) => (r matches Err(e) && err_matches(e, e2)) && final(self).pos() == old(self).pos(),
            },
    {
        if self.buffer.len() - self.index >= n {
            let mut out: Vec<u8> = Vec::new();
            let mut k: usize = 0;
            while k < n
                invariant
                    self.index + n <= self.buffer.len(),
                    k <= n,
                    out@ == self.buffer@.subrange(self.index as int, self.index + k as int),
                decreases n - k,
            {
                out.push(self.buffer[self.index + k]);
                proof {
                    assert(out@ =~= self.buffer@.subrange(
                        self.index as int,
                        self.index + (k + 1) as int,
                    ));
                }
                k = k + 1;
            }
            self.index = self.index + n;
            Ok(out)
        } else {
            Err(DecodeError::OutOfBounds { offset: self.index, requested: n, length: self.buffer.len() })
        }
    }

    /// Decode a variable-width unsigned integer: the two low bits of the
    /// leading byte select a 1-, 2- or 3-byte width, and the value occupies
    /// the remaining bits. The undefined width tag 3 yields the value zero
    /// and records a warning (callers that use the result as a loop bound
    /// then read zero elements, which is safe).
    pub fn read_vsval(&mut self, warnings: &mut Vec<Warning>) -> (r: Result<VSVal, DecodeError>)
        requires
            old(self).wf(),
        ensures
            final(self).wf(),
            final(self).bytes() == old(self).bytes(),
            match sp_vsval(old(self).bytes(), old(self).pos()) {
                Ok((v, j)) => r matches Ok(x) && x == v && final(self).pos() == j,
                Err(e2) => r matches Err(e) && err_matches(e, e2),
            },
            final(warnings)@ == if vsval_tag_invalid(old(self).bytes(), old(self).pos()) {
                old(warnings)@.push(Warning::InvalidVsvalWidth)
            } else {
                old(warnings)@
            },
    {
        let first_byte = match self.read_u8() {
            Ok(v) => v,
            Err(e) => {
                return Err(e);
            },
        };
        let val_type_enc = first_byte % 4;
        if val_type_enc == 0 {
            Ok(VSVal::U8(first_byte / 4))
        } else if val_type_enc == 1 {
            let second_byte = match self.read_u8() {
                Ok(v) => v,
                Err(e) => {
                    return Err(e);
                },
            };
            Ok(VSVal::U16(((second_byte as u16) * 0x100 + first_byte as u16) / 4))
        } else if val_type_enc == 2 {
            let second_byte = match self.read_u8() {
                Ok(v) => v,
                Err(e) => {
                    return Err(e);
                },
            };
            let third_byte = match self.read_u8() {
                Ok(v) => v,
                Err(e) => {
                    return Err(e);
                },
            };
            Ok(VSVal::U32(
                ((third_byte as u32) * 0x10000 + (second_byte as u32) * 0x100 + first_byte as u32) / 4,
            ))
        } else {
            warnings.push(Warning::InvalidVsvalWidth);
            Ok(VSVal::U8(0))
        }
    }

    /// Read a span of `length` bytes that must be UTF-8 text. A span that is
    /// not valid UTF-8 is a fatal error here (this read is used for the magic
    /// string, where the bytes are fixed).
    pub fn read_string(&mut self, length: usize) -> (r: Result<String, DecodeError>)
        requires
            old(self).wf(),
        ensures
            final(self).wf(),
            final(self).bytes() == old(self).bytes(),
            match sp_string(old(self).bytes(), old(self).pos(), length as int) {
                Ok((v, j)) => r matches Ok(x) && x@ == v && final(self).pos() == j,
                Err(e2) => r matches Err(e) && err_matches(e, e2),
            },
    {
        let offset = self.index;
        let bs = match self.read_bytes_to_vec(length) {
            Ok(v) => v,
            Err(e) => {
                return Err(e);
            },
        };
        match utf8_to_string(bs) {
            Some(s) => Ok(s),
            None => Err(DecodeError::MalformedText { offset }),
        }
    }

    /// Read a length-prefixed string: a 16-bit byte count, then that many
    /// bytes of UTF-8 text. A span that is not valid UTF-8 is recoverable:
    /// the sentinel text is substituted and a warning recorded.
    pub fn read_w_string(&mut self, warnings: &mut Vec<Warning>) -> (r: Result<
        WString,
        DecodeError,
    >)
        requires
            old(self).wf(),
        ensures
            final(self).wf(),
            final(self).bytes() == old(self).bytes(),
            match sp_w_string(old(self).bytes(), old(self).pos()) {
                Ok((v, j)) => r matches Ok(x) && x.deep_view() == v && final(self).pos() == j,
                Err(e2) => r matches Err(e) && err_matches(e, e2),
            },
            final(warnings)@ == if w_string_malformed(old(self).bytes(), old(self).pos()) {
                old(warnings)@.push(Warning::MalformedString)
            } else {
                old(warnings)@
            },
    {
        let length = match self.read_u16() {
            Ok(v) => v,
            Err(e) => {
                return Err(e);
            },
        };
        let bs = match self.read_bytes_to_vec(length as usize) {
            Ok(v) => v,
            Err(e) => {
                return Err(e);
            },
        };
        let content = match utf8_to_string(bs) {
            Some(s) => s,
            None => {
                warnings.push(Warning::MalformedString);
                malformed_string_sentinel()
            },
        };
        Ok(WString { length, content })
    }

    /// Hand the buffer back, consuming the cursor.
    pub fn get_buffer(self) -> (r: Vec<u8>)
        ensures
            r@ == self.bytes(),
    {
        self.buffer
    }

    pub fn get_buffer_len(&self) -> (r: usize)
        ensures
            r == self.bytes().len(),
    {
        self.buffer.len()
    }

    pub fn get_index(&self) -> (r: usize)
        ensures
            r == self.pos(),
    {
        self.index
    }
}

/// What a variable-width integer read at position `i` yields: the two low
/// bits of the leading byte select the width, the remaining bits (across the
/// selected bytes, little-endian) carry the value. Width tag 3 is undefined
/// and falls back to the value zero after consuming only the leading byte.
pub open spec fn sp_vsval(b: Seq<u8>, i: int) -> Result<(VSVal, int), DecodeError> {
    match sp_u8(b, i) {
        Ok((b0, i1)) => if b0 % 4 == 0 {
            Ok((VSVal::U8(b0 / 4), i1))
        } else if b0 % 4 == 1 {
            match sp_u8(b, i1) {
                Ok((b1, i2)) => Ok((VSVal::U16(((b1 * 0x100 + b0) / 4) as u16), i2)),
                Err(e) => Err(e),
            }
        } else if b0 % 4 == 2 {
            match sp_u8(b, i1) {
                Ok((b1, i2)) => match sp_u8(b, i2) {
                    Ok((b2, i3)) => Ok(
                        (VSVal::U32(((b2 * 0x10000 + b1 * 0x100 + b0) / 4) as u32), i3),
                    ),
                    Err(e) => Err(e),
                },
                Err(e) => Err(e),
            }
        } else {
            Ok((VSVal::U8(0), i1))
        },
        Err(e) => Err(e),
    }
}

/// The leading byte at `i` exists and carries the undefined width tag.
pub open spec fn vsval_tag_invalid(b: Seq<u8>, i: int) -> bool {
    can_read(b, i, 1) && b[i] % 4 == 3
}

/// A variable-width integer read reduced to its logical value.
pub open spec fn sp_vsval_u32(b: Seq<u8>, i: int) -> Result<(u32, int), DecodeError> {
    match sp_vsval(b, i) {
        Ok((v, j)) => Ok((v.spec_value(), j)),
        Err(e) => Err(e),
    }
}

/// Largest value that a variable-width integer with width tag `w` can carry.
pub open spec fn vsval_max(w: nat) -> nat {
    if w == 0 {
        0x3f
    } else if w == 1 {
        0x3fff
    } else {
        0x3fffff
    }
}

/// The bytes the encoding rule produces for value `v` under width tag `w`:
/// the little-endian bytes of `v * 4 + w`, one, two or three of them.
pub open spec fn spec_vsval_encode(v: u32, w: nat) -> Seq<u8> {
    if w == 0 {
        seq![(v * 4) as u8]
    } else if w == 1 {
        seq![((v % 0x40) * 4 + 1) as u8, (v / 0x40) as u8]
    } else {
        seq![((v % 0x40) * 4 + 2) as u8, (v / 0x40 % 0x100) as u8, (v / 0x4000) as u8]
    }
}

/// The variable-width integer variant carrying value `v` at width tag `w`.
pub open spec fn vsval_with_width(w: nat, v: u32) -> VSVal {
    if w == 0 {
        VSVal::U8(v as u8)
    } else if w == 1 {
        VSVal::U16(v as u16)
    } else {
        VSVal::U32(v)
    }
}

/// Law: for every width tag and every value that tag can carry, the bytes
/// built by the encoding rule decode to that value at that width, and
/// re-encoding the recovered value with the same width tag reproduces the
/// original bytes.
pub proof fn lemma_vsval_round_trip(v: u32, w: nat)
    requires
        w <= 2,
        v <= vsval_max(w),
    ensures
        spec_vsval_encode(v, w).len() == w + 1,
        sp_vsval(spec_vsval_encode(v, w), 0) == Ok::<(VSVal, int), DecodeError>(
            (vsval_with_width(w, v), w as int + 1),
        ),
        spec_vsval_encode(vsval_with_width(w, v).spec_value(), w) == spec_vsval_encode(v, w),
{
    let b = spec_vsval_encode(v, w);
    if w == 0 {
        assert(b[0] == v * 4);
        assert(b[0] % 4 == 0 && b[0] / 4 == v);
        assert(sp_vsval(b, 0) == Ok::<(VSVal, int), DecodeError>((VSVal::U8((v * 4 / 4) as u8), 1)));
    } else if w == 1 {
        let q = v / 0x40;
        let r = v % 0x40;
        assert(v == 0x40 * q + r);
        assert(b[0] == r * 4 + 1 && b[1] == q);
        assert(b[0] % 4 == 1);
        assert((b[1] * 0x100 + b[0]) == 4 * (0x40 * q + r) + 1);
        assert((b[1] * 0x100 + b[0]) / 4 == v);
    } else {
        let q = v / 0x4000;
        let r2 = v / 0x40 % 0x100;
        let r1 = v % 0x40;
        lemma_div_denominator(v as int, 0x40, 0x100);
        assert(v / 0x40 == 0x100 * (v / 0x40 / 0x100) + r2);
        assert(v / 0x40 / 0x100 == q);
        assert(v == 0x40 * (v / 0x40) + r1);
        assert(v == 0x4000 * q + 0x40 * r2 + r1);
        assert(b[0] == r1 * 4 + 2 && b[1] == r2 && b[2] == q);
        assert(b[0] % 4 == 2);
        assert((b[2] * 0x10000 + b[1] * 0x100 + b[0]) == 4 * v + 2);
        assert((b[2] * 0x10000 + b[1] * 0x100 + b[0]) / 4 == v);
    }
}

/// The sentinel text substituted for a malformed length-prefixed string.
pub open spec fn spec_malformed_sentinel() -> Seq<char> {
    "Error while parsing string!"@
}

/// The executable sentinel text for a malformed length-prefixed string.
pub fn malformed_string_sentinel() -> (r: String)
    ensures
        r@ == spec_malformed_sentinel(),
{
    "Error while parsing string!".to_owned()
}

/// Relies on std's String::from_utf8: it returns the decoded text exactly
/// when the bytes are valid UTF-8 (per vstd's model of UTF-8), and an error
/// otherwise.
#[verifier::external_body]
fn utf8_to_string(bytes: Vec<u8>) -> (r: Option<String>)
    ensures
        match r {
            Some(s) => vstd::utf8::valid_utf8(bytes@) && s@ == vstd::utf8::decode_utf8(bytes@),
            None => !vstd::utf8::valid_utf8(bytes@),
        },
{
    match String::from_utf8(bytes) {
        Ok(s) => Some(s),
        Err(_) => None,
    }
}

/// What a fixed-length text read at position `i` yields: the `n` bytes,
/// decoded as UTF-8; a span that is not valid UTF-8 is fatal here.
pub open spec fn sp_string(b: Seq<u8>, i: int, n: int) -> Result<(Seq<char>, int), DecodeError> {
    match sp_bytes(b, i, n) {
        Ok((bs, j)) => if vstd::utf8::valid_utf8(bs) {
            Ok((vstd::utf8::decode_utf8(bs), j))
        } else {
            Err(DecodeError::MalformedText { offset: i as usize })
        },
        Err(e) => Err(e),
    }
}

/// The text a string span decodes to: its UTF-8 reading, or the sentinel
/// text when the span is not valid UTF-8 (a recoverable condition).
pub open spec fn wstring_text(bs: Seq<u8>) -> Seq<char> {
    if vstd::utf8::valid_utf8(bs) {
        vstd::utf8::decode_utf8(bs)
    } else {
        spec_malformed_sentinel()
    }
}

/// What a length-prefixed string read at position `i` yields: a 16-bit byte
/// count, then that many bytes of text.
pub open spec fn sp_w_string(b: Seq<u8>, i: int) -> Result<(WStringV, int), DecodeError> {
    match sp_u16(b, i) {
        Ok((n, j)) => match sp_bytes(b, j, n as int) {
            Ok((bs, k)) => Ok((WStringV { length: n, content: wstring_text(bs) }, k)),
            Err(e) => Err(e),
        },
        Err(e) => Err(e),
    }
}

/// The length-prefixed string at `i` is readable but its bytes are not valid
/// UTF-8 (the recoverable case that records a warning).
pub open spec fn w_string_malformed(b: Seq<u8>, i: int) -> bool {
    can_read(b, i, 2) && can_read(b, i + 2, le16(b, i) as int) && !vstd::utf8::valid_utf8(
        b.subrange(i + 2, i + 2 + le16(b, i) as int),
    )
}

/// What a packed-identifier read at position `i` resolves to. Three bytes are
/// consumed; the third plays no part in the resolved value (see
/// `spec_form_id`).
pub open spec fn sp_ref_id(b: Seq<u8>, i: int) -> Result<(RefIdType, int), DecodeError> {
    if can_read(b, i, 3) {
        Ok((spec_form_id(b[i], b[i + 1]), i + 3))
    } else {
        Err(oob(i, 3, b.len() as int))
    }
}

/// What a file-timestamp read at position `i` yields: two little-endian
/// 32-bit halves.
pub open spec fn sp_filetime(b: Seq<u8>, i: int) -> Result<(FileTime, int), DecodeError> {
    if can_read(b, i, 8) {
        Ok(
            (
                FileTime { dw_low_date_time: le32(b, i), dw_high_date_time: le32(b, i + 4) },
                i + 8,
            ),
        )
    } else {
        Err(oob(i, 8, b.len() as int))
    }
}

/// `n` consecutive little-endian 32-bit values at position `i`.
pub open spec fn sp_u32s(b: Seq<u8>, i: int, n: nat) -> Result<(Seq<u32>, int), DecodeError> {
    if can_read(b, i, 4 * n as int) {
        Ok((Seq::new(n, |k: int| le32(b, i + 4 * k)), i + 4 * n as int))
    } else {
        Err(oob(i, 4 * n as int, b.len() as int))
    }
}

/// `n` consecutive resolved packed identifiers at position `i`.
pub open spec fn sp_ref_ids(b: Seq<u8>, i: int, n: nat) -> Result<(Seq<RefIdType>, int), DecodeError> {
    if can_read(b, i, 3 * n as int) {
        Ok((Seq::new(n, |k: int| spec_form_id(b[i + 3 * k], b[i + 3 * k + 1])), i + 3 * n as int))
    } else {
        Err(oob(i, 3 * n as int, b.len() as int))
    }
}

/// `n` consecutive length-prefixed strings at position `i`, reduced to their
/// texts.
pub open spec fn sp_w_strings(b: Seq<u8>, i: int, n: nat) -> Result<(Seq<Seq<char>>, int), DecodeError>
    decreases n,
{
    if n == 0 {
        Ok((Seq::empty(), i))
    } else {
        match sp_w_string(b, i) {
            Ok((s, j)) => match sp_w_strings(b, j, (n - 1) as nat) {
                Ok((rest, k)) => Ok((seq![s.content] + rest, k)),
                Err(e) => Err(e),
            },
            Err(e) => Err(e),
        }
    }
}

/// Read a packed identifier (three bytes) and resolve it.
pub fn read_ref_id(sfr: &mut SaveFileReader) -> (r: Result<RefIdType, DecodeError>)
    requires
        old(sfr).wf(),
    ensures
        final(sfr).wf(),
        final(sfr).bytes() == old(sfr).bytes(),
        match sp_ref_id(old(sfr).bytes(), old(sfr).pos()) {
            Ok((v, j)) => r matches Ok(x) && x == v && final(sfr).pos() == j,
            Err(e2) => r matches Err(e) && err_matches(e, e2),
        },
{
    let byte0 = match sfr.read_u8() {
        Ok(v) => v,
        Err(e) => {
            return Err(e);
        },
    };
    let byte1 = match sfr.read_u8() {
        Ok(v) => v,
        Err(e) => {
            return Err(e);
        },
    };
    let byte2 = match sfr.read_u8() {
        Ok(v) => v,
        Err(e) => {
            return Err(e);
        },
    };
    Ok(RefId { byte0, byte1, byte2 }.get_form_id())
}

/// Read a file timestamp: two little-endian 32-bit halves.
pub fn read_filetime(r: &mut SaveFileReader) -> (res: Result<FileTime, DecodeError>)
    requires
        old(r).wf(),
    ensures
        final(r).wf(),
        final(r).bytes() == old(r).bytes(),
        match sp_filetime(old(r).bytes(), old(r).pos()) {
            Ok((v, j)) => res matches Ok(x) && x == v && final(r).pos() == j,
            Err(e2) => res matches Err(e) && err_matches(e, e2),
        },
{
    let dw_low_date_time = match r.read_u32() {
        Ok(v) => v,
        Err(e) => {
            return Err(e);
        },
    };
    let dw_high_date_time = match r.read_u32() {
        Ok(v) => v,
        Err(e) => {
            return Err(e);
        },
    };
    Ok(FileTime { dw_low_date_time, dw_high_date_time })
}

/// Read a variable-width integer and reduce it to its logical value, for use
/// as an array count.
pub fn read_vsval_to_u32(sfr: &mut SaveFileReader, warnings: &mut Vec<Warning>) -> (r: Result<
    u32,
    DecodeError,
>)
    requires
        old(sfr).wf(),
    ensures
        final(sfr).wf(),
        final(sfr).bytes() == old(sfr).bytes(),
        match sp_vsval_u32(old(sfr).bytes(), old(sfr).pos()) {
            Ok((v, j)) => r matches Ok(x) && x == v && final(sfr).pos() == j,
            Err(e2) => r matches Err(e) && err_matches(e, e2),
        },
        final(warnings)@ == if vsval_tag_invalid(old(sfr).bytes(), old(sfr).pos()) {
            old(warnings)@.push(Warning::InvalidVsvalWidth)
        } else {
            old(warnings)@
        },
{
    let v = match sfr.read_vsval(warnings) {
        Ok(v) => v,
        Err(e) => {
            return Err(e);
        },
    };
    match v {
        VSVal::U8(x) => Ok(x as u32),
        VSVal::U16(x) => Ok(x as u32),
        VSVal::U32(x) => Ok(x),
    }
}

/// Read `count` little-endian 32-bit values.
#[verifier::loop_isolation(false)]
pub fn read_u32s_into_vec(save_file_reader: &mut SaveFileReader, count: u32) -> (r: Result<
    Vec<u32>,
    DecodeError,
>)
    requires
        old(save_file_reader).wf(),
    ensures
        final(save_file_reader).wf(),
        final(save_file_reader).bytes() == old(save_file_reader).bytes(),
        match sp_u32s(old(save_file_reader).bytes(), old(save_file_reader).pos(), count as nat) {
            Ok((v, j)) => r matches Ok(x) && x@ == v && final(save_file_reader).pos() == j,
            Err(e2) => r matches Err(e) && err_matches(e, e2),
        },
{
    let ghost b = old(save_file_reader).bytes();
    let ghost i0 = old(save_file_reader).pos();
    let mut vec: Vec<u32> = Vec::new();
    let mut k: u32 = 0;
    while k < count
        invariant
            save_file_reader.wf(),
            save_file_reader.bytes() == b,
            k <= count,
            save_file_reader.pos() == i0 + 4 * k,
            vec@ == Seq::new(k as nat, |t: int| le32(b, i0 + 4 * t)),
        decreases count - k,
    {
        let v = match save_file_reader.read_u32() {
            Ok(v) => v,
            Err(e) => {
                return Err(e);
            },
        };
        vec.push(v);
        k = k + 1;
        proof {
            assert(vec@ =~= Seq::new(k as nat, |t: int| le32(b, i0 + 4 * t)));
        }
    }
    Ok(vec)
}

/// Read `count` packed identifiers and resolve each.
#[verifier::loop_isolation(false)]
pub fn read_ref_ids_into_vec(r: &mut SaveFileReader, count: u32) -> (res: Result<
    Vec<RefIdType>,
    DecodeError,
>)
    requires
        old(r).wf(),
    ensures
        final(r).wf(),
        final(r).bytes() == old(r).bytes(),
        match sp_ref_ids(old(r).bytes(), old(r).pos(), count as nat) {
            Ok((v, j)) => res matches Ok(x) && x@ == v && final(r).pos() == j,
            Err(e2) => res matches Err(e) && err_matches(e, e2),
        },
{
    let ghost b = old(r).bytes();
    let ghost i0 = old(r).pos();
    let mut vec: Vec<RefIdType> = Vec::new();
    let mut k: u32 = 0;
    while k < count
        invariant
            r.wf(),
            r.bytes() == b,
            k <= count,
            r.pos() == i0 + 3 * k,
            vec@ == Seq::new(k as nat, |t: int| spec_form_id(b[i0 + 3 * t], b[i0 + 3 * t + 1])),
        decreases count - k,
    {
        let v = match read_ref_id(r) {
            Ok(v) => v,
            Err(e) => {
                return Err(e);
            },
        };
        vec.push(v);
        k = k + 1;
        proof {
            assert(vec@ =~= Seq::new(
                k as nat,
                |t: int| spec_form_id(b[i0 + 3 * t], b[i0 + 3 * t + 1]),
            ));
        }
    }
    Ok(vec)
}

/// Read `count` length-prefixed strings, keeping their texts.
#[verifier::loop_isolation(false)]
pub fn read_strings_into_vec(
    save_file_reader: &mut SaveFileReader,
    count: u32,
    warnings: &mut Vec<Warning>,
) -> (r: Result<Vec<String>, DecodeError>)
    requires
        old(save_file_reader).wf(),
    ensures
        final(save_file_reader).wf(),
        final(save_file_reader).bytes() == old(save_file_reader).bytes(),
        old(warnings)@.is_prefix_of(final(warnings)@),
        match sp_w_strings(old(save_file_reader).bytes(), old(save_file_reader).pos(), count as nat) {
            Ok((v, j)) => r matches Ok(x) && x.deep_view() == v && final(save_file_reader).pos()
                == j,
            Err(e2) => r matches Err(e) && err_matches(e, e2),
        },
{
    let ghost b = old(save_file_reader).bytes();
    let ghost i0 = old(save_file_reader).pos();
    let mut vec: Vec<String> = Vec::new();
    let mut k: u32 = 0;
    while k < count
        invariant
            save_file_reader.wf(),
            save_file_reader.bytes() == b,
            k <= count,
            old(warnings)@.is_prefix_of(warnings@),
            match sp_w_strings(b, save_file_reader.pos(), (count - k) as nat) {
                Ok((rest, end)) => sp_w_strings(b, i0, count as nat) == Ok::<
                    (Seq<Seq<char>>, int),
                    DecodeError,
                >((vec.deep_view() + rest, end)),
                Err(e) => sp_w_strings(b, i0, count as nat) == Err::<
                    (Seq<Seq<char>>, int),
                    DecodeError,
                >(e),
            },
        decreases count - k,
    {
        let ghost pos_before = save_file_reader.pos();
        let ghost warnings_before = warnings@;
        let s = match save_file_reader.read_w_string(warnings) {
            Ok(v) => v,
            Err(e) => {
                proof {
                    lemma_warning_prefix(old(warnings)@, warnings_before, warnings@);
                }
                return Err(e);
            },
        };
        proof {
            lemma_warning_prefix(old(warnings)@, warnings_before, warnings@);
        }
        let ghost old_vec_view = vec.deep_view();
        vec.push(s.content);
        k = k + 1;
        proof {
            match sp_w_string(b, pos_before) {
                Ok((head, j)) => {
                    assert(vec.deep_view() =~= old_vec_view.push(head.content));
                    match sp_w_strings(b, j, (count - k) as nat) {
                        Ok((rest, end)) => {
                            assert(old_vec_view + (seq![head.content] + rest) =~= vec.deep_view()
                                + rest);
                        },
                        Err(_) => {},
                    }
                },
                Err(_) => {
                    assert(false);
                },
            }
        }
    }
    proof {
        assert(vec.deep_view() + Seq::<Seq<char>>::empty() =~= vec.deep_view());
    }
    Ok(vec)
}

/// A warning list that has grown once and then again still extends the
/// original list.
pub proof fn lemma_warning_prefix(a: Seq<Warning>, b: Seq<Warning>, c: Seq<Warning>)
    requires
        a.is_prefix_of(b),
        b == c || c == b.push(Warning::InvalidVsvalWidth) || c == b.push(
            Warning::MalformedString,
        ) || b.is_prefix_of(c),
    ensures
        a.is_prefix_of(c),
{
    assert(a =~= c.subrange(0, a.len() as int));
}

/// `func` can return this element on some cursor state: what is known of
/// each element that the generic element loop collects.
pub open spec fn func_can_return<T, F: Fn(&mut SaveFileReader) -> Result<T, DecodeError>>(
    func: F,
    item: T,
) -> bool {
    exists|s: &mut SaveFileReader| #[trigger] call_ensures(func, (s,), Ok::<T, DecodeError>(item))
}

/// Call `func` on the cursor `count` times, collecting the results: the
/// generic element loop behind the typed array readers. `func` must accept
/// any well-formed cursor and give back a well-formed cursor over the same
/// buffer; on success exactly `count` elements come back, each an outcome
/// that `func` can return on some cursor state.
#[verifier::loop_isolation(false)]
pub fn read_into_vec<T, F: Fn(&mut SaveFileReader) -> Result<T, DecodeError>>(
    arg: &mut SaveFileReader,
    count: u32,
    func: F,
) -> (r: Result<Vec<T>, DecodeError>)
    requires
        old(arg).wf(),
        forall|s: &mut SaveFileReader|
            mut_ref_current(s).wf() ==> #[trigger] call_requires(func, (s,)),
        forall|s: &mut SaveFileReader, o: Result<T, DecodeError>|
            mut_ref_current(s).wf() && #[trigger] call_ensures(func, (s,), o)
                ==> mut_ref_future(s).wf() && mut_ref_future(s).bytes() == mut_ref_current(
                s,
            ).bytes(),
    ensures
        final(arg).wf(),
        final(arg).bytes() == old(arg).bytes(),
        r matches Ok(v) ==> v@.len() == count && forall|k: int|
            0 <= k < count ==> #[trigger] func_can_return(func, v@[k]),
{
    let mut vec: Vec<T> = Vec::new();
    let mut k: u32 = 0;
    while k < count
        invariant
            arg.wf(),
            arg.bytes() == old(arg).bytes(),
            k <= count,
            vec@.len() == k,
            forall|t: int| 0 <= t < k ==> #[trigger] func_can_return(func, vec@[t]),
        decreases count - k,
    {
        let item = match func(arg) {
            Ok(v) => v,
            Err(e) => {
                return Err(e);
            },
        };
        proof {
            assert(func_can_return(func, item));
        }
        vec.push(item);
        k = k + 1;
        proof {
            assert(vec@[k as int - 1] == item);
        }
    }
    Ok(vec)
}


/// A length-prefixed string read is unaffected by bytes past its end, and on
/// a buffer cut short of its end it fails with an out-of-bounds error rather
/// than reading past the cut.
pub proof fn lemma_w_string_truncated(b: Seq<u8>, i: int, m: int)
    requires
        0 <= i,
        0 <= m <= b.len(),
    ensures
        (sp_w_string(b, i) matches Ok((v, j)) && j <= m) ==> sp_w_string(b.take(m), i)
            == sp_w_string(b, i),
        (sp_w_string(b, i) matches Ok((v, j)) && i <= m < j) ==> (sp_w_string(b.take(m), i)
            matches Err(e) && e matches DecodeError::OutOfBounds { .. }),
        sp_w_string(b, i) matches Ok((v, j)) ==> i + 2 <= j,
{
    match sp_w_string(b, i) {
        Ok((v, j)) => {
            let n = le16(b, i) as int;
            if j <= m {
                assert(b.take(m).subrange(i + 2, i + 2 + n) =~= b.subrange(i + 2, i + 2 + n));
            }
        },
        Err(_) => {},
    }
}

/// A successfully decoded run of length-prefixed strings never moves the
/// position backwards.
pub proof fn lemma_w_strings_advance(b: Seq<u8>, i: int, n: nat)
    ensures
        sp_w_strings(b, i, n) matches Ok((v, j)) ==> i <= j,
    decreases n,
{
    if n > 0 {
        match sp_w_string(b, i) {
            Ok((h, j1)) => {
                lemma_w_strings_advance(b, j1, (n - 1) as nat);
            },
            Err(_) => {},
        }
    }
}

/// A run of length-prefixed strings is unaffected by bytes past its end, and
/// on a buffer cut short of its end it fails with an out-of-bounds error.
pub proof fn lemma_w_strings_truncated(b: Seq<u8>, i: int, m: int, n: nat)
    requires
        0 <= i,
        0 <= m <= b.len(),
    ensures
        (sp_w_strings(b, i, n) matches Ok((v, j)) && j <= m) ==> sp_w_strings(b.take(m), i, n)
            == sp_w_strings(b, i, n),
        (sp_w_strings(b, i, n) matches Ok((v, j)) && i <= m < j) ==> (sp_w_strings(b.take(m), i, n)
            matches Err(e) && e matches DecodeError::OutOfBounds { .. }),
        sp_w_strings(b, i, n) matches Ok((v, j)) ==> i <= j,
    decreases n,
{
    if n > 0 {
        match sp_w_strings(b, i, n) {
            Err(_) => {},
            Ok((v, j)) => {
                match sp_w_string(b, i) {
                    Ok((head, j1)) => {
                        lemma_w_string_truncated(b, i, m);
                        lemma_w_strings_advance(b, j1, (n - 1) as nat);
                        if m < j1 {
                            if i <= m {
                                assert(sp_w_strings(b.take(m), i, n) matches Err(e) && e
                                    matches DecodeError::OutOfBounds { .. });
                            }
                        } else {
                            assert(sp_w_string(b.take(m), i) == sp_w_string(b, i));
                            lemma_w_strings_truncated(b, j1, m, (n - 1) as nat);
                            match sp_w_strings(b, j1, (n - 1) as nat) {
                                Ok((rest, jr)) => {
                                    if jr <= m {
                                        assert(sp_w_strings(b.take(m), i, n) == sp_w_strings(
                                            b,
                                            i,
                                            n,
                                        ));
                                    }
                                },
                                Err(_) => {},
                            }
                        }
                    },
                    Err(_) => {},
                }
            },
        }
    }
}

/// A run of 32-bit values is unaffected by bytes past its end, and on a
/// buffer cut short of its end it fails with an out-of-bounds error.
pub proof fn lemma_u32s_truncated(b: Seq<u8>, i: int, m: int, n: nat)
    requires
        0 <= i,
        0 <= m <= b.len(),
    ensures
        (sp_u32s(b, i, n) matches Ok((v, j)) && j <= m) ==> sp_u32s(b.take(m), i, n) == sp_u32s(
            b,
            i,
            n,
        ),
        (sp_u32s(b, i, n) matches Ok((v, j)) && i <= m < j) ==> (sp_u32s(b.take(m), i, n) matches Err(e)
            && e matches DecodeError::OutOfBounds { .. }),
        sp_u32s(b, i, n) matches Ok((v, j)) ==> i <= j,
{
    match sp_u32s(b, i, n) {
        Ok((v, j)) => {
            if j <= m {
                assert(Seq::new(n, |k: int| le32(b.take(m), i + 4 * k)) =~= Seq::new(
                    n,
                    |k: int| le32(b, i + 4 * k),
                ));
            }
        },
        Err(_) => {},
    }
}

} // verus!
