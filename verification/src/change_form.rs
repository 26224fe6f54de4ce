//! The change-form table: a sequence of polymorphic-length records, each
//! describing the delta state of one object instance. Each entry carries a
//! packed identifier, change flags, a combined (length-width, type) byte, a
//! version byte, one or two length fields whose width the combined byte's
//! high bits select, and a payload that is either raw or zlib-compressed.
//! Payload internals are per-object-type and out of scope: they are kept as
//! an opaque byte span.

use vstd::prelude::*;

use crate::compression::{zlib_decompress, zlib_decompressed};
use crate::error::DecodeError;
use crate::fundamental_types::RefIdType;
use crate::reader::{
    can_read, err_matches, le_bytes_u16, le_bytes_u32, sp_bytes, sp_ref_id, sp_u32, sp_u8,
    read_ref_id, SaveFileReader,
};

verus! {

/// One decoded change form. The two length fields are kept as the
/// little-endian bytes they were stored in; `data` is the raw payload when
/// `length2` was zero, else the decompressed payload of exactly the size
/// `length2` declared.
#[derive(Clone, Debug)]
pub struct ChangeForm {
    pub form_id: RefIdType,
    pub change_flags: u32,
    pub data_type: u8,
    pub version: u8,
    pub length1: Vec<u8>,
    pub length2: Vec<u8>,
    pub data: Vec<u8>,
}

/// The spec-level model of a `ChangeForm`.
pub struct ChangeFormV {
    pub form_id: RefIdType,
    pub change_flags: u32,
    pub data_type: u8,
    pub version: u8,
    pub length1: Seq<u8>,
    pub length2: Seq<u8>,
    pub data: Seq<u8>,
}

impl DeepView for ChangeForm {
    type V = ChangeFormV;

    open spec fn deep_view(&self) -> ChangeFormV {
        ChangeFormV {
            form_id: self.form_id,
            change_flags: self.change_flags,
            data_type: self.data_type,
            version: self.version,
            length1: self.length1@,
            length2: self.length2@,
            data: self.data@,
        }
    }
}

/// What a change-form payload read yields: `len1` stored bytes, taken raw
/// when `len2` is zero, else inflated and held to exactly `len2` bytes.
pub open spec fn sp_cf_payload(b: Seq<u8>, i: int, len1: int, len2: int) -> Result<
    (Seq<u8>, int),
    DecodeError,
> {
    match sp_bytes(b, i, len1) {
        Ok((raw, j)) => if len2 == 0 {
            Ok((raw, j))
        } else {
            match zlib_decompressed(raw) {
                Some(out) => if out.len() == len2 {
                    Ok((out, j))
                } else {
                    Err(
                        DecodeError::DecompressSizeMismatch {
                            expected: len2 as usize,
                            actual: out.len() as usize,
                        },
                    )
                },
                None => Err(DecodeError::DecompressFailed),
            }
        },
        Err(e) => Err(e),
    }
}

/// Assemble one change form once its header fields and length fields are
/// known: read the payload and build the record.
pub open spec fn sp_cf_finish(
    b: Seq<u8>,
    i: int,
    form_id: RefIdType,
    change_flags: u32,
    data_type: u8,
    version: u8,
    len1: int,
    len2: int,
    len1_bytes: Seq<u8>,
    len2_bytes: Seq<u8>,
) -> Result<(ChangeFormV, int), DecodeError> {
    match sp_cf_payload(b, i, len1, len2) {
        Ok((data, j)) => Ok(
            (
                ChangeFormV {
                    form_id,
                    change_flags,
                    data_type,
                    version,
                    length1: len1_bytes,
                    length2: len2_bytes,
                    data,
                },
                j,
            ),
        ),
        Err(e) => Err(e),
    }
}

/// What one change-form entry at position `i` decodes to: identifier, change
/// flags, combined byte, version, then the two length fields at the width the
/// combined byte's high bits select (0 → one byte, 64 → two, 128 → four; any
/// other value is format-fatal), then the payload.
#[verifier::opaque]
pub open spec fn sp_change_form(b: Seq<u8>, i: int) -> Result<(ChangeFormV, int), DecodeError> {
    match sp_ref_id(b, i) {
        Ok((form_id, i1)) => match sp_u32(b, i1) {
            Ok((change_flags, i2)) => match sp_u8(b, i2) {
                Ok((data_type, i3)) => match sp_u8(b, i3) {
                    Ok((version, i4)) => {
                        let selector = data_type & 0xc0;
                        if selector == 0 {
                            match sp_u8(b, i4) {
                                Ok((l1, i5)) => match sp_u8(b, i5) {
                                    Ok((l2, i6)) => sp_cf_finish(
                                        b,
                                        i6,
                                        form_id,
                                        change_flags,
                                        data_type,
                                        version,
                                        l1 as int,
                                        l2 as int,
                                        seq![l1],
                                        seq![l2],
                                    ),
                                    Err(e) => Err(e),
                                },
                                Err(e) => Err(e),
                            }
                        } else if selector == 64 {
                            match crate::reader::sp_u16(b, i4) {
                                Ok((l1, i5)) => match crate::reader::sp_u16(b, i5) {
                                    Ok((l2, i6)) => sp_cf_finish(
                                        b,
                                        i6,
                                        form_id,
                                        change_flags,
                                        data_type,
                                        version,
                                        l1 as int,
                                        l2 as int,
                                        le_bytes_u16(l1),
                                        le_bytes_u16(l2),
                                    ),
                                    Err(e) => Err(e),
                                },
                                Err(e) => Err(e),
                            }
                        } else if selector == 128 {
                            match sp_u32(b, i4) {
                                Ok((l1, i5)) => match sp_u32(b, i5) {
                                    Ok((l2, i6)) => sp_cf_finish(
                                        b,
                                        i6,
                                        form_id,
                                        change_flags,
                                        data_type,
                                        version,
                                        l1 as int,
                                        l2 as int,
                                        le_bytes_u32(l1),
                                        le_bytes_u32(l2),
                                    ),
                                    Err(e) => Err(e),
                                },
                                Err(e) => Err(e),
                            }
                        } else {
                            Err(DecodeError::InvalidLengthWidth { value: data_type })
                        }
                    },
                    Err(e) => Err(e),
                },
                Err(e) => Err(e),
            },
            Err(e) => Err(e),
        },
        Err(e) => Err(e),
    }
}

/// What `n` consecutive change-form entries at position `i` decode to.
pub open spec fn sp_change_forms(b: Seq<u8>, i: int, n: nat) -> Result<
    (Seq<ChangeFormV>, int),
    DecodeError,
>
    decreases n,
{
    if n == 0 {
        Ok((Seq::empty(), i))
    } else {
        match sp_change_form(b, i) {
            Ok((v, j)) => match sp_change_forms(b, j, (n - 1) as nat) {
                Ok((rest, k)) => Ok((seq![v] + rest, k)),
                Err(e) => Err(e),
            },
            Err(e) => Err(e),
        }
    }
}

/// Read a change-form payload: `len1` stored bytes, raw when `len2` is zero,
/// else inflated and held to exactly `len2` bytes.
fn read_cf_payload(sfr: &mut SaveFileReader, len1: usize, len2: usize) -> (r: Result<
    Vec<u8>,
    DecodeError,
>)
    requires
        old(sfr).wf(),
    ensures
        final(sfr).wf(),
        final(sfr).bytes() == old(sfr).bytes(),
        match sp_cf_payload(old(sfr).bytes(), old(sfr).pos(), len1 as int, len2 as int) {
            Ok((v, j)) => r matches Ok(x) && x@ == v && final(sfr).pos() == j,
            Err(e2) => r matches Err(e) && err_matches(e, e2),
        },
{
    let raw = match sfr.read_bytes_to_vec(len1) {
        Ok(v) => v,
        Err(e) => {
            return Err(e);
        },
    };
    if len2 == 0 {
        Ok(raw)
    } else {
        match zlib_decompress(raw.as_slice()) {
            Some(out) => if out.len() == len2 {
                Ok(out)
            } else {
                Err(DecodeError::DecompressSizeMismatch { expected: len2, actual: out.len() })
            },
            None => Err(DecodeError::DecompressFailed),
        }
    }
}

/// Read one change-form entry.
pub fn read_change_form(sfr: &mut SaveFileReader) -> (r: Result<ChangeForm, DecodeError>)
    requires
        old(sfr).wf(),
    ensures
        final(sfr).wf(),
        final(sfr).bytes() == old(sfr).bytes(),
        match sp_change_form(old(sfr).bytes(), old(sfr).pos()) {
            Ok((v, j)) => r matches Ok(x) && x.deep_view() == v && final(sfr).pos() == j,
            Err(e2) => r matches Err(e) && err_matches(e, e2),
        },
{
    proof {
        reveal(sp_change_form);
    }
    let form_id = match read_ref_id(sfr) {
        Ok(v) => v,
        Err(e) => {
            return Err(e);
        },
    };
    let change_flags = match sfr.read_u32() {
        Ok(v) => v,
        Err(e) => {
            return Err(e);
        },
    };
    let data_type = match sfr.read_u8() {
        Ok(v) => v,
        Err(e) => {
            return Err(e);
        },
    };
    let data_length_val = data_type & 0xc0;
    let version = match sfr.read_u8() {
        Ok(v) => v,
        Err(e) => {
            return Err(e);
        },
    };
    if data_length_val == 0 {
        let length1 = match sfr.read_u8() {
            Ok(v) => v,
            Err(e) => {
                return Err(e);
            },
        };
        let length2 = match sfr.read_u8() {
            Ok(v) => v,
            Err(e) => {
                return Err(e);
            },
        };
        let data = match read_cf_payload(sfr, length1 as usize, length2 as usize) {
            Ok(v) => v,
            Err(e) => {
                return Err(e);
            },
        };
        let length1_bytes = vec![length1];
        let length2_bytes = vec![length2];
        proof {
            assert(length1_bytes@ =~= seq![length1]);
            assert(length2_bytes@ =~= seq![length2]);
        }
        Ok(
            ChangeForm {
                form_id,
                change_flags,
                data_type,
                version,
                length1: length1_bytes,
                length2: length2_bytes,
                data,
            },
        )
    } else if data_length_val == 64 {
        let length1 = match sfr.read_u16() {
            Ok(v) => v,
            Err(e) => {
                return Err(e);
            },
        };
        let length2 = match sfr.read_u16() {
            Ok(v) => v,
            Err(e) => {
                return Err(e);
            },
        };
        let data = match read_cf_payload(sfr, length1 as usize, length2 as usize) {
            Ok(v) => v,
            Err(e) => {
                return Err(e);
            },
        };
        let length1_bytes = vec![(length1 % 0x100) as u8, (length1 / 0x100) as u8];
        let length2_bytes = vec![(length2 % 0x100) as u8, (length2 / 0x100) as u8];
        proof {
            assert(length1_bytes@ =~= le_bytes_u16(length1));
            assert(length2_bytes@ =~= le_bytes_u16(length2));
        }
        Ok(
            ChangeForm {
                form_id,
                change_flags,
                data_type,
                version,
                length1: length1_bytes,
                length2: length2_bytes,
                data,
            },
        )
    } else if data_length_val == 128 {
        let length1 = match sfr.read_u32() {
            Ok(v) => v,
            Err(e) => {
                return Err(e);
            },
        };
        let length2 = match sfr.read_u32() {
            Ok(v) => v,
            Err(e) => {
                return Err(e);
            },
        };
        let data = match read_cf_payload(sfr, length1 as usize, length2 as usize) {
            Ok(v) => v,
            Err(e) => {
                return Err(e);
            },
        };
        let length1_bytes = vec![
            (length1 % 0x100) as u8,
            (length1 / 0x100 % 0x100) as u8,
            (length1 / 0x10000 % 0x100) as u8,
            (length1 / 0x1000000) as u8,
        ];
        let length2_bytes = vec![
            (length2 % 0x100) as u8,
            (length2 / 0x100 % 0x100) as u8,
            (length2 / 0x10000 % 0x100) as u8,
            (length2 / 0x1000000) as u8,
        ];
        proof {
            assert(length1_bytes@ =~= le_bytes_u32(length1));
            assert(length2_bytes@ =~= le_bytes_u32(length2));
        }
        Ok(
            ChangeForm {
                form_id,
                change_flags,
                data_type,
                version,
                length1: length1_bytes,
                length2: length2_bytes,
                data,
            },
        )
    } else {
        Err(DecodeError::InvalidLengthWidth { value: data_type })
    }
}

/// Read `count` change-form entries.
#[verifier::loop_isolation(false)]
pub fn read_change_forms(sfr: &mut SaveFileReader, count: u32) -> (r: Result<
    Vec<ChangeForm>,
    DecodeError,
>)
    requires
        old(sfr).wf(),
    ensures
        final(sfr).wf(),
        final(sfr).bytes() == old(sfr).bytes(),
        match sp_change_forms(old(sfr).bytes(), old(sfr).pos(), count as nat) {
            Ok((v, j)) => r matches Ok(x) && x.deep_view() == v && final(sfr).pos() == j,
            Err(e2) => r matches Err(e) && err_matches(e, e2),
        },
{
    let ghost b = old(sfr).bytes();
    let ghost i0 = old(sfr).pos();
    let mut result: Vec<ChangeForm> = Vec::new();
    let mut k: u32 = 0;
    while k < count
        invariant
            sfr.wf(),
            sfr.bytes() == b,
            k <= count,
            match sp_change_forms(b, sfr.pos(), (count - k) as nat) {
                Ok((rest, end)) => sp_change_forms(b, i0, count as nat) == Ok::<
                    (Seq<ChangeFormV>, int),
                    DecodeError,
                >((result.deep_view() + rest, end)),
                Err(e) => sp_change_forms(b, i0, count as nat) == Err::<
                    (Seq<ChangeFormV>, int),
                    DecodeError,
                >(e),
            },
        decreases count - k,
    {
        let ghost pos_before = sfr.pos();
        let cf = match read_change_form(sfr) {
            Ok(v) => v,
            Err(e) => {
                return Err(e);
            },
        };
        let ghost old_view = result.deep_view();
        result.push(cf);
        k = k + 1;
        proof {
            match sp_change_form(b, pos_before) {
                Ok((head, j)) => {
                    assert(result.deep_view() =~= old_view.push(head));
                    match sp_change_forms(b, j, (count - k) as nat) {
                        Ok((rest, end)) => {
                            assert(old_view + (seq![head] + rest) =~= result.deep_view() + rest);
                        },
                        Err(_) => {},
                    }
                },
                Err(_) => {
                    assert(false);
                },
            }
        }
    }
    proof {
        assert(result.deep_view() + Seq::<ChangeFormV>::empty() =~= result.deep_view());
    }
    Ok(result)
}

/// Law: the combined byte's high bits select the width of the two length
/// fields — 0 gives one-byte lengths, 64 two-byte lengths, 128 four-byte
/// lengths — and any other value is the fatal invalid-length-width error.
pub proof fn lemma_change_form_length_width(b: Seq<u8>, i: int)
    requires
        can_read(b, i, 9),
    ensures
        ({
            let sel = b[i + 7] & 0xc0;
            &&& (sel != 0 && sel != 64 && sel != 128) ==> sp_change_form(b, i) == Err::<
                (ChangeFormV, int),
                DecodeError,
            >(DecodeError::InvalidLengthWidth { value: b[i + 7] })
            &&& sel == 0 ==> (sp_change_form(b, i) matches Ok((v, _)) ==> v.length1.len() == 1
                && v.length2.len() == 1)
            &&& sel == 64 ==> (sp_change_form(b, i) matches Ok((v, _)) ==> v.length1.len() == 2
                && v.length2.len() == 2)
            &&& sel == 128 ==> (sp_change_form(b, i) matches Ok((v, _)) ==> v.length1.len() == 4
                && v.length2.len() == 4)
        }),
{
    reveal(sp_change_form);
}

/// A change-form payload read is unaffected by bytes past its end, and on a
/// buffer cut short of its end it fails with an out-of-bounds error rather
/// than reading past the cut.
pub proof fn lemma_cf_payload_truncated(b: Seq<u8>, i: int, m: int, len1: int, len2: int)
    requires
        0 <= i,
        0 <= len1,
        0 <= m <= b.len(),
    ensures
        (sp_cf_payload(b, i, len1, len2) matches Ok((v, j)) && j <= m) ==> sp_cf_payload(
            b.take(m),
            i,
            len1,
            len2,
        ) == sp_cf_payload(b, i, len1, len2),
        (sp_cf_payload(b, i, len1, len2) matches Ok((v, j)) && m < j) ==> (sp_cf_payload(
            b.take(m),
            i,
            len1,
            len2,
        ) matches Err(e) && e matches DecodeError::OutOfBounds { .. }),
{
    match sp_cf_payload(b, i, len1, len2) {
        Ok((v, j)) => {
            if j <= m {
                assert(b.take(m).subrange(i, i + len1) =~= b.subrange(i, i + len1));
            }
        },
        Err(_) => {},
    }
}

/// A change-form entry read is unaffected by bytes past its end, and on a
/// buffer cut short anywhere before its end it fails with an out-of-bounds
/// error rather than reading past the cut.
pub proof fn lemma_change_form_truncated(b: Seq<u8>, i: int, m: int)
    requires
        0 <= i,
        0 <= m <= b.len(),
    ensures
        (sp_change_form(b, i) matches Ok((v, j)) && j <= m) ==> sp_change_form(b.take(m), i)
            == sp_change_form(b, i),
        (sp_change_form(b, i) matches Ok((v, j)) && i <= m < j) ==> (sp_change_form(b.take(m), i)
            matches Err(e) && e matches DecodeError::OutOfBounds { .. }),
        sp_change_form(b, i) matches Ok((v, j)) ==> i + 9 <= j,
{
    reveal(sp_change_form);
    let b2 = b.take(m);
    match sp_change_form(b, i) {
        Err(_) => {},
        Ok((v, j)) => {
        // The header fields: identifier (3 bytes), change flags (4), combined
        // byte (1), version (1), then the two length fields at the selected
        // width, then the payload. Every read sits in the contiguous span
        // [i, j), so a cut at m either leaves a read whole (same bytes) or
        // cuts it (out of bounds).
        if m < i + 9 {
            assert(i <= m ==> (sp_change_form(b2, i) matches Err(e) && e
                matches DecodeError::OutOfBounds { .. }));
        } else {
            let data_type = b[i + 7];
            let selector = data_type & 0xc0;
            let i4 = i + 9;
            if selector == 0 {
                if m < i4 + 2 {
                    assert(sp_change_form(b2, i) matches Err(e) && e
                        matches DecodeError::OutOfBounds { .. });
                } else {
                    lemma_cf_payload_truncated(b, i4 + 2, m, b[i4] as int, b[i4 + 1] as int);
                }
            } else if selector == 64 {
                if m < i4 + 4 {
                    assert(sp_change_form(b2, i) matches Err(e) && e
                        matches DecodeError::OutOfBounds { .. });
                } else {
                    lemma_cf_payload_truncated(
                        b,
                        i4 + 4,
                        m,
                        crate::reader::le16(b, i4) as int,
                        crate::reader::le16(b, i4 + 2) as int,
                    );
                }
            } else if selector == 128 {
                if m < i4 + 8 {
                    assert(sp_change_form(b2, i) matches Err(e) && e
                        matches DecodeError::OutOfBounds { .. });
                } else {
                    lemma_cf_payload_truncated(
                        b,
                        i4 + 8,
                        m,
                        crate::reader::le32(b, i4) as int,
                        crate::reader::le32(b, i4 + 4) as int,
                    );
                }
            }
        }
        },
    }
}

/// A successfully decoded change form advances the position past its fixed
/// header fields.
pub proof fn lemma_change_form_advance(b: Seq<u8>, i: int)
    ensures
        sp_change_form(b, i) matches Ok((v, j)) ==> i + 9 <= j,
{
    reveal(sp_change_form);
}

/// A successfully decoded run of change forms never moves the position
/// backwards.
pub proof fn lemma_change_forms_advance(b: Seq<u8>, i: int, n: nat)
    ensures
        sp_change_forms(b, i, n) matches Ok((v, j)) ==> i <= j,
    decreases n,
{
    if n > 0 {
        match sp_change_form(b, i) {
            Ok((h, j1)) => {
                lemma_change_form_advance(b, i);
                lemma_change_forms_advance(b, j1, (n - 1) as nat);
            },
            Err(_) => {},
        }
    }
}

/// Law (bounds safety): when a run of change forms decodes successfully,
/// cutting the buffer anywhere before the end of that run makes the decode
/// fail with an out-of-bounds error — never a read past the cut — and
/// cutting at or after its end does not disturb it.
#[verifier::rlimit(100)]
pub proof fn lemma_change_forms_truncated(b: Seq<u8>, i: int, m: int, n: nat)
    requires
        0 <= i,
        0 <= m <= b.len(),
    ensures
        (sp_change_forms(b, i, n) matches Ok((v, j)) && j <= m) ==> sp_change_forms(
            b.take(m),
            i,
            n,
        ) == sp_change_forms(b, i, n),
        (sp_change_forms(b, i, n) matches Ok((v, j)) && i <= m < j) ==> (sp_change_forms(
            b.take(m),
            i,
            n,
        ) matches Err(e) && e matches DecodeError::OutOfBounds { .. }),
    decreases n,
{
    if n > 0 {
        match sp_change_forms(b, i, n) {
            Err(_) => {},
            Ok((v, j)) => {
                match sp_change_form(b, i) {
                    Ok((head, j1)) => {
                        lemma_change_form_advance(b, i);
                        lemma_change_forms_advance(b, j1, (n - 1) as nat);
                        lemma_change_form_truncated(b, i, m);
                        if m < j1 {
                            // The head itself is cut: j1 <= j, so m < j too,
                            // and the cut head fails out of bounds (when the
                            // cut is not before the start to begin with).
                            if i <= m {
                                assert(sp_change_forms(b.take(m), i, n) matches Err(e) && e
                                    matches DecodeError::OutOfBounds { .. });
                            }
                        } else {
                            // The head is whole on the cut buffer; recurse on
                            // the tail.
                            assert(sp_change_form(b.take(m), i) == sp_change_form(b, i));
                            lemma_change_forms_truncated(b, j1, m, (n - 1) as nat);
                            match sp_change_forms(b, j1, (n - 1) as nat) {
                                Ok((rest, jr)) => {
                                    if jr <= m {
                                        assert(sp_change_forms(b.take(m), j1, (n - 1) as nat)
                                            == sp_change_forms(b, j1, (n - 1) as nat));
                                        assert(sp_change_forms(b.take(m), i, n)
                                            == sp_change_forms(b, i, n));
                                    }
                                },
                                Err(_) => {},
                            }
                        }
                    },
                    Err(_) => {},
                }
            },
        }
    }
}

/// Law: a change form whose second length field is zero carries a raw payload
/// of exactly `length1` bytes; one with a nonzero second length carries a
/// payload that the zlib codec inflated to exactly `length2` bytes; and a
/// compressed span that inflates to a different size than declared is the
/// fatal size-mismatch error.
pub proof fn lemma_change_form_payload(b: Seq<u8>, i: int, len1: int, len2: int)
    ensures
        sp_cf_payload(b, i, len1, len2) matches Ok((data, j)) ==> j == i + len1 && (if len2 == 0 {
            data =~= b.subrange(i, i + len1) && data.len() == len1
        } else {
            data.len() == len2 && zlib_decompressed(b.subrange(i, i + len1)) == Some(data)
        }),
        (can_read(b, i, len1) && len2 != 0 && (zlib_decompressed(b.subrange(i, i + len1))
            matches Some(out) && out.len() != len2)) ==> sp_cf_payload(b, i, len1, len2) == Err::<
            (Seq<u8>, int),
            DecodeError,
        >(
            DecodeError::DecompressSizeMismatch {
                expected: len2 as usize,
                actual: zlib_decompressed(b.subrange(i, i + len1))->Some_0.len() as usize,
            },
        ),
{
}

} // verus!
