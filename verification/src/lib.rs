//! A verified decoder for the TESV save-game container: a single flat byte
//! buffer is decoded, in one strictly sequential pass, into a structured,
//! immutable aggregate. The decoder is read-only (no encoder is provided),
//! bounds-safe on every read, and reports malformed input through a
//! format-fatal error type while collecting recoverable anomalies as a
//! structured warning list on the result.
//!
//! Every decoding step has a spec-level twin over the byte sequence, and the
//! top-level `parse_save_file` is proved to return exactly what the
//! spec-level parse of the whole buffer says, for every input.

use vstd::prelude::*;

pub mod change_form;
pub mod compression;
pub mod error;
pub mod fundamental_types;
pub mod global_data;
pub mod header;
pub mod reader;

pub use change_form::ChangeForm;
pub use error::{DecodeError, Warning};
pub use fundamental_types::{F32Bits, FileTime, RefId, RefIdType, VSVal, WString, WStringV};
pub use global_data::{GlobalDataType, GlobalDataV};
pub use header::{Header, HeaderV};
pub use reader::SaveFileReader;

use crate::change_form::{sp_change_forms, read_change_forms, ChangeFormV};
use crate::compression::{lz4_block_decompressed, lz4_decompress};
use crate::global_data::sp_global_records;
use crate::header::{lemma_header_truncated, sp_header, read_header};
use crate::reader::{
    can_read, err_matches, le32, sp_bytes, sp_string, sp_u16, sp_u32, sp_u32s, sp_u8,
    sp_w_strings, read_strings_into_vec, read_u32s_into_vec,
};

verus! {

/// The screenshot embedded in the header region: its dimensions and its raw
/// RGBA bytes (4 bytes per pixel), sized by the header's dimensions rather
/// than by a length prefix of its own.
#[derive(Clone, Debug)]
pub struct ScreenshotData {
    pub height: u32,
    pub width: u32,
    pub data: Vec<u8>,
}

/// The spec-level model of a `ScreenshotData`.
pub struct ScreenshotDataV {
    pub height: u32,
    pub width: u32,
    pub data: Seq<u8>,
}

impl DeepView for ScreenshotData {
    type V = ScreenshotDataV;

    open spec fn deep_view(&self) -> ScreenshotDataV {
        ScreenshotDataV { height: self.height, width: self.width, data: self.data@ }
    }
}

/// The fixed-shape table of section offsets and record counts describing the
/// decompressed body. The offsets are informational: decoding proceeds in
/// fixed stream order and never seeks by them.
#[derive(Clone, Copy, Debug, PartialEq, Eq, Structural)]
pub struct FileLocationTable {
    pub form_id_array_count_offset: u32,
    pub unknown_table_3_offset: u32,
    pub global_data_table_1_offset: u32,
    pub global_data_table_2_offset: u32,
    pub change_forms_offset: u32,
    pub global_data_table_3_offset: u32,
    pub global_data_table_1_count: u32,
    pub global_data_table_2_count: u32,
    pub global_data_table_3_count: u32,
    pub change_form_count: u32,
}

/// The root aggregate: the whole container, fully decoded, plus the warnings
/// collected for recoverable anomalies met along the way. Built once by
/// `parse_save_file` and immutable thereafter.
#[derive(Clone, Debug)]
pub struct SaveFile {
    pub magic: String,
    pub header: Header,
    pub screenshot_data: ScreenshotData,
    pub body_uncompressed_len: u32,
    pub body_compressed_len: u32,
    pub form_version: u8,
    pub plugin_info: Vec<String>,
    pub light_plugin_info: Vec<String>,
    pub file_location_table: FileLocationTable,
    pub global_data_table_1: Vec<GlobalDataType>,
    pub global_data_table_2: Vec<GlobalDataType>,
    pub change_forms: Vec<ChangeForm>,
    pub global_data_table_3: Vec<GlobalDataType>,
    pub form_id_array: Vec<u32>,
    pub visited_worldspace_array: Vec<u32>,
    pub unknown_3_table: Vec<String>,
    /// The recoverable anomalies met during decode, in stream order. Empty
    /// exactly when the container decoded cleanly.
    pub warnings: Vec<Warning>,
}

/// The spec-level model of a `SaveFile`: the decoded structure. The warning
/// list is a diagnostic channel and not part of the model.
pub struct SaveFileV {
    pub magic: Seq<char>,
    pub header: HeaderV,
    pub screenshot_data: ScreenshotDataV,
    pub body_uncompressed_len: u32,
    pub body_compressed_len: u32,
    pub form_version: u8,
    pub plugin_info: Seq<Seq<char>>,
    pub light_plugin_info: Seq<Seq<char>>,
    pub file_location_table: FileLocationTable,
    pub global_data_table_1: Seq<GlobalDataV>,
    pub global_data_table_2: Seq<GlobalDataV>,
    pub change_forms: Seq<ChangeFormV>,
    pub global_data_table_3: Seq<GlobalDataV>,
    pub form_id_array: Seq<u32>,
    pub visited_worldspace_array: Seq<u32>,
    pub unknown_3_table: Seq<Seq<char>>,
}

impl DeepView for SaveFile {
    type V = SaveFileV;

    open spec fn deep_view(&self) -> SaveFileV {
        SaveFileV {
            magic: self.magic@,
            header: self.header.deep_view(),
            screenshot_data: self.screenshot_data.deep_view(),
            body_uncompressed_len: self.body_uncompressed_len,
            body_compressed_len: self.body_compressed_len,
            form_version: self.form_version,
            plugin_info: self.plugin_info.deep_view(),
            light_plugin_info: self.light_plugin_info.deep_view(),
            file_location_table: self.file_location_table,
            global_data_table_1: self.global_data_table_1.deep_view(),
            global_data_table_2: self.global_data_table_2.deep_view(),
            change_forms: self.change_forms.deep_view(),
            global_data_table_3: self.global_data_table_3.deep_view(),
            form_id_array: self.form_id_array@,
            visited_worldspace_array: self.visited_worldspace_array@,
            unknown_3_table: self.unknown_3_table.deep_view(),
        }
    }
}

/// The text of the 13-byte magic that every container must begin with.
pub open spec fn spec_magic_text() -> Seq<char> {
    "TESV_SAVEGAME"@
}

/// What the compressed-body stage yields: all bytes from position `i` to the
/// end, passed through for code 0, block-decompressed to exactly the declared
/// length for code 2, and fatal for code 1 (the legacy codec, whose framing
/// this decoder does not guess at) and every other code.
pub open spec fn sp_body(b: Seq<u8>, i: int, code: u16, uncompressed_len: u32) -> Result<
    Seq<u8>,
    DecodeError,
> {
    let rest = b.subrange(i, b.len() as int);
    if code == 0 {
        Ok(rest)
    } else if code == 2 {
        match lz4_block_decompressed(rest, uncompressed_len as nat) {
            Some(out) => if out.len() == uncompressed_len {
                Ok(out)
            } else {
                Err(
                    DecodeError::DecompressSizeMismatch {
                        expected: uncompressed_len as usize,
                        actual: out.len() as usize,
                    },
                )
            },
            None => Err(DecodeError::DecompressFailed),
        }
    } else {
        Err(DecodeError::UnsupportedCompression { code })
    }
}

/// What the file-location table at position `i` decodes to: ten little-endian
/// 32-bit fields.
pub open spec fn sp_file_location_table(b: Seq<u8>, i: int) -> Result<
    (FileLocationTable, int),
    DecodeError,
> {
    if can_read(b, i, 40) {
        Ok(
            (
                FileLocationTable {
                    form_id_array_count_offset: le32(b, i),
                    unknown_table_3_offset: le32(b, i + 4),
                    global_data_table_1_offset: le32(b, i + 8),
                    global_data_table_2_offset: le32(b, i + 12),
                    change_forms_offset: le32(b, i + 16),
                    global_data_table_3_offset: le32(b, i + 20),
                    global_data_table_1_count: le32(b, i + 24),
                    global_data_table_2_count: le32(b, i + 28),
                    global_data_table_3_count: le32(b, i + 32),
                    change_form_count: le32(b, i + 36),
                },
                i + 40,
            ),
        )
    } else {
        Err(crate::reader::oob(i, 40, b.len() as int))
    }
}

/// The parts decoded from the (decompressed) body, in stream order.
pub struct SaveBodyV {
    pub form_version: u8,
    pub plugin_info: Seq<Seq<char>>,
    pub light_plugin_info: Seq<Seq<char>>,
    pub file_location_table: FileLocationTable,
    pub global_data_table_1: Seq<GlobalDataV>,
    pub global_data_table_2: Seq<GlobalDataV>,
    pub change_forms: Seq<ChangeFormV>,
    pub global_data_table_3: Seq<GlobalDataV>,
    pub form_id_array: Seq<u32>,
    pub visited_worldspace_array: Seq<u32>,
    pub unknown_3_table: Seq<Seq<char>>,
}

/// What the decompressed body decodes to, in strict stream order: form
/// version, the two plugin lists, the file-location table, a 60-byte reserved
/// region, and the table region.
pub open spec fn sp_save_body(d: Seq<u8>) -> Result<(SaveBodyV, int), DecodeError> {
    match sp_u8(d, 0) {
        Ok((form_version, j1)) => match sp_u32(d, j1) {
            Ok((_plugin_info_size, j2)) => match sp_u8(d, j2) {
                Ok((plugin_count, j3)) => match sp_w_strings(d, j3, plugin_count as nat) {
                    Ok((plugin_info, j4)) => match sp_u16(d, j4) {
                        Ok((light_count, j5)) => match sp_w_strings(d, j5, light_count as nat) {
                            Ok((light_plugin_info, j6)) => match sp_file_location_table(d, j6) {
                                Ok((flt, j7)) => match sp_bytes(d, j7, 60) {
                                    Ok((_reserved, j8)) => sp_save_body_tables(
                                        d,
                                        j8,
                                        form_version,
                                        plugin_info,
                                        light_plugin_info,
                                        flt,
                                    ),
                                    Err(e) => Err(e),
                                },
                                Err(e) => Err(e),
                            },
                            Err(e) => Err(e),
                        },
                        Err(e) => Err(e),
                    },
                    Err(e) => Err(e),
                },
                Err(e) => Err(e),
            },
            Err(e) => Err(e),
        },
        Err(e) => Err(e),
    }
}

/// The trailing region of the body: the authoritative-reference index array,
/// the visited-worldspace array, and the auxiliary string table (whose byte
/// size is read and discarded).
#[verifier::opaque]
pub open spec fn sp_save_body_arrays(d: Seq<u8>, i: int) -> Result<
    ((Seq<u32>, Seq<u32>, Seq<Seq<char>>), int),
    DecodeError,
> {
    match sp_u32(d, i) {
        Ok((fc, j1)) => match sp_u32s(d, j1, fc as nat) {
            Ok((form_id_array, j2)) => match sp_u32(d, j2) {
                Ok((vc, j3)) => match sp_u32s(d, j3, vc as nat) {
                    Ok((visited, j4)) => match sp_u32(d, j4) {
                        Ok((_table_size, j5)) => match sp_u32(d, j5) {
                            Ok((tc, j6)) => match sp_w_strings(d, j6, tc as nat) {
                                Ok((table, j7)) => Ok(((form_id_array, visited, table), j7)),
                                Err(e) => Err(e),
                            },
                            Err(e) => Err(e),
                        },
                        Err(e) => Err(e),
                    },
                    Err(e) => Err(e),
                },
                Err(e) => Err(e),
            },
            Err(e) => Err(e),
        },
        Err(e) => Err(e),
    }
}

/// The table region of the body: the first two global-data tables, the
/// change forms, the third global-data table (whose stored count is one less
/// than the records actually present — a documented quirk of the format,
/// compensated with the `+ 1` here), then the trailing arrays.
#[verifier::opaque]
pub open spec fn sp_save_body_tables(
    d: Seq<u8>,
    i: int,
    form_version: u8,
    plugin_info: Seq<Seq<char>>,
    light_plugin_info: Seq<Seq<char>>,
    flt: FileLocationTable,
) -> Result<(SaveBodyV, int), DecodeError> {
    match sp_global_records(d, i, flt.global_data_table_1_count as nat) {
        Ok((g1, j1)) => match sp_global_records(d, j1, flt.global_data_table_2_count as nat) {
            Ok((g2, j2)) => match sp_change_forms(d, j2, flt.change_form_count as nat) {
                Ok((cf, j3)) => match sp_global_records(
                    d,
                    j3,
                    (flt.global_data_table_3_count + 1) as nat,
                ) {
                    Ok((g3, j4)) => match sp_save_body_arrays(d, j4) {
                        Ok(((form_id_array, visited, table), j5)) => Ok(
                            (
                                SaveBodyV {
                                    form_version,
                                    plugin_info,
                                    light_plugin_info,
                                    file_location_table: flt,
                                    global_data_table_1: g1,
                                    global_data_table_2: g2,
                                    change_forms: cf,
                                    global_data_table_3: g3,
                                    form_id_array,
                                    visited_worldspace_array: visited,
                                    unknown_3_table: table,
                                },
                                j5,
                            ),
                        ),
                        Err(e) => Err(e),
                    },
                    Err(e) => Err(e),
                },
                Err(e) => Err(e),
            },
            Err(e) => Err(e),
        },
        Err(e) => Err(e),
    }
}

/// What the whole container decodes to, together with the position in the
/// decompressed body where decoding stopped: the magic (fatal mismatch), the
/// discarded header size, the header, the screenshot sized by the header''s
/// dimensions, the two body length fields, the decompressed body, and the
/// body''s own decode sequence.
pub open spec fn sp_save_file(b: Seq<u8>) -> Result<(SaveFileV, int), DecodeError> {
    match sp_string(b, 0, 13) {
        Ok((magic, i1)) => if magic == spec_magic_text() {
            match sp_u32(b, i1) {
                Ok((_header_size, i2)) => match sp_header(b, i2) {
                    Ok((header, i3)) => match sp_bytes(
                        b,
                        i3,
                        4 * header.shot_width * header.shot_height,
                    ) {
                        Ok((shot, i4)) => match sp_u32(b, i4) {
                            Ok((uncompressed_len, i5)) => match sp_u32(b, i5) {
                                Ok((compressed_len, i6)) => match sp_body(
                                    b,
                                    i6,
                                    header.compression_type,
                                    uncompressed_len,
                                ) {
                                    Ok(d) => match sp_save_body(d) {
                                        Ok((body, end)) => Ok(
                                            (
                                                SaveFileV {
                                                    magic,
                                                    header,
                                                    screenshot_data: ScreenshotDataV {
                                                        height: header.shot_height,
                                                        width: header.shot_width,
                                                        data: shot,
                                                    },
                                                    body_uncompressed_len: uncompressed_len,
                                                    body_compressed_len: compressed_len,
                                                    form_version: body.form_version,
                                                    plugin_info: body.plugin_info,
                                                    light_plugin_info: body.light_plugin_info,
                                                    file_location_table: body.file_location_table,
                                                    global_data_table_1: body.global_data_table_1,
                                                    global_data_table_2: body.global_data_table_2,
                                                    change_forms: body.change_forms,
                                                    global_data_table_3: body.global_data_table_3,
                                                    form_id_array: body.form_id_array,
                                                    visited_worldspace_array:
                                                        body.visited_worldspace_array,
                                                    unknown_3_table: body.unknown_3_table,
                                                },
                                                end,
                                            ),
                                        ),
                                        Err(e) => Err(e),
                                    },
                                    Err(e) => Err(e),
                                },
                                Err(e) => Err(e),
                            },
                            Err(e) => Err(e),
                        },
                        Err(e) => Err(e),
                    },
                    Err(e) => Err(e),
                },
                Err(e) => Err(e),
            }
        } else {
            Err(DecodeError::MagicMismatch)
        },
        Err(e) => Err(e),
    }
}

/// Read the file-location table: ten little-endian 32-bit fields.
pub fn read_file_location_table(sfr_body: &mut SaveFileReader) -> (res: Result<
    FileLocationTable,
    DecodeError,
>)
    requires
        old(sfr_body).wf(),
    ensures
        final(sfr_body).wf(),
        final(sfr_body).bytes() == old(sfr_body).bytes(),
        match sp_file_location_table(old(sfr_body).bytes(), old(sfr_body).pos()) {
            Ok((v, j)) => res matches Ok(x) && x == v && final(sfr_body).pos() == j,
            Err(e2) => res matches Err(e) && err_matches(e, e2),
        },
{
    let form_id_array_count_offset = match sfr_body.read_u32() {
        Ok(v) => v,
        Err(e) => {
            return Err(e);
        },
    };
    let unknown_table_3_offset = match sfr_body.read_u32() {
        Ok(v) => v,
        Err(e) => {
            return Err(e);
        },
    };
    let global_data_table_1_offset = match sfr_body.read_u32() {
        Ok(v) => v,
        Err(e) => {
            return Err(e);
        },
    };
    let global_data_table_2_offset = match sfr_body.read_u32() {
        Ok(v) => v,
        Err(e) => {
            return Err(e);
        },
    };
    let change_forms_offset = match sfr_body.read_u32() {
        Ok(v) => v,
        Err(e) => {
            return Err(e);
        },
    };
    let global_data_table_3_offset = match sfr_body.read_u32() {
        Ok(v) => v,
        Err(e) => {
            return Err(e);
        },
    };
    let global_data_table_1_count = match sfr_body.read_u32() {
        Ok(v) => v,
        Err(e) => {
            return Err(e);
        },
    };
    let global_data_table_2_count = match sfr_body.read_u32() {
        Ok(v) => v,
        Err(e) => {
            return Err(e);
        },
    };
    let global_data_table_3_count = match sfr_body.read_u32() {
        Ok(v) => v,
        Err(e) => {
            return Err(e);
        },
    };
    let change_form_count = match sfr_body.read_u32() {
        Ok(v) => v,
        Err(e) => {
            return Err(e);
        },
    };
    Ok(
        FileLocationTable {
            form_id_array_count_offset,
            unknown_table_3_offset,
            global_data_table_1_offset,
            global_data_table_2_offset,
            change_forms_offset,
            global_data_table_3_offset,
            global_data_table_1_count,
            global_data_table_2_count,
            global_data_table_3_count,
            change_form_count,
        },
    )
}

/// Decompress (or pass through) everything after the header region, per the
/// header's compression code.
fn read_body(sfr: SaveFileReader, header: &Header, uncompressed_len: u32) -> (res: Result<
    Vec<u8>,
    DecodeError,
>)
    requires
        sfr.wf(),
    ensures
        match sp_body(sfr.bytes(), sfr.pos(), header.compression_type, uncompressed_len) {
            Ok(s) => res matches Ok(v) && v@ == s,
            Err(e2) => res matches Err(e) && err_matches(e, e2),
        },
{
    let mut reader = sfr;
    let index = reader.get_index();
    let buffer_len = reader.get_buffer_len();
    let rest = match reader.read_bytes_to_vec(buffer_len - index) {
        Ok(v) => v,
        Err(e) => {
            return Err(e);
        },
    };
    if header.compression_type == 0 {
        Ok(rest)
    } else if header.compression_type == 2 {
        match lz4_decompress(rest.as_slice(), uncompressed_len as usize) {
            Some(out) => if out.len() == uncompressed_len as usize {
                Ok(out)
            } else {
                Err(
                    DecodeError::DecompressSizeMismatch {
                        expected: uncompressed_len as usize,
                        actual: out.len(),
                    },
                )
            },
            None => Err(DecodeError::DecompressFailed),
        }
    } else {
        Err(DecodeError::UnsupportedCompression { code: header.compression_type })
    }
}

/// The executable magic text.
fn magic_string() -> (r: String)
    ensures
        r@ == spec_magic_text(),
{
    "TESV_SAVEGAME".to_owned()
}

/// Decode a whole save-game container from one byte buffer. The decode is a
/// single strictly sequential pass; it either returns the fully populated
/// aggregate (with any recoverable anomalies collected as warnings on it), or
/// the format-fatal condition that stopped it.
#[verifier::rlimit(100)]
pub fn parse_save_file(buf: Vec<u8>) -> (res: Result<SaveFile, DecodeError>)
    ensures
        match sp_save_file(buf@) {
            Ok((v, _end)) => res matches Ok(x) && x.deep_view() == v,
            Err(e2) => res matches Err(e) && err_matches(e, e2),
        },
{
    proof {
        reveal(sp_save_body_tables);
        reveal(sp_save_body_arrays);
    }
    let mut warnings: Vec<Warning> = Vec::new();
    let mut sfr = SaveFileReader::new(buf);
    let magic = match sfr.read_string(13) {
        Ok(v) => v,
        Err(e) => {
            return Err(e);
        },
    };
    let expected_magic = magic_string();
    if magic != expected_magic {
        return Err(DecodeError::MagicMismatch);
    }
    let _header_size = match sfr.read_u32() {
        Ok(v) => v,
        Err(e) => {
            return Err(e);
        },
    };
    let header = match read_header(&mut sfr, &mut warnings) {
        Ok(v) => v,
        Err(e) => {
            return Err(e);
        },
    };
    let w64: u64 = header.shot_width as u64;
    let h64: u64 = header.shot_height as u64;
    proof {
        assert(w64 * h64 <= 0xffff_fffe_0000_0001u64) by (nonlinear_arith)
            requires
                w64 <= 0xffff_ffffu64,
                h64 <= 0xffff_ffffu64,
        ;
    }
    let wh: u64 = w64 * h64;
    let shot_len: u128 = 4 * (wh as u128);
    proof {
        assert(4 * (wh as int) == 4 * (header.shot_width as int) * (header.shot_height as int))
            by (nonlinear_arith)
            requires
                wh == (header.shot_width as int) * (header.shot_height as int),
        ;
        assert(shot_len as int == 4 * (header.shot_width as int) * (header.shot_height as int));
    }
    let shot_index = sfr.get_index();
    let total_len = sfr.get_buffer_len();
    let remaining: usize = total_len - shot_index;
    if shot_len > remaining as u128 {
        return Err(
            DecodeError::OutOfBounds { offset: shot_index, requested: usize::MAX, length: total_len },
        );
    }
    let screenshot_data = match sfr.read_bytes_to_vec(shot_len as usize) {
        Ok(v) => v,
        Err(e) => {
            return Err(e);
        },
    };
    let uncompressed_len = match sfr.read_u32() {
        Ok(v) => v,
        Err(e) => {
            return Err(e);
        },
    };
    let compressed_len = match sfr.read_u32() {
        Ok(v) => v,
        Err(e) => {
            return Err(e);
        },
    };
    let body_buffer = match read_body(sfr, &header, uncompressed_len) {
        Ok(v) => v,
        Err(e) => {
            return Err(e);
        },
    };
    let mut sfr_body = SaveFileReader::new(body_buffer);
    let form_version = match sfr_body.read_u8() {
        Ok(v) => v,
        Err(e) => {
            return Err(e);
        },
    };
    let _plugin_info_size = match sfr_body.read_u32() {
        Ok(v) => v,
        Err(e) => {
            return Err(e);
        },
    };
    let plugin_count = match sfr_body.read_u8() {
        Ok(v) => v,
        Err(e) => {
            return Err(e);
        },
    };
    let plugin_info = match read_strings_into_vec(&mut sfr_body, plugin_count as u32, &mut warnings)
        {
        Ok(v) => v,
        Err(e) => {
            return Err(e);
        },
    };
    let light_plugin_count = match sfr_body.read_u16() {
        Ok(v) => v,
        Err(e) => {
            return Err(e);
        },
    };
    let light_plugin_info = match read_strings_into_vec(
        &mut sfr_body,
        light_plugin_count as u32,
        &mut warnings,
    ) {
        Ok(v) => v,
        Err(e) => {
            return Err(e);
        },
    };
    let file_location_table = match read_file_location_table(&mut sfr_body) {
        Ok(v) => v,
        Err(e) => {
            return Err(e);
        },
    };
    // The file-location table is followed by a reserved region; skip to the
    // data after it.
    let _reserved = match sfr_body.read_bytes_to_vec(60) {
        Ok(v) => v,
        Err(e) => {
            return Err(e);
        },
    };
    let global_data_table_1 = match crate::global_data::read_global_data(
        &mut sfr_body,
        file_location_table.global_data_table_1_count,
        &mut warnings,
    ) {
        Ok(v) => v,
        Err(e) => {
            return Err(e);
        },
    };
    let global_data_table_2 = match crate::global_data::read_global_data(
        &mut sfr_body,
        file_location_table.global_data_table_2_count,
        &mut warnings,
    ) {
        Ok(v) => v,
        Err(e) => {
            return Err(e);
        },
    };
    let change_forms = match read_change_forms(&mut sfr_body, file_location_table.change_form_count)
        {
        Ok(v) => v,
        Err(e) => {
            return Err(e);
        },
    };
    // The stored third-table count is one less than the records actually
    // present: a documented quirk of the format, compensated here.
    let global_data_table_3 = match crate::global_data::read_global_data_long(
        &mut sfr_body,
        file_location_table.global_data_table_3_count as u64 + 1,
        &mut warnings,
    ) {
        Ok(v) => v,
        Err(e) => {
            return Err(e);
        },
    };
    let form_id_array_count = match sfr_body.read_u32() {
        Ok(v) => v,
        Err(e) => {
            return Err(e);
        },
    };
    let form_id_array = match read_u32s_into_vec(&mut sfr_body, form_id_array_count) {
        Ok(v) => v,
        Err(e) => {
            return Err(e);
        },
    };
    let visited_worldspace_array_count = match sfr_body.read_u32() {
        Ok(v) => v,
        Err(e) => {
            return Err(e);
        },
    };
    let visited_worldspace_array = match read_u32s_into_vec(
        &mut sfr_body,
        visited_worldspace_array_count,
    ) {
        Ok(v) => v,
        Err(e) => {
            return Err(e);
        },
    };
    let _unknown_3_table_size = match sfr_body.read_u32() {
        Ok(v) => v,
        Err(e) => {
            return Err(e);
        },
    };
    let unknown_3_table_count = match sfr_body.read_u32() {
        Ok(v) => v,
        Err(e) => {
            return Err(e);
        },
    };
    let unknown_3_table = match read_strings_into_vec(
        &mut sfr_body,
        unknown_3_table_count,
        &mut warnings,
    ) {
        Ok(v) => v,
        Err(e) => {
            return Err(e);
        },
    };
    let screenshot_height = header.shot_height;
    let screenshot_width = header.shot_width;
    Ok(
        SaveFile {
            magic,
            header,
            screenshot_data: ScreenshotData {
                height: screenshot_height,
                width: screenshot_width,
                data: screenshot_data,
            },
            body_uncompressed_len: uncompressed_len,
            body_compressed_len: compressed_len,
            form_version,
            plugin_info,
            light_plugin_info,
            file_location_table,
            global_data_table_1,
            global_data_table_2,
            change_forms,
            global_data_table_3,
            form_id_array,
            visited_worldspace_array,
            unknown_3_table,
            warnings,
        },
    )
}


/// The table region of the body is unaffected by bytes past its end, and on a
/// buffer cut short of its end it fails with an out-of-bounds error rather
/// than reading past the cut.
#[verifier::rlimit(100)]
pub proof fn lemma_save_body_tables_truncated(
    d: Seq<u8>,
    i: int,
    m: int,
    form_version: u8,
    plugin_info: Seq<Seq<char>>,
    light_plugin_info: Seq<Seq<char>>,
    flt: FileLocationTable,
)
    requires
        0 <= i,
        0 <= m <= d.len(),
    ensures
        (sp_save_body_tables(d, i, form_version, plugin_info, light_plugin_info, flt)
            matches Ok((v, j)) && j <= m) ==> sp_save_body_tables(
            d.take(m),
            i,
            form_version,
            plugin_info,
            light_plugin_info,
            flt,
        ) == sp_save_body_tables(d, i, form_version, plugin_info, light_plugin_info, flt),
        (sp_save_body_tables(d, i, form_version, plugin_info, light_plugin_info, flt)
            matches Ok((v, j)) && i <= m < j) ==> (sp_save_body_tables(
            d.take(m),
            i,
            form_version,
            plugin_info,
            light_plugin_info,
            flt,
        ) matches Err(e) && e matches DecodeError::OutOfBounds { .. }),
        sp_save_body_tables(d, i, form_version, plugin_info, light_plugin_info, flt) matches Ok(
            (v, j),
        ) ==> i <= j,
{
    reveal(sp_save_body_tables);
    match sp_save_body_tables(d, i, form_version, plugin_info, light_plugin_info, flt) {
        Err(_) => {},
        Ok((v, j)) => {
            match sp_global_records(d, i, flt.global_data_table_1_count as nat) {
                Err(_) => {},
                Ok((g1, p1)) => {
                    crate::global_data::lemma_global_records_truncated(
                        d,
                        i,
                        m,
                        flt.global_data_table_1_count as nat,
                    );
                    crate::global_data::lemma_global_records_advance(
                        d,
                        i,
                        flt.global_data_table_1_count as nat,
                    );
                    match sp_global_records(d, p1, flt.global_data_table_2_count as nat) {
                        Err(_) => {},
                        Ok((g2, p2)) => {
                            crate::global_data::lemma_global_records_truncated(
                                d,
                                p1,
                                m,
                                flt.global_data_table_2_count as nat,
                            );
                            crate::global_data::lemma_global_records_advance(
                                d,
                                p1,
                                flt.global_data_table_2_count as nat,
                            );
                            match sp_change_forms(d, p2, flt.change_form_count as nat) {
                                Err(_) => {},
                                Ok((cf, p3)) => {
                                    crate::change_form::lemma_change_forms_truncated(
                                        d,
                                        p2,
                                        m,
                                        flt.change_form_count as nat,
                                    );
                                    crate::change_form::lemma_change_forms_advance(
                                        d,
                                        p2,
                                        flt.change_form_count as nat,
                                    );
                                    match sp_global_records(
                                        d,
                                        p3,
                                        (flt.global_data_table_3_count + 1) as nat,
                                    ) {
                                        Err(_) => {},
                                        Ok((g3, p4)) => {
                                            crate::global_data::lemma_global_records_truncated(
                                                d,
                                                p3,
                                                m,
                                                (flt.global_data_table_3_count + 1) as nat,
                                            );
                                            crate::global_data::lemma_global_records_advance(
                                                d,
                                                p3,
                                                (flt.global_data_table_3_count + 1) as nat,
                                            );
                                            lemma_save_body_arrays_truncated(d, p4, m);
                                        },
                                    }
                                },
                            }
                        },
                    }
                },
            }
        },
    }
}

/// The trailing index arrays and string table are unaffected by bytes past
/// their end, and on a buffer cut short of their end they fail with an
/// out-of-bounds error.
#[verifier::rlimit(100)]
pub proof fn lemma_save_body_arrays_truncated(d: Seq<u8>, i: int, m: int)
    requires
        0 <= i,
        0 <= m <= d.len(),
    ensures
        (sp_save_body_arrays(d, i) matches Ok((v, j)) && j <= m) ==> sp_save_body_arrays(
            d.take(m),
            i,
        ) == sp_save_body_arrays(d, i),
        (sp_save_body_arrays(d, i) matches Ok((v, j)) && i <= m < j) ==> (sp_save_body_arrays(
            d.take(m),
            i,
        ) matches Err(e) && e matches DecodeError::OutOfBounds { .. }),
        sp_save_body_arrays(d, i) matches Ok((v, j)) ==> i <= j,
{
    reveal(sp_save_body_arrays);
    match sp_save_body_arrays(d, i) {
        Err(_) => {},
        Ok((v, j)) => {
            match sp_u32(d, i) {
                Err(_) => {},
                Ok((fc, p5)) => {
                    crate::reader::lemma_u32s_truncated(d, p5, m, fc as nat);
                    match sp_u32s(d, p5, fc as nat) {
                        Err(_) => {},
                        Ok((fa, p6)) => {
                            match sp_u32(d, p6) {
                                Err(_) => {},
                                Ok((vc, p7)) => {
                                    crate::reader::lemma_u32s_truncated(d, p7, m, vc as nat);
                                    match sp_u32s(d, p7, vc as nat) {
                                        Err(_) => {},
                                        Ok((va, p8)) => {
                                            match sp_u32(d, p8) {
                                                Err(_) => {},
                                                Ok((_ts, p9)) => {
                                                    match sp_u32(d, p9) {
                                                        Err(_) => {},
                                                        Ok((tc, p10)) => {
                                                            crate::reader::lemma_w_strings_truncated(
                                                                d,
                                                                p10,
                                                                m,
                                                                tc as nat,
                                                            );
                                                            crate::reader::lemma_w_strings_advance(
                                                                d,
                                                                p10,
                                                                tc as nat,
                                                            );
                                                        },
                                                    }
                                                },
                                            }
                                        },
                                    }
                                },
                            }
                        },
                    }
                },
            }
        },
    }
}


/// The decompressed body is unaffected by bytes past the end of what its
/// decode consumed, and on a body cut short of that end the decode fails with
/// an out-of-bounds error rather than reading past the cut.
#[verifier::rlimit(100)]
pub proof fn lemma_save_body_truncated(d: Seq<u8>, m: int)
    requires
        0 <= m <= d.len(),
    ensures
        (sp_save_body(d) matches Ok((v, j)) && j <= m) ==> sp_save_body(d.take(m))
            == sp_save_body(d),
        (sp_save_body(d) matches Ok((v, j)) && m < j) ==> (sp_save_body(d.take(m)) matches Err(e)
            && e matches DecodeError::OutOfBounds { .. }),
{
    match sp_save_body(d) {
        Err(_) => {},
        Ok((v, j)) => {
            match sp_u8(d, 0) {
                Err(_) => {},
                Ok((fv, p1)) => {
                    match sp_u32(d, p1) {
                        Err(_) => {},
                        Ok((_ps, p2)) => {
                            match sp_u8(d, p2) {
                                Err(_) => {},
                                Ok((pc, p3)) => {
                                    crate::reader::lemma_w_strings_truncated(d, p3, m, pc as nat);
                                    crate::reader::lemma_w_strings_advance(d, p3, pc as nat);
                                    match sp_w_strings(d, p3, pc as nat) {
                                        Err(_) => {},
                                        Ok((pi, p4)) => {
                                            match sp_u16(d, p4) {
                                                Err(_) => {},
                                                Ok((lc, p5)) => {
                                                    crate::reader::lemma_w_strings_truncated(
                                                        d,
                                                        p5,
                                                        m,
                                                        lc as nat,
                                                    );
                                                    crate::reader::lemma_w_strings_advance(
                                                        d,
                                                        p5,
                                                        lc as nat,
                                                    );
                                                    match sp_w_strings(d, p5, lc as nat) {
                                                        Err(_) => {},
                                                        Ok((lpi, p6)) => {
                                                            match sp_file_location_table(d, p6) {
                                                                Err(_) => {},
                                                                Ok((flt, p7)) => {
                                                                    if p7 + 60 <= m {
                                                                        assert(d.take(m).subrange(
                                                                            p7,
                                                                            p7 + 60,
                                                                        ) =~= d.subrange(
                                                                            p7,
                                                                            p7 + 60,
                                                                        ));
                                                                    }
                                                                    lemma_save_body_tables_truncated(
                                                                        d,
                                                                        p7 + 60,
                                                                        m,
                                                                        fv,
                                                                        pi,
                                                                        lpi,
                                                                        flt,
                                                                    );
                                                                },
                                                            }
                                                        },
                                                    }
                                                },
                                            }
                                        },
                                    }
                                },
                            }
                        },
                    }
                },
            }
        },
    }
}

/// The position of the first body byte in a container: what stands after the
/// magic, the discarded header size, the header, the screenshot and the two
/// body length fields.
pub open spec fn sp_body_start(b: Seq<u8>) -> int {
    match sp_header(b, 17) {
        Ok((h, i3)) => i3 + 4 * h.shot_width * h.shot_height + 8,
        Err(_) => 0,
    }
}

/// Law (bounds safety): when an uncompressed container decodes successfully,
/// cutting the buffer anywhere before the end of what the decode consumed
/// makes the decode fail with an out-of-bounds error — it never reads past
/// the cut. (For a block-compressed container a cut corrupts the compressed
/// stream instead of shortening the decoded body, so nothing of this shape
/// can be said there.)
#[verifier::rlimit(100)]
pub proof fn lemma_save_file_truncated(b: Seq<u8>, m: int)
    requires
        0 <= m <= b.len(),
    ensures
        (sp_save_file(b) matches Ok((v, end)) && v.header.compression_type == 0 && m
            < sp_body_start(b) + end) ==> (sp_save_file(b.take(m)) matches Err(e) && e
            matches DecodeError::OutOfBounds { .. }),
{
    match sp_save_file(b) {
        Err(_) => {},
        Ok((v, end)) => {
            match sp_string(b, 0, 13) {
                Err(_) => {},
                Ok((magic, _i1)) => {
                    if 13 <= m {
                        assert(b.take(m).subrange(0, 13) =~= b.subrange(0, 13));
                    }
                    match sp_header(b, 17) {
                        Err(_) => {},
                        Ok((h, i3)) => {
                            lemma_header_truncated(b, 17, m);
                            let shot_len = 4 * h.shot_width * h.shot_height;
                            if i3 + shot_len <= m {
                                assert(b.take(m).subrange(i3, i3 + shot_len) =~= b.subrange(
                                    i3,
                                    i3 + shot_len,
                                ));
                            }
                            let i6 = i3 + shot_len + 8;
                            if h.compression_type == 0 && i6 <= m {
                                let body = b.subrange(i6, b.len() as int);
                                assert(b.take(m).subrange(i6, m) =~= body.take(m - i6));
                                lemma_save_body_truncated(body, m - i6);
                            }
                        },
                    }
                },
            }
        },
    }
}

} // verus!
