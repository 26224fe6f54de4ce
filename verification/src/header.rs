//! The fixed-layout file header: version and save-slot bookkeeping, player
//! presentation fields, the file timestamp, the screenshot dimensions and the
//! compression-type code.

use vstd::prelude::*;

use crate::error::{DecodeError, Warning};
use crate::fundamental_types::{F32Bits, FileTime};
use crate::reader::{
    err_matches, lemma_w_string_truncated, sp_f32, sp_filetime, sp_u16, sp_u32, sp_w_string,
    read_filetime, SaveFileReader,
};

verus! {

/// The decoded header. The two experience fields are IEEE-754 bit patterns,
/// carried uninterpreted.
#[derive(Clone, Debug)]
pub struct Header {
    pub version: u32,
    pub save_number: u32,
    pub player_name: String,
    pub player_level: u32,
    pub player_location: String,
    pub game_date: String,
    pub player_race_editor_id: String,
    pub player_sex: u16,
    pub player_cur_exp: F32Bits,
    pub player_lvl_up_exp: F32Bits,
    pub filetime: FileTime,
    pub shot_width: u32,
    pub shot_height: u32,
    pub compression_type: u16,
}

/// The spec-level model of a `Header`.
pub struct HeaderV {
    pub version: u32,
    pub save_number: u32,
    pub player_name: Seq<char>,
    pub player_level: u32,
    pub player_location: Seq<char>,
    pub game_date: Seq<char>,
    pub player_race_editor_id: Seq<char>,
    pub player_sex: u16,
    pub player_cur_exp: F32Bits,
    pub player_lvl_up_exp: F32Bits,
    pub filetime: FileTime,
    pub shot_width: u32,
    pub shot_height: u32,
    pub compression_type: u16,
}

impl DeepView for Header {
    type V = HeaderV;

    open spec fn deep_view(&self) -> HeaderV {
        HeaderV {
            version: self.version,
            save_number: self.save_number,
            player_name: self.player_name@,
            player_level: self.player_level,
            player_location: self.player_location@,
            game_date: self.game_date@,
            player_race_editor_id: self.player_race_editor_id@,
            player_sex: self.player_sex,
            player_cur_exp: self.player_cur_exp,
            player_lvl_up_exp: self.player_lvl_up_exp,
            filetime: self.filetime,
            shot_width: self.shot_width,
            shot_height: self.shot_height,
            compression_type: self.compression_type,
        }
    }
}

/// What the header at position `i` decodes to, field by field in stream
/// order.
pub open spec fn sp_header(b: Seq<u8>, i: int) -> Result<(HeaderV, int), DecodeError> {
    match sp_u32(b, i) {
        Ok((version, i1)) => match sp_u32(b, i1) {
            Ok((save_number, i2)) => match sp_w_string(b, i2) {
                Ok((player_name, i3)) => match sp_u32(b, i3) {
                    Ok((player_level, i4)) => match sp_w_string(b, i4) {
                        Ok((player_location, i5)) => match sp_w_string(b, i5) {
                            Ok((game_date, i6)) => match sp_w_string(b, i6) {
                                Ok((player_race_editor_id, i7)) => match sp_u16(b, i7) {
                                    Ok((player_sex, i8)) => match sp_f32(b, i8) {
                                        Ok((player_cur_exp, i9)) => match sp_f32(b, i9) {
                                            Ok((player_lvl_up_exp, i10)) => match sp_filetime(
                                                b,
                                                i10,
                                            ) {
                                                Ok((filetime, i11)) => match sp_u32(b, i11) {
                                                    Ok((shot_width, i12)) => match sp_u32(b, i12) {
                                                        Ok((shot_height, i13)) => match sp_u16(
                                                            b,
                                                            i13,
                                                        ) {
                                                            Ok((compression_type, i14)) => Ok(
                                                                (
                                                                    HeaderV {
                                                                        version,
                                                                        save_number,
                                                                        player_name:
                                                                            player_name.content,
                                                                        player_level,
                                                                        player_location:
                                                                            player_location.content,
                                                                        game_date:
                                                                            game_date.content,
                                                                        player_race_editor_id:
                                                                            player_race_editor_id.content,
                                                                        player_sex,
                                                                        player_cur_exp,
                                                                        player_lvl_up_exp,
                                                                        filetime,
                                                                        shot_width,
                                                                        shot_height,
                                                                        compression_type,
                                                                    },
                                                                    i14,
                                                                ),
                                                            ),
                                                            Err(e) => Err(e),
                                                        },
                                                        Err(e) => Err(e),
                                                    },
                                                    Err(e) => Err(e),
                                                },
                                                Err(e) => Err(e),
                                            },
                                            Err(e) => Err(e),
                                        },
                                        Err(e) => Err(e),
                                    },
                                    Err(e) => Err(e),
                                },
                                Err(e) => Err(e),
                            },
                            Err(e) => Err(e),
                        },
                        Err(e) => Err(e),
                    },
                    Err(e) => Err(e),
                },
                Err(e) => Err(e),
            },
            Err(e) => Err(e),
        },
        Err(e) => Err(e),
    }
}

/// Read the header, field by field in stream order.
pub fn read_header(sfr: &mut SaveFileReader, warnings: &mut Vec<Warning>) -> (r: Result<
    Header,
    DecodeError,
>)
    requires
        old(sfr).wf(),
    ensures
        final(sfr).wf(),
        final(sfr).bytes() == old(sfr).bytes(),
        old(warnings)@.is_prefix_of(final(warnings)@),
        match sp_header(old(sfr).bytes(), old(sfr).pos()) {
            Ok((v, j)) => r matches Ok(x) && x.deep_view() == v && final(sfr).pos() == j,
            Err(e2) => r matches Err(e) && err_matches(e, e2),
        },
{
    let ghost w0 = warnings@;
    let version = match sfr.read_u32() {
        Ok(v) => v,
        Err(e) => {
            proof {
                assert(w0.is_prefix_of(warnings@));
            }
            return Err(e);
        },
    };
    let save_number = match sfr.read_u32() {
        Ok(v) => v,
        Err(e) => {
            proof {
                assert(w0.is_prefix_of(warnings@));
            }
            return Err(e);
        },
    };
    let player_name = match sfr.read_w_string(warnings) {
        Ok(v) => v,
        Err(e) => {
            return Err(e);
        },
    };
    let player_level = match sfr.read_u32() {
        Ok(v) => v,
        Err(e) => {
            return Err(e);
        },
    };
    let player_location = match sfr.read_w_string(warnings) {
        Ok(v) => v,
        Err(e) => {
            return Err(e);
        },
    };
    let game_date = match sfr.read_w_string(warnings) {
        Ok(v) => v,
        Err(e) => {
            return Err(e);
        },
    };
    let player_race_editor_id = match sfr.read_w_string(warnings) {
        Ok(v) => v,
        Err(e) => {
            return Err(e);
        },
    };
    let player_sex = match sfr.read_u16() {
        Ok(v) => v,
        Err(e) => {
            return Err(e);
        },
    };
    let player_cur_exp = match sfr.read_f32() {
        Ok(v) => v,
        Err(e) => {
            return Err(e);
        },
    };
    let player_lvl_up_exp = match sfr.read_f32() {
        Ok(v) => v,
        Err(e) => {
            return Err(e);
        },
    };
    let filetime = match read_filetime(sfr) {
        Ok(v) => v,
        Err(e) => {
            return Err(e);
        },
    };
    let shot_width = match sfr.read_u32() {
        Ok(v) => v,
        Err(e) => {
            return Err(e);
        },
    };
    let shot_height = match sfr.read_u32() {
        Ok(v) => v,
        Err(e) => {
            return Err(e);
        },
    };
    let compression_type = match sfr.read_u16() {
        Ok(v) => v,
        Err(e) => {
            return Err(e);
        },
    };
    Ok(
        Header {
            version,
            save_number,
            player_name: player_name.content,
            player_level,
            player_location: player_location.content,
            game_date: game_date.content,
            player_race_editor_id: player_race_editor_id.content,
            player_sex,
            player_cur_exp,
            player_lvl_up_exp,
            filetime,
            shot_width,
            shot_height,
            compression_type,
        },
    )
}


/// The header is unaffected by bytes past its end, and on a buffer cut short
/// of its end it fails with an out-of-bounds error rather than reading past
/// the cut.
#[verifier::rlimit(100)]
pub proof fn lemma_header_truncated(b: Seq<u8>, i: int, m: int)
    requires
        0 <= i,
        0 <= m <= b.len(),
    ensures
        (sp_header(b, i) matches Ok((v, j)) && j <= m) ==> sp_header(b.take(m), i) == sp_header(
            b,
            i,
        ),
        (sp_header(b, i) matches Ok((v, j)) && i <= m < j) ==> (sp_header(b.take(m), i)
            matches Err(e) && e matches DecodeError::OutOfBounds { .. }),
        sp_header(b, i) matches Ok((v, j)) ==> i <= j,
{
    match sp_u32(b, i) {
        Err(_) => {},
        Ok((x0, i1)) => {
            if m < i1 {
            } else {
                match sp_u32(b, i1) {
                    Err(_) => {},
                    Ok((x1, i2)) => {
                        if m < i2 {
                        } else {
                            match sp_w_string(b, i2) {
                                Err(_) => {},
                                Ok((x2, i3)) => {
                                    lemma_w_string_truncated(b, i2, m);
                                    if m < i3 {
                                    } else {
                                        match sp_u32(b, i3) {
                                            Err(_) => {},
                                            Ok((x3, i4)) => {
                                                if m < i4 {
                                                } else {
                                                    match sp_w_string(b, i4) {
                                                        Err(_) => {},
                                                        Ok((x4, i5)) => {
                                                            lemma_w_string_truncated(b, i4, m);
                                                            if m < i5 {
                                                            } else {
                                                                match sp_w_string(b, i5) {
                                                                    Err(_) => {},
                                                                    Ok((x5, i6)) => {
                                                                        lemma_w_string_truncated(b, i5, m);
                                                                        if m < i6 {
                                                                        } else {
                                                                            match sp_w_string(b, i6) {
                                                                                Err(_) => {},
                                                                                Ok((x6, i7)) => {
                                                                                    lemma_w_string_truncated(b, i6, m);
                                                                                    if m < i7 {
                                                                                    } else {
                                                                                        match sp_u16(b, i7) {
                                                                                            Err(_) => {},
                                                                                            Ok((x7, i8)) => {
                                                                                                if m < i8 {
                                                                                                } else {
                                                                                                    match sp_f32(b, i8) {
                                                                                                        Err(_) => {},
                                                                                                        Ok((x8, i9)) => {
                                                                                                            if m < i9 {
                                                                                                            } else {
                                                                                                                match sp_f32(b, i9) {
                                                                                                                    Err(_) => {},
                                                                                                                    Ok((x9, i10)) => {
                                                                                                                        if m < i10 {
                                                                                                                        } else {
                                                                                                                            match sp_filetime(b, i10) {
                                                                                                                                Err(_) => {},
                                                                                                                                Ok((x10, i11)) => {
                                                                                                                                    if m < i11 {
                                                                                                                                    } else {
                                                                                                                                        match sp_u32(b, i11) {
                                                                                                                                            Err(_) => {},
                                                                                                                                            Ok((x11, i12)) => {
                                                                                                                                                if m < i12 {
                                                                                                                                                } else {
                                                                                                                                                    match sp_u32(b, i12) {
                                                                                                                                                        Err(_) => {},
                                                                                                                                                        Ok((x12, i13)) => {
                                                                                                                                                            if m < i13 {
                                                                                                                                                            } else {
                                                                                                                                                                match sp_u16(b, i13) {
                                                                                                                                                                    Err(_) => {},
                                                                                                                                                                    Ok((x13, i14)) => {
                                                                                                                                                                        if m < i14 {
                                                                                                                                                                        } else {
                                                                                                                                                                            // all stages whole: both parses agree stage by stage
                                                                                                                                                                        }
                                                                                                                                                                    },
                                                                                                                                                                }
                                                                                                                                                            }
                                                                                                                                                        },
                                                                                                                                                    }
                                                                                                                                                }
                                                                                                                                            },
                                                                                                                                        }
                                                                                                                                    }
                                                                                                                                },
                                                                                                                            }
                                                                                                                        }
                                                                                                                    },
                                                                                                                }
                                                                                                            }
                                                                                                        },
                                                                                                    }
                                                                                                }
                                                                                            },
                                                                                        }
                                                                                    }
                                                                                },
                                                                            }
                                                                        }
                                                                    },
                                                                }
                                                            }
                                                        },
                                                    }
                                                }
                                            },
                                        }
                                    }
                                },
                            }
                        }
                    },
                }
            }
        },
    }
}

} // verus!
