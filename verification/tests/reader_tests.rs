use skyrim_savegame::error::{DecodeError, Warning};
use skyrim_savegame::fundamental_types::{RefId, RefIdType, VSVal};
use skyrim_savegame::reader::{
    read_filetime, read_ref_id, read_ref_ids_into_vec, read_strings_into_vec, read_u32s_into_vec,
    read_vsval_to_u32, SaveFileReader,
};

#[test]
fn read_fixed_width_integers() {
    let mut r = SaveFileReader::new(vec![0x01, 0x02, 0x03, 0x04, 0xff, 0xff, 0xff, 0xff, 0x2a]);
    assert_eq!(r.read_u32().unwrap(), 0x04030201);
    assert_eq!(r.read_i32().unwrap(), -1);
    assert_eq!(r.read_u8().unwrap(), 0x2a);
    assert_eq!(r.get_index(), 9);
}

#[test]
fn read_u16_little_endian() {
    let mut r = SaveFileReader::new(vec![0x34, 0x12]);
    assert_eq!(r.read_u16().unwrap(), 0x1234);
}

#[test]
fn read_i32_most_negative() {
    let mut r = SaveFileReader::new(vec![0x00, 0x00, 0x00, 0x80]);
    assert_eq!(r.read_i32().unwrap(), i32::MIN);
}

#[test]
fn read_f32_keeps_bit_pattern() {
    // 1.0f32 is 0x3f800000 little-endian.
    let mut r = SaveFileReader::new(vec![0x00, 0x00, 0x80, 0x3f]);
    let bits = r.read_f32().unwrap();
    assert_eq!(bits.bits, 0x3f800000);
    assert_eq!(f32::from_bits(bits.bits), 1.0f32);
}

#[test]
fn out_of_bounds_read_reports_position() {
    let mut r = SaveFileReader::new(vec![0x01, 0x02]);
    assert_eq!(r.read_u8().unwrap(), 0x01);
    let e = r.read_u32().unwrap_err();
    assert_eq!(e, DecodeError::OutOfBounds { offset: 1, requested: 4, length: 2 });
    // The failed read must not have advanced the cursor.
    assert_eq!(r.get_index(), 1);
    assert_eq!(r.read_u8().unwrap(), 0x02);
}

#[test]
fn read_bytes_to_vec_copies_span() {
    let mut r = SaveFileReader::new(vec![9, 8, 7, 6]);
    assert_eq!(r.read_bytes_to_vec(3).unwrap(), vec![9, 8, 7]);
    assert!(r.read_bytes_to_vec(2).is_err());
}

#[test]
fn vsval_one_byte_width() {
    // 0b000001_00: width tag 0, value 1.
    let mut w = Vec::new();
    let mut r = SaveFileReader::new(vec![0x04]);
    let v = r.read_vsval(&mut w).unwrap();
    assert!(matches!(v, VSVal::U8(1)));
    assert!(w.is_empty());
}

#[test]
fn vsval_two_byte_width_round_trip() {
    // Encode 65 at width tag 1: 65 * 4 + 1 = 0x105 little-endian.
    let bytes = vec![0x05, 0x01];
    let mut w = Vec::new();
    let mut r = SaveFileReader::new(bytes.clone());
    let v = r.read_vsval(&mut w).unwrap();
    assert!(matches!(v, VSVal::U16(65)));
    assert_eq!(r.get_index(), 2);
    // Re-encoding the recovered value with the same width reproduces the
    // original bytes.
    let u: u32 = 65 * 4 + 1;
    assert_eq!(vec![(u % 0x100) as u8, (u / 0x100) as u8], bytes);
    assert!(w.is_empty());
}

#[test]
fn vsval_three_byte_width_round_trip() {
    // Encode 0x3fffff (the largest three-byte value): 0x3fffff * 4 + 2.
    let u: u32 = 0x3fffff * 4 + 2;
    let bytes = vec![(u % 0x100) as u8, (u / 0x100 % 0x100) as u8, (u / 0x10000) as u8];
    let mut w = Vec::new();
    let mut r = SaveFileReader::new(bytes.clone());
    let v = r.read_vsval(&mut w).unwrap();
    assert!(matches!(v, VSVal::U32(0x3fffff)));
    assert_eq!(r.get_index(), 3);
    assert!(w.is_empty());
}

#[test]
fn vsval_invalid_width_tag_yields_zero_and_warning() {
    let mut w = Vec::new();
    let mut r = SaveFileReader::new(vec![0x07, 0xaa]);
    let v = r.read_vsval(&mut w).unwrap();
    assert!(matches!(v, VSVal::U8(0)));
    // Only the leading byte is consumed.
    assert_eq!(r.get_index(), 1);
    assert_eq!(w, vec![Warning::InvalidVsvalWidth]);
}

#[test]
fn vsval_to_u32_flattens_variants() {
    let mut w = Vec::new();
    let mut r = SaveFileReader::new(vec![0x04, 0x05, 0x01]);
    assert_eq!(read_vsval_to_u32(&mut r, &mut w).unwrap(), 1);
    assert_eq!(read_vsval_to_u32(&mut r, &mut w).unwrap(), 65);
}

#[test]
fn ref_id_zero_magnitude_is_null_default() {
    let id = RefId { byte0: 0x00, byte1: 0x00, byte2: 0x00 };
    assert!(matches!(id.get_form_id(), RefIdType::Default(0)));
}

#[test]
fn ref_id_index_subtracts_one() {
    // byte0 = 0: table-index origin. The magnitude folds byte1 in twice:
    // 0x01 * 0x100 + 0x01 = 257, so the stored index is 257 - 1.
    let id = RefId { byte0: 0x00, byte1: 0x01, byte2: 0x00 };
    assert_eq!(id.get_parsed_id(), 257);
    assert!(matches!(id.get_form_id(), RefIdType::Index(256)));
}

#[test]
fn ref_id_default_origin() {
    let id = RefId { byte0: 0x40, byte1: 0x02, byte2: 0x00 };
    let m = 0x40 * 0x10000 + 0x02 * 0x100 + 0x02;
    assert!(matches!(id.get_form_id(), RefIdType::Default(x) if x == m));
}

#[test]
fn ref_id_created_origin() {
    let id = RefId { byte0: 0x80, byte1: 0x00, byte2: 0x00 };
    assert!(matches!(id.get_form_id(), RefIdType::Created(0x800000)));
}

#[test]
fn ref_id_unrecognized_origin() {
    let id = RefId { byte0: 0xc0, byte1: 0x00, byte2: 0x00 };
    assert!(matches!(id.get_form_id(), RefIdType::Unknown(0xc00000)));
}

#[test]
fn ref_id_third_byte_plays_no_part_in_value() {
    // The packed magnitude uses byte1 twice and never byte2; the stream still
    // stores three bytes. Two identifiers differing only in byte2 resolve
    // alike, and the cursor still moves three bytes.
    let a = RefId { byte0: 0x40, byte1: 0x05, byte2: 0x00 };
    let b = RefId { byte0: 0x40, byte1: 0x05, byte2: 0xff };
    assert_eq!(a.get_parsed_id(), b.get_parsed_id());
    let mut r = SaveFileReader::new(vec![0x40, 0x05, 0xff, 0x99]);
    let resolved = read_ref_id(&mut r).unwrap();
    assert!(matches!(resolved, RefIdType::Default(x) if x == a.get_parsed_id()));
    assert_eq!(r.get_index(), 3);
}

#[test]
fn filetime_reads_two_halves() {
    let mut r = SaveFileReader::new(vec![1, 0, 0, 0, 2, 0, 0, 0]);
    let ft = read_filetime(&mut r).unwrap();
    assert_eq!(ft.dw_low_date_time, 1);
    assert_eq!(ft.dw_high_date_time, 2);
}

#[test]
fn u32_array_reads_each_entry() {
    let mut r = SaveFileReader::new(vec![1, 0, 0, 0, 2, 0, 0, 0, 3, 0, 0, 0]);
    assert_eq!(read_u32s_into_vec(&mut r, 3).unwrap(), vec![1, 2, 3]);
}

#[test]
fn u32_array_out_of_bounds_fails() {
    let mut r = SaveFileReader::new(vec![1, 0, 0, 0, 2, 0]);
    let e = read_u32s_into_vec(&mut r, 2).unwrap_err();
    assert!(matches!(e, DecodeError::OutOfBounds { .. }));
}

#[test]
fn ref_id_array_reads_each_entry() {
    let mut r = SaveFileReader::new(vec![0x00, 0x00, 0x00, 0x40, 0x01, 0x00]);
    let v = read_ref_ids_into_vec(&mut r, 2).unwrap();
    assert_eq!(v.len(), 2);
    assert!(matches!(v[0], RefIdType::Default(0)));
    assert!(matches!(v[1], RefIdType::Default(x) if x == 0x400101));
}

#[test]
fn read_string_decodes_utf8() {
    let mut r = SaveFileReader::new(b"TESV_SAVEGAME".to_vec());
    assert_eq!(r.read_string(4).unwrap(), "TESV");
}

#[test]
fn read_string_rejects_malformed_utf8() {
    let mut r = SaveFileReader::new(vec![0xff, 0xfe, 0x41]);
    let e = r.read_string(3).unwrap_err();
    assert_eq!(e, DecodeError::MalformedText { offset: 0 });
}

#[test]
fn w_string_reads_length_prefixed_text() {
    let mut bytes = vec![4, 0];
    bytes.extend_from_slice(b"Hero");
    let mut w = Vec::new();
    let mut r = SaveFileReader::new(bytes);
    let s = r.read_w_string(&mut w).unwrap();
    assert_eq!(s.length, 4);
    assert_eq!(s.content, "Hero");
    assert!(w.is_empty());
}

#[test]
fn w_string_substitutes_sentinel_for_malformed_utf8() {
    let mut w = Vec::new();
    let mut r = SaveFileReader::new(vec![2, 0, 0xff, 0xfe]);
    let s = r.read_w_string(&mut w).unwrap();
    assert_eq!(s.length, 2);
    assert_eq!(s.content, "Error while parsing string!");
    assert_eq!(w, vec![Warning::MalformedString]);
    // The malformed span is still fully consumed: the stream stays aligned.
    assert_eq!(r.get_index(), 4);
}

#[test]
fn strings_into_vec_reads_each_string() {
    let mut bytes = vec![2, 0];
    bytes.extend_from_slice(b"ab");
    bytes.extend_from_slice(&[1, 0]);
    bytes.extend_from_slice(b"c");
    let mut w = Vec::new();
    let mut r = SaveFileReader::new(bytes);
    let v = read_strings_into_vec(&mut r, 2, &mut w).unwrap();
    assert_eq!(v, vec!["ab".to_string(), "c".to_string()]);
}
