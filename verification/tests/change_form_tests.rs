use std::io::Write;

use skyrim_savegame::change_form::{read_change_form, read_change_forms};
use skyrim_savegame::error::DecodeError;
use skyrim_savegame::fundamental_types::RefIdType;
use skyrim_savegame::reader::SaveFileReader;

fn zlib_deflate(data: &[u8]) -> Vec<u8> {
    let mut encoder = flate2::write::ZlibEncoder::new(Vec::new(), flate2::Compression::default());
    encoder.write_all(data).unwrap();
    encoder.finish().unwrap()
}

fn cf_header(data_type: u8) -> Vec<u8> {
    let mut bytes = Vec::new();
    bytes.extend_from_slice(&[0x40, 0x01, 0x00]); // packed identifier
    bytes.extend_from_slice(&0xdeadbeefu32.to_le_bytes()); // change flags
    bytes.push(data_type); // combined (length-width, type) byte
    bytes.push(74); // version
    bytes
}

#[test]
fn one_byte_lengths_raw_payload() {
    // High bits 0b00000000: one-byte length fields.
    let mut bytes = cf_header(0x05);
    bytes.push(3); // length1
    bytes.push(0); // length2 = 0: raw payload
    bytes.extend_from_slice(&[9, 8, 7]);
    let mut r = SaveFileReader::new(bytes);
    let cf = read_change_form(&mut r).unwrap();
    assert!(matches!(cf.form_id, RefIdType::Default(_)));
    assert_eq!(cf.change_flags, 0xdeadbeef);
    assert_eq!(cf.data_type, 0x05);
    assert_eq!(cf.version, 74);
    assert_eq!(cf.length1, vec![3]);
    assert_eq!(cf.length2, vec![0]);
    assert_eq!(cf.data, vec![9, 8, 7]);
    assert_eq!(r.get_index(), 14);
}

#[test]
fn two_byte_lengths() {
    // High bits 0b01000000: two-byte length fields.
    let mut bytes = cf_header(0x41);
    bytes.extend_from_slice(&2u16.to_le_bytes()); // length1
    bytes.extend_from_slice(&0u16.to_le_bytes()); // length2
    bytes.extend_from_slice(&[5, 6]);
    let mut r = SaveFileReader::new(bytes);
    let cf = read_change_form(&mut r).unwrap();
    assert_eq!(cf.length1, vec![2, 0]);
    assert_eq!(cf.length2, vec![0, 0]);
    assert_eq!(cf.data, vec![5, 6]);
}

#[test]
fn four_byte_lengths() {
    // High bits 0b10000000: four-byte length fields.
    let mut bytes = cf_header(0x80);
    bytes.extend_from_slice(&1u32.to_le_bytes());
    bytes.extend_from_slice(&0u32.to_le_bytes());
    bytes.push(0xcc);
    let mut r = SaveFileReader::new(bytes);
    let cf = read_change_form(&mut r).unwrap();
    assert_eq!(cf.length1, vec![1, 0, 0, 0]);
    assert_eq!(cf.length2, vec![0, 0, 0, 0]);
    assert_eq!(cf.data, vec![0xcc]);
}

#[test]
fn both_width_bits_set_is_fatal() {
    // High bits 0b11000000 select no defined width: format-fatal.
    let bytes = cf_header(0xc3);
    let mut r = SaveFileReader::new(bytes);
    let e = read_change_form(&mut r).unwrap_err();
    assert_eq!(e, DecodeError::InvalidLengthWidth { value: 0xc3 });
}

#[test]
fn compressed_payload_inflates_to_declared_size() {
    let payload: Vec<u8> = (0u8..=99).cycle().take(300).collect();
    let compressed = zlib_deflate(&payload);
    let mut bytes = cf_header(0x42);
    bytes.extend_from_slice(&(compressed.len() as u16).to_le_bytes());
    bytes.extend_from_slice(&300u16.to_le_bytes());
    bytes.extend_from_slice(&compressed);
    let mut r = SaveFileReader::new(bytes);
    let cf = read_change_form(&mut r).unwrap();
    // The decoder must really inflate: the stored payload is the original
    // 300 bytes, not the shorter compressed span it read.
    assert_eq!(cf.data, payload);
    assert_eq!(cf.length2, 300u16.to_le_bytes().to_vec());
}

#[test]
fn corrupt_compressed_payload_is_fatal() {
    let mut bytes = cf_header(0x02);
    bytes.push(4); // length1
    bytes.push(10); // length2 != 0: compressed
    bytes.extend_from_slice(&[0x00, 0x11, 0x22, 0x33]); // not a zlib stream
    let mut r = SaveFileReader::new(bytes);
    let e = read_change_form(&mut r).unwrap_err();
    assert_eq!(e, DecodeError::DecompressFailed);
}

#[test]
fn wrong_declared_size_is_fatal() {
    let payload = vec![1u8, 2, 3, 4, 5];
    let compressed = zlib_deflate(&payload);
    let mut bytes = cf_header(0x02);
    bytes.push(compressed.len() as u8);
    bytes.push(9); // declared size differs from the real 5
    bytes.extend_from_slice(&compressed);
    let mut r = SaveFileReader::new(bytes);
    let e = read_change_form(&mut r).unwrap_err();
    assert_eq!(e, DecodeError::DecompressSizeMismatch { expected: 9, actual: 5 });
}

#[test]
fn several_change_forms_in_sequence() {
    let mut bytes = Vec::new();
    for k in 0u8..3 {
        bytes.extend_from_slice(&cf_header(0x00));
        bytes.push(1);
        bytes.push(0);
        bytes.push(k);
    }
    let mut r = SaveFileReader::new(bytes);
    let forms = read_change_forms(&mut r, 3).unwrap();
    assert_eq!(forms.len(), 3);
    for (k, cf) in forms.iter().enumerate() {
        assert_eq!(cf.data, vec![k as u8]);
    }
}

#[test]
fn truncated_change_form_fails_out_of_bounds() {
    let mut bytes = cf_header(0x00);
    bytes.push(4);
    bytes.push(0);
    bytes.extend_from_slice(&[1, 2, 3, 4]);
    let full_len = bytes.len();
    // Cutting the buffer anywhere before its end must fail with an
    // out-of-bounds condition, never a read past the buffer.
    for cut in 0..full_len {
        let mut r = SaveFileReader::new(bytes[..cut].to_vec());
        let e = read_change_form(&mut r).unwrap_err();
        assert!(matches!(e, DecodeError::OutOfBounds { .. }));
    }
    let mut r = SaveFileReader::new(bytes);
    assert!(read_change_form(&mut r).is_ok());
}
