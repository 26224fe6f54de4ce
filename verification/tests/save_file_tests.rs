use skyrim_savegame::error::DecodeError;
use skyrim_savegame::global_data::GlobalDataType;
use skyrim_savegame::parse_save_file;

fn wstr(s: &str) -> Vec<u8> {
    let mut out = (s.len() as u16).to_le_bytes().to_vec();
    out.extend_from_slice(s.as_bytes());
    out
}

fn header_bytes(compression_type: u16) -> Vec<u8> {
    let mut h = Vec::new();
    h.extend_from_slice(&12u32.to_le_bytes()); // version
    h.extend_from_slice(&3u32.to_le_bytes()); // save number
    h.extend_from_slice(&wstr("Hero")); // player name
    h.extend_from_slice(&81u32.to_le_bytes()); // player level
    h.extend_from_slice(&wstr("Whiterun")); // player location
    h.extend_from_slice(&wstr("001d")); // in-game date
    h.extend_from_slice(&wstr("NordRace")); // race editor id
    h.extend_from_slice(&1u16.to_le_bytes()); // sex
    h.extend_from_slice(&0x3f800000u32.to_le_bytes()); // current experience bits
    h.extend_from_slice(&0x40000000u32.to_le_bytes()); // level-up experience bits
    h.extend_from_slice(&7u32.to_le_bytes()); // timestamp low
    h.extend_from_slice(&8u32.to_le_bytes()); // timestamp high
    h.extend_from_slice(&0u32.to_le_bytes()); // screenshot width
    h.extend_from_slice(&0u32.to_le_bytes()); // screenshot height
    h.extend_from_slice(&compression_type.to_le_bytes());
    h
}

/// A minimal body: no plugins, all table counts zero. The third global-data
/// table still holds one record (the stored count is one less than the
/// records present), here the terminal empty variant.
fn minimal_body() -> Vec<u8> {
    let mut b = Vec::new();
    b.push(74); // form version
    b.extend_from_slice(&1u32.to_le_bytes()); // plugin info size (discarded)
    b.push(0); // plugin count
    b.extend_from_slice(&0u16.to_le_bytes()); // light plugin count
    for _ in 0..10 {
        b.extend_from_slice(&0u32.to_le_bytes()); // file location table
    }
    b.extend_from_slice(&[0u8; 60]); // reserved region
    // Global-data table 3: the one record the + 1 compensation asks for.
    b.extend_from_slice(&1005u32.to_le_bytes());
    b.extend_from_slice(&0u32.to_le_bytes());
    b.extend_from_slice(&0u32.to_le_bytes()); // form id array count
    b.extend_from_slice(&0u32.to_le_bytes()); // visited worldspace count
    b.extend_from_slice(&0u32.to_le_bytes()); // string table byte size (discarded)
    b.extend_from_slice(&0u32.to_le_bytes()); // string table count
    b
}

fn container(compression_type: u16, body: &[u8], uncompressed_len: u32) -> Vec<u8> {
    let mut f = Vec::new();
    f.extend_from_slice(b"TESV_SAVEGAME");
    f.extend_from_slice(&0u32.to_le_bytes()); // header size (discarded)
    f.extend_from_slice(&header_bytes(compression_type));
    // zero-sized screenshot: no bytes
    f.extend_from_slice(&uncompressed_len.to_le_bytes());
    f.extend_from_slice(&(body.len() as u32).to_le_bytes());
    f.extend_from_slice(body);
    f
}

#[test]
fn minimal_container_decodes_end_to_end() {
    let body = minimal_body();
    let file = container(0, &body, 0);
    let save = parse_save_file(file).unwrap();
    assert_eq!(save.magic, "TESV_SAVEGAME");
    assert_eq!(save.header.version, 12);
    assert_eq!(save.header.player_name, "Hero");
    assert_eq!(save.header.player_level, 81);
    assert_eq!(save.header.player_location, "Whiterun");
    assert_eq!(save.header.player_cur_exp.bits, 0x3f800000);
    assert_eq!(save.header.filetime.dw_low_date_time, 7);
    assert_eq!(save.header.compression_type, 0);
    assert_eq!(save.screenshot_data.width, 0);
    assert!(save.screenshot_data.data.is_empty());
    assert_eq!(save.form_version, 74);
    assert!(save.plugin_info.is_empty());
    assert!(save.light_plugin_info.is_empty());
    assert!(save.global_data_table_1.is_empty());
    assert!(save.global_data_table_2.is_empty());
    assert!(save.change_forms.is_empty());
    // The stored third-table count was 0; the documented compensation makes
    // the actual count 1.
    assert_eq!(save.global_data_table_3.len(), 1);
    assert!(matches!(save.global_data_table_3[0], GlobalDataType::Main));
    assert!(save.form_id_array.is_empty());
    assert!(save.visited_worldspace_array.is_empty());
    assert!(save.unknown_3_table.is_empty());
    assert!(save.warnings.is_empty());
}

#[test]
fn magic_mismatch_is_fatal() {
    let body = minimal_body();
    let mut file = container(0, &body, 0);
    file[0] = b'X';
    assert_eq!(parse_save_file(file).unwrap_err(), DecodeError::MagicMismatch);
}

#[test]
fn legacy_compression_code_is_fatal() {
    let body = minimal_body();
    let file = container(1, &body, 0);
    assert_eq!(
        parse_save_file(file).unwrap_err(),
        DecodeError::UnsupportedCompression { code: 1 },
    );
}

#[test]
fn unknown_compression_code_is_fatal() {
    let body = minimal_body();
    let file = container(7, &body, 0);
    assert_eq!(
        parse_save_file(file).unwrap_err(),
        DecodeError::UnsupportedCompression { code: 7 },
    );
}

#[test]
fn block_compressed_body_decodes() {
    let body = minimal_body();
    let compressed = lz4_flex::compress(&body);
    let file = container(2, &compressed, body.len() as u32);
    let save = parse_save_file(file).unwrap();
    // The decoder must really decompress: the decoded structure matches the
    // uncompressed body, not the compressed bytes it was handed.
    assert_eq!(save.form_version, 74);
    assert_eq!(save.global_data_table_3.len(), 1);
    assert!(save.warnings.is_empty());
}

#[test]
fn wrong_declared_body_size_is_fatal() {
    let body = minimal_body();
    let compressed = lz4_flex::compress(&body);
    let declared = body.len() as u32 + 1;
    let file = container(2, &compressed, declared);
    let e = parse_save_file(file).unwrap_err();
    assert_eq!(
        e,
        DecodeError::DecompressSizeMismatch {
            expected: declared as usize,
            actual: body.len(),
        },
    );
}

#[test]
fn corrupt_compressed_body_is_fatal() {
    let body = minimal_body();
    let mut compressed = lz4_flex::compress(&body);
    // Truncating the block stream corrupts it.
    compressed.truncate(2);
    let file = container(2, &compressed, body.len() as u32);
    let e = parse_save_file(file).unwrap_err();
    assert!(matches!(
        e,
        DecodeError::DecompressFailed | DecodeError::DecompressSizeMismatch { .. },
    ));
}

#[test]
fn truncating_anywhere_fails_out_of_bounds() {
    // The minimal container is consumed to its last byte, so cutting it
    // anywhere must make the decode fail with an out-of-bounds condition
    // rather than read past the buffer.
    let body = minimal_body();
    let file = container(0, &body, 0);
    assert!(parse_save_file(file.clone()).is_ok());
    for cut in 0..file.len() {
        let e = parse_save_file(file[..cut].to_vec()).unwrap_err();
        assert!(
            matches!(e, DecodeError::OutOfBounds { .. }),
            "cut at {} gave {:?}",
            cut,
            e,
        );
    }
}

#[test]
fn screenshot_bytes_sized_by_header_dimensions() {
    // A 1-by-2 screenshot: 8 RGBA bytes between the header and the length
    // fields.
    let mut h = header_bytes(0);
    let width_at = h.len() - 10;
    h[width_at..width_at + 4].copy_from_slice(&1u32.to_le_bytes());
    h[width_at + 4..width_at + 8].copy_from_slice(&2u32.to_le_bytes());
    let body = minimal_body();
    let mut f = Vec::new();
    f.extend_from_slice(b"TESV_SAVEGAME");
    f.extend_from_slice(&0u32.to_le_bytes());
    f.extend_from_slice(&h);
    f.extend_from_slice(&[0xaa; 8]);
    f.extend_from_slice(&0u32.to_le_bytes());
    f.extend_from_slice(&(body.len() as u32).to_le_bytes());
    f.extend_from_slice(&body);
    let save = parse_save_file(f).unwrap();
    assert_eq!(save.screenshot_data.width, 1);
    assert_eq!(save.screenshot_data.height, 2);
    assert_eq!(save.screenshot_data.data, vec![0xaa; 8]);
}

#[test]
fn plugin_lists_are_decoded() {
    let mut b = Vec::new();
    b.push(74);
    b.extend_from_slice(&0u32.to_le_bytes());
    b.push(2); // two plugins
    b.extend_from_slice(&wstr("Base.esm"));
    b.extend_from_slice(&wstr("Extra.esp"));
    b.extend_from_slice(&1u16.to_le_bytes()); // one light plugin
    b.extend_from_slice(&wstr("Light.esl"));
    for _ in 0..10 {
        b.extend_from_slice(&0u32.to_le_bytes());
    }
    b.extend_from_slice(&[0u8; 60]);
    b.extend_from_slice(&1005u32.to_le_bytes());
    b.extend_from_slice(&0u32.to_le_bytes());
    b.extend_from_slice(&0u32.to_le_bytes());
    b.extend_from_slice(&0u32.to_le_bytes());
    b.extend_from_slice(&0u32.to_le_bytes());
    b.extend_from_slice(&0u32.to_le_bytes());
    let file = container(0, &b, 0);
    let save = parse_save_file(file).unwrap();
    assert_eq!(save.plugin_info, vec!["Base.esm".to_string(), "Extra.esp".to_string()]);
    assert_eq!(save.light_plugin_info, vec!["Light.esl".to_string()]);
}

#[test]
fn warnings_are_attached_to_the_result() {
    // A malformed plugin name: the decode succeeds with the sentinel text and
    // a non-empty warning list.
    let mut b = Vec::new();
    b.push(74);
    b.extend_from_slice(&0u32.to_le_bytes());
    b.push(1);
    b.extend_from_slice(&2u16.to_le_bytes());
    b.extend_from_slice(&[0xff, 0xfe]); // not UTF-8
    b.extend_from_slice(&0u16.to_le_bytes());
    for _ in 0..10 {
        b.extend_from_slice(&0u32.to_le_bytes());
    }
    b.extend_from_slice(&[0u8; 60]);
    b.extend_from_slice(&1005u32.to_le_bytes());
    b.extend_from_slice(&0u32.to_le_bytes());
    b.extend_from_slice(&0u32.to_le_bytes());
    b.extend_from_slice(&0u32.to_le_bytes());
    b.extend_from_slice(&0u32.to_le_bytes());
    b.extend_from_slice(&0u32.to_le_bytes());
    let file = container(0, &b, 0);
    let save = parse_save_file(file).unwrap();
    assert_eq!(save.plugin_info, vec!["Error while parsing string!".to_string()]);
    assert!(!save.warnings.is_empty());
}
