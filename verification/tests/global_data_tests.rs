use skyrim_savegame::error::Warning;
use skyrim_savegame::fundamental_types::RefIdType;
use skyrim_savegame::global_data::{
    convert_to_crime_type, read_audio, read_global_data, read_global_data_type, read_interface,
    read_misc_stats, read_process_lists, read_sky_cells, read_tes, read_weather, CrimeType,
    GlobalDataType, MiscStatCategory,
};
use skyrim_savegame::reader::SaveFileReader;

fn vsval1(v: u8) -> u8 {
    // A one-byte variable-width integer: value in the high six bits.
    v * 4
}

#[test]
fn tag_1005_always_decodes_to_terminal_empty_variant() {
    // Whatever the span holds, tag 1005 is the terminal empty variant: its
    // content is ignored by design.
    let mut w = Vec::new();
    let v = read_global_data_type(1005, vec![1, 2, 3, 4, 5], &mut w).unwrap();
    assert!(matches!(v, GlobalDataType::Main));
    assert!(w.is_empty());
    let v2 = read_global_data_type(1005, Vec::new(), &mut w).unwrap();
    assert!(matches!(v2, GlobalDataType::Main));
    assert!(w.is_empty());
}

#[test]
fn unknown_tag_decodes_to_terminal_empty_variant_with_warning() {
    let mut w = Vec::new();
    let v = read_global_data_type(999, vec![9, 9], &mut w).unwrap();
    assert!(matches!(v, GlobalDataType::Main));
    assert_eq!(w, vec![Warning::UnknownGlobalDataTag { tag: 999 }]);
}

#[test]
fn misc_stats_record_with_unknown_category() {
    let mut bytes = Vec::new();
    bytes.extend_from_slice(&2u32.to_le_bytes()); // count
    bytes.extend_from_slice(&3u16.to_le_bytes());
    bytes.extend_from_slice(b"Won");
    bytes.push(1); // category: quest
    bytes.extend_from_slice(&7u32.to_le_bytes());
    bytes.extend_from_slice(&4u16.to_le_bytes());
    bytes.extend_from_slice(b"Lost");
    bytes.push(42); // unrecognized category byte
    bytes.extend_from_slice(&9u32.to_le_bytes());
    let mut w = Vec::new();
    let mut r = SaveFileReader::new(bytes);
    let stats = read_misc_stats(&mut r, &mut w).unwrap();
    assert_eq!(stats.len(), 2);
    assert_eq!(stats[0].name, "Won");
    assert!(matches!(stats[0].category, MiscStatCategory::Quest));
    assert_eq!(stats[0].value, 7);
    assert_eq!(stats[1].name, "Lost");
    assert!(matches!(stats[1].category, MiscStatCategory::Error));
    assert_eq!(stats[1].value, 9);
    assert_eq!(w, vec![Warning::UnknownMiscStatCategory { value: 42 }]);
}

#[test]
fn tes_record_doubles_second_count() {
    let mut bytes = Vec::new();
    bytes.push(vsval1(1)); // one 5-byte entry
    bytes.extend_from_slice(&[0x40, 0x01, 0x00]); // its identifier
    bytes.extend_from_slice(&5u16.to_le_bytes()); // its trailing field
    bytes.extend_from_slice(&2u32.to_le_bytes()); // count whose doubling gives 4 identifiers
    for _ in 0..4 {
        bytes.extend_from_slice(&[0x00, 0x00, 0x00]);
    }
    bytes.push(vsval1(0)); // third list empty
    let mut w = Vec::new();
    let mut r = SaveFileReader::new(bytes);
    let tes = read_tes(&mut r, &mut w).unwrap();
    assert_eq!(tes.u1.len(), 1);
    assert_eq!(tes.u1[0].unknown, 5);
    assert_eq!(tes.u2.len(), 4);
    assert!(tes.u3.is_empty());
}

#[test]
fn audio_record_reads_track_list() {
    let mut bytes = Vec::new();
    bytes.extend_from_slice(&[0x40, 0x01, 0x00]); // descriptor
    bytes.push(vsval1(2)); // two tracks
    bytes.extend_from_slice(&[0x40, 0x02, 0x00]);
    bytes.extend_from_slice(&[0x40, 0x03, 0x00]);
    bytes.extend_from_slice(&[0x40, 0x04, 0x00]); // background music
    let mut w = Vec::new();
    let mut r = SaveFileReader::new(bytes);
    let audio = read_audio(&mut r, &mut w).unwrap();
    assert_eq!(audio.tracks.len(), 2);
    assert!(matches!(audio.bgm, RefIdType::Default(x) if x == 0x400404));
}

#[test]
fn sky_cells_record_reads_pairs() {
    let mut bytes = Vec::new();
    bytes.push(vsval1(1));
    bytes.extend_from_slice(&[0x40, 0x01, 0x00, 0x40, 0x02, 0x00]);
    let mut w = Vec::new();
    let mut r = SaveFileReader::new(bytes);
    let cells = read_sky_cells(&mut r, &mut w).unwrap();
    assert_eq!(cells.len(), 1);
    assert!(matches!(cells[0].u2, RefIdType::Default(x) if x == 0x400202));
}

#[test]
fn weather_record_flag_bits_mark_trailing_fields() {
    let mut bytes = Vec::new();
    for _ in 0..6 {
        bytes.extend_from_slice(&[0x40, 0x00, 0x00]); // six identifiers
    }
    for k in 0..11u32 {
        bytes.extend_from_slice(&k.to_le_bytes()); // the 32-bit fields
    }
    bytes.push(0x80); // flag byte: top bit set
    let mut r = SaveFileReader::new(bytes);
    let weather = read_weather(&mut r).unwrap();
    assert_eq!(weather.cur_time.bits, 0);
    assert_eq!(weather.u8_val, 10);
    assert_eq!(weather.flags, 0x80);
    assert!(weather.u9.is_some());
    assert!(weather.u10.is_none());
}

#[test]
fn crime_type_codes_map_to_categories() {
    assert!(matches!(convert_to_crime_type(0), CrimeType::Theft));
    assert!(matches!(convert_to_crime_type(4), CrimeType::Murder));
    assert!(matches!(convert_to_crime_type(6), CrimeType::Lycanthropy));
    assert!(matches!(convert_to_crime_type(7), CrimeType::Error));
}

#[test]
fn process_lists_with_one_crime_and_unknown_code() {
    let mut bytes = Vec::new();
    for _ in 0..3 {
        bytes.extend_from_slice(&0u32.to_le_bytes()); // three bit patterns
    }
    bytes.extend_from_slice(&11u32.to_le_bytes()); // next serial number
    bytes.push(vsval1(1)); // one crime
    bytes.extend_from_slice(&2u32.to_le_bytes()); // witness count field
    bytes.extend_from_slice(&88u32.to_le_bytes()); // unrecognized crime code
    bytes.push(0); // u1
    bytes.extend_from_slice(&3u32.to_le_bytes()); // quantity
    bytes.extend_from_slice(&1u32.to_le_bytes()); // serial
    bytes.push(0); // u2
    bytes.extend_from_slice(&0u32.to_le_bytes()); // u3
    bytes.extend_from_slice(&0u32.to_le_bytes()); // elapsed time bits
    for _ in 0..4 {
        bytes.extend_from_slice(&[0x00, 0x00, 0x00]); // four identifiers
    }
    bytes.push(vsval1(1)); // one witness
    bytes.extend_from_slice(&[0x40, 0x01, 0x00]);
    bytes.extend_from_slice(&40u32.to_le_bytes()); // bounty
    bytes.extend_from_slice(&[0x40, 0x02, 0x00]); // faction
    bytes.push(2); // boolean byte above 1
    bytes.extend_from_slice(&0u16.to_le_bytes()); // u4
    let mut w = Vec::new();
    let mut r = SaveFileReader::new(bytes);
    let pl = read_process_lists(&mut r, &mut w).unwrap();
    assert_eq!(pl.next_num, 11);
    assert_eq!(pl.all_crimes.len(), 1);
    let crime = &pl.all_crimes[0];
    assert!(matches!(crime.crime_type, CrimeType::Error));
    assert_eq!(crime.witnesses.len(), 1);
    assert_eq!(crime.bounty, 40);
    assert!(crime.is_cleared);
    assert_eq!(
        w,
        vec![Warning::UnknownCrimeType { value: 88 }, Warning::UnknownBoolByte { value: 2 }],
    );
}

#[test]
fn interface_record_reads_lists() {
    let mut bytes = Vec::new();
    bytes.extend_from_slice(&2u32.to_le_bytes()); // two help messages
    bytes.extend_from_slice(&0xecu32.to_le_bytes());
    bytes.extend_from_slice(&0xf3u32.to_le_bytes());
    bytes.push(7); // u0
    bytes.push(vsval1(1)); // one last-used weapon
    bytes.extend_from_slice(&[0x40, 0x01, 0x00]);
    bytes.push(vsval1(0)); // spells
    bytes.push(vsval1(0)); // shouts
    bytes.push(9); // u1
    let mut w = Vec::new();
    let mut r = SaveFileReader::new(bytes);
    let ui = read_interface(&mut r, &mut w).unwrap();
    assert_eq!(ui.shown_help_msg, vec![0xec, 0xf3]);
    assert_eq!(ui.u0, 7);
    assert_eq!(ui.last_used_weapons.len(), 1);
    assert!(ui.last_used_spells.is_empty());
    assert_eq!(ui.u1, 9);
    assert!(ui.u2.is_none());
}

#[test]
fn story_teller_record_reads_boolean_byte() {
    let mut w = Vec::new();
    let v = read_global_data_type(108, vec![1], &mut w).unwrap();
    assert!(matches!(v, GlobalDataType::StoryTeller(true)));
    let v2 = read_global_data_type(108, vec![0], &mut w).unwrap();
    assert!(matches!(v2, GlobalDataType::StoryTeller(false)));
}

#[test]
fn player_controls_reads_fields_in_stream_order() {
    let mut w = Vec::new();
    let v = read_global_data_type(110, vec![1, 2, 3, 0x34, 0x12, 5], &mut w).unwrap();
    assert!(matches!(v, GlobalDataType::PlayerControls(1, 2, 3, 0x1234, 5)));
}

#[test]
fn opaque_records_keep_their_spans() {
    let mut w = Vec::new();
    let v = read_global_data_type(1001, vec![0xaa, 0xbb], &mut w).unwrap();
    match v {
        GlobalDataType::Papyrus(d) => assert_eq!(d, vec![0xaa, 0xbb]),
        _ => panic!("expected the opaque scripting record"),
    }
}

#[test]
fn global_data_table_reads_tagged_spans() {
    let mut bytes = Vec::new();
    // Record 1: tag 108, length 1, payload [1].
    bytes.extend_from_slice(&108u32.to_le_bytes());
    bytes.extend_from_slice(&1u32.to_le_bytes());
    bytes.push(1);
    // Record 2: tag 1005, length 3, ignored payload.
    bytes.extend_from_slice(&1005u32.to_le_bytes());
    bytes.extend_from_slice(&3u32.to_le_bytes());
    bytes.extend_from_slice(&[7, 7, 7]);
    let mut w = Vec::new();
    let mut r = SaveFileReader::new(bytes);
    let records = read_global_data(&mut r, 2, &mut w).unwrap();
    assert_eq!(records.len(), 2);
    assert!(matches!(records[0], GlobalDataType::StoryTeller(true)));
    assert!(matches!(records[1], GlobalDataType::Main));
}
