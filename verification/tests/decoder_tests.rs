use skyrim_savegame::fundamental_types::RefIdType;
use skyrim_savegame::global_data::{
    read_anim_objects, read_created_objects, read_detection_manager, read_effects,
    read_global_variables, read_ingredients_combined, read_magic_favorites, read_player_location,
    read_quest_static_data, read_story_event_manager, QuestRunDataItem3DataType,
};
use skyrim_savegame::reader::{read_into_vec, SaveFileReader};

fn count1(v: u8) -> u8 {
    // A one-byte variable-width integer: value in the high six bits.
    v * 4
}

#[test]
fn player_location_reads_fixed_fields() {
    let mut bytes = Vec::new();
    bytes.extend_from_slice(&0xff000001u32.to_le_bytes()); // next object id
    bytes.extend_from_slice(&[0x40, 0x01, 0x00]); // first worldspace
    bytes.extend_from_slice(&(-3i32).to_le_bytes()); // cell x
    bytes.extend_from_slice(&4i32.to_le_bytes()); // cell y
    bytes.extend_from_slice(&[0x40, 0x02, 0x00]); // second worldspace
    bytes.extend_from_slice(&0x3f800000u32.to_le_bytes()); // position bits
    bytes.extend_from_slice(&0x40000000u32.to_le_bytes());
    bytes.extend_from_slice(&0x40400000u32.to_le_bytes());
    let mut r = SaveFileReader::new(bytes);
    let loc = read_player_location(&mut r).unwrap();
    assert_eq!(loc.next_object_id, 0xff000001);
    assert_eq!(loc.coor_x, -3);
    assert_eq!(loc.coor_y, 4);
    assert_eq!(loc.pos_z.bits, 0x40400000);
    assert!(loc.unk.is_empty());
    assert_eq!(r.get_index(), 30);
}

#[test]
fn global_variables_record() {
    let mut bytes = Vec::new();
    bytes.push(count1(2));
    bytes.extend_from_slice(&[0x40, 0x01, 0x00]);
    bytes.extend_from_slice(&0x3f000000u32.to_le_bytes());
    bytes.extend_from_slice(&[0x40, 0x02, 0x00]);
    bytes.extend_from_slice(&0x3e000000u32.to_le_bytes());
    let mut w = Vec::new();
    let mut r = SaveFileReader::new(bytes);
    let vars = read_global_variables(&mut r, &mut w).unwrap();
    assert_eq!(vars.len(), 2);
    assert_eq!(vars[0].value.bits, 0x3f000000);
    assert_eq!(vars[1].value.bits, 0x3e000000);
}

#[test]
fn created_objects_with_one_enchantment() {
    let mut bytes = Vec::new();
    bytes.push(count1(1)); // one weapon enchantment
    bytes.extend_from_slice(&[0x80, 0x01, 0x00]); // its identifier
    bytes.extend_from_slice(&2u32.to_le_bytes()); // times used
    bytes.push(count1(1)); // one effect
    bytes.extend_from_slice(&[0x40, 0x02, 0x00]); // effect id
    bytes.extend_from_slice(&0x3f800000u32.to_le_bytes()); // magnitude bits
    bytes.extend_from_slice(&10u32.to_le_bytes()); // duration
    bytes.extend_from_slice(&5u32.to_le_bytes()); // area
    bytes.extend_from_slice(&0x41200000u32.to_le_bytes()); // price bits
    bytes.push(count1(0)); // armour table empty
    bytes.push(count1(0)); // potion table empty
    bytes.push(count1(0)); // poison table empty
    let mut w = Vec::new();
    let mut r = SaveFileReader::new(bytes);
    let created = read_created_objects(&mut r, &mut w).unwrap();
    assert_eq!(created.weapon_ench_table.len(), 1);
    let ench = &created.weapon_ench_table[0];
    assert!(matches!(ench.ref_id, RefIdType::Created(_)));
    assert_eq!(ench.times_used, 2);
    assert_eq!(ench.effects.len(), 1);
    assert_eq!(ench.effects[0].info.duration, 10);
    assert_eq!(ench.effects[0].price.bits, 0x41200000);
    assert!(created.armour_ench_table.is_empty());
}

#[test]
fn effects_record_reads_modifiers_and_trailer() {
    let mut bytes = Vec::new();
    bytes.push(count1(1));
    bytes.extend_from_slice(&0x3f000000u32.to_le_bytes()); // strength bits
    bytes.extend_from_slice(&0x3e000000u32.to_le_bytes()); // timestamp bits
    bytes.extend_from_slice(&9u32.to_le_bytes()); // unknown
    bytes.extend_from_slice(&[0x40, 0x01, 0x00]); // effect id
    bytes.extend_from_slice(&1u32.to_le_bytes()); // trailing bits
    bytes.extend_from_slice(&2u32.to_le_bytes());
    let mut w = Vec::new();
    let mut r = SaveFileReader::new(bytes);
    let fx = read_effects(&mut r, &mut w).unwrap();
    assert_eq!(fx.image_space_modifiers.len(), 1);
    assert_eq!(fx.image_space_modifiers[0].unknown, 9);
    assert_eq!(fx.unknown1.bits, 1);
    assert_eq!(fx.unknown2.bits, 2);
}

#[test]
fn detection_manager_record() {
    let mut bytes = Vec::new();
    bytes.push(count1(1));
    bytes.extend_from_slice(&[0x40, 0x01, 0x00]);
    bytes.extend_from_slice(&3u32.to_le_bytes());
    bytes.extend_from_slice(&4u32.to_le_bytes());
    let mut w = Vec::new();
    let mut r = SaveFileReader::new(bytes);
    let items = read_detection_manager(&mut r, &mut w).unwrap();
    assert_eq!(items.len(), 1);
    assert_eq!(items[0].u1, 3);
    assert_eq!(items[0].u2, 4);
}

#[test]
fn magic_favorites_record() {
    let mut bytes = Vec::new();
    bytes.push(count1(2));
    bytes.extend_from_slice(&[0x40, 0x01, 0x00]);
    bytes.extend_from_slice(&[0x40, 0x02, 0x00]);
    bytes.push(count1(1));
    bytes.extend_from_slice(&[0x40, 0x03, 0x00]);
    let mut w = Vec::new();
    let mut r = SaveFileReader::new(bytes);
    let fav = read_magic_favorites(&mut r, &mut w).unwrap();
    assert_eq!(fav.favorited_magics.len(), 2);
    assert_eq!(fav.magic_hot_keys.len(), 1);
}

#[test]
fn story_event_manager_keeps_unresearched_list_empty() {
    let mut bytes = Vec::new();
    bytes.extend_from_slice(&6u32.to_le_bytes());
    bytes.push(count1(5)); // a count whose list layout is unresearched
    let mut w = Vec::new();
    let mut r = SaveFileReader::new(bytes);
    let sem = read_story_event_manager(&mut r, &mut w).unwrap();
    assert_eq!(sem.u0, 6);
    assert!(sem.u1.is_empty());
    assert_eq!(r.get_index(), 5);
}

#[test]
fn ingredients_and_anim_objects_records() {
    let mut bytes = Vec::new();
    bytes.extend_from_slice(&1u32.to_le_bytes());
    bytes.extend_from_slice(&[0x40, 0x01, 0x00, 0x40, 0x02, 0x00]);
    let mut w = Vec::new();
    let mut r = SaveFileReader::new(bytes);
    let pairs = read_ingredients_combined(&mut r, &mut w).unwrap();
    assert_eq!(pairs.len(), 1);

    let mut bytes2 = Vec::new();
    bytes2.extend_from_slice(&1u32.to_le_bytes());
    bytes2.extend_from_slice(&[0x40, 0x01, 0x00, 0x40, 0x02, 0x00, 0x01]);
    let mut r2 = SaveFileReader::new(bytes2);
    let objs = read_anim_objects(&mut r2, &mut w).unwrap();
    assert_eq!(objs.len(), 1);
    assert_eq!(objs[0].u1, 1);
}

#[test]
fn quest_static_data_record() {
    let mut bytes = Vec::new();
    // One run-data item with one element of each kind of payload.
    bytes.extend_from_slice(&1u32.to_le_bytes());
    bytes.extend_from_slice(&77u32.to_le_bytes()); // item field
    bytes.extend_from_slice(&0x3f800000u32.to_le_bytes()); // item bits
    bytes.extend_from_slice(&2u32.to_le_bytes()); // two elements
    bytes.extend_from_slice(&3u32.to_le_bytes()); // element tag 3: plain value
    bytes.extend_from_slice(&9u32.to_le_bytes());
    bytes.extend_from_slice(&1u32.to_le_bytes()); // element tag 1: identifier
    bytes.extend_from_slice(&[0x40, 0x01, 0x00]);
    bytes.extend_from_slice(&0u32.to_le_bytes()); // second run-data list empty
    bytes.extend_from_slice(&0u32.to_le_bytes()); // three reference lists empty
    bytes.extend_from_slice(&0u32.to_le_bytes());
    bytes.extend_from_slice(&0u32.to_le_bytes());
    bytes.push(count1(1)); // one group
    bytes.extend_from_slice(&[0x40, 0x02, 0x00]); // its identifier
    bytes.push(count1(1)); // one pair
    bytes.extend_from_slice(&5u32.to_le_bytes());
    bytes.extend_from_slice(&6u32.to_le_bytes());
    bytes.push(0xab); // trailing byte
    let mut w = Vec::new();
    let mut r = SaveFileReader::new(bytes);
    let qsd = read_quest_static_data(&mut r, &mut w).unwrap();
    assert_eq!(qsd.u0.len(), 1);
    assert_eq!(qsd.u0[0].u1, 77);
    let elems = &qsd.u0[0].quest_run_data_item_3_data;
    assert!(matches!(elems[0], QuestRunDataItem3DataType::U32(9)));
    assert!(matches!(elems[1], QuestRunDataItem3DataType::RefId(_)));
    assert!(qsd.u1.is_empty());
    assert_eq!(qsd.u5.len(), 1);
    assert_eq!(qsd.u5[0].u1[0].unk_1_0, 5);
    assert_eq!(qsd.u6, 0xab);
    assert!(w.is_empty());
}

#[test]
fn generic_element_loop_collects_results() {
    let mut r = SaveFileReader::new(vec![1, 0, 0, 0, 2, 0, 0, 0]);
    let v = read_into_vec(&mut r, 2, |s: &mut SaveFileReader| s.read_u32()).unwrap();
    assert_eq!(v, vec![1, 2]);
    let mut r2 = SaveFileReader::new(vec![1, 0]);
    assert!(read_into_vec(&mut r2, 2, |s: &mut SaveFileReader| s.read_u32()).is_err());
}
