//! The global-data table: type-tagged, length-delimited records describing
//! persistent subsystem state. Each record carries a 32-bit type tag and a
//! 32-bit byte length; the decoder for that tag consumes a fresh sub-cursor
//! scoped to exactly that span, so one record's layout can never disturb the
//! next record's alignment. An unregistered tag decodes to the terminal empty
//! variant with a warning — unknown tags are expected across format drift and
//! never abort the table.

use vstd::prelude::*;

use crate::error::{DecodeError, Warning};
use crate::fundamental_types::{F32Bits, RefIdType};
use crate::reader::{
    can_read, err_matches, le32, lemma_warning_prefix, sp_bytes, sp_f32, sp_ref_id,
    sp_ref_ids, sp_u16, sp_u32, sp_u32s, sp_u8, sp_vsval_u32, sp_w_string, read_ref_id,
    read_ref_ids_into_vec, read_u32s_into_vec, read_vsval_to_u32, SaveFileReader,
};

verus! {

/// One entry of the miscellaneous-statistics record.
#[derive(Clone, Debug)]
pub struct MiscStats {
    pub name: String,
    pub category: MiscStatCategory,
    pub value: u32,
}

/// The spec-level model of a `MiscStats` entry.
pub struct MiscStatsV {
    pub name: Seq<char>,
    pub category: MiscStatCategory,
    pub value: u32,
}

impl DeepView for MiscStats {
    type V = MiscStatsV;

    open spec fn deep_view(&self) -> MiscStatsV {
        MiscStatsV { name: self.name@, category: self.category, value: self.value }
    }
}

/// The statistic categories the menu groups by; a byte outside the known
/// range maps to the explicit unrecognized variant.
#[derive(Clone, Copy, Debug, PartialEq, Eq, Structural)]
pub enum MiscStatCategory {
    General,
    Quest,
    Combat,
    Magic,
    Crafting,
    Crime,
    /// Stats added by later game editions; not shown in the in-game menu.
    DLCStats,
    /// A category byte this decoder does not recognize.
    Error,
}

/// The category a stored category byte maps to.
pub open spec fn spec_misc_stat_category(v: u8) -> MiscStatCategory {
    if v == 0 {
        MiscStatCategory::General
    } else if v == 1 {
        MiscStatCategory::Quest
    } else if v == 2 {
        MiscStatCategory::Combat
    } else if v == 3 {
        MiscStatCategory::Magic
    } else if v == 4 {
        MiscStatCategory::Crafting
    } else if v == 5 {
        MiscStatCategory::Crime
    } else if v == 6 {
        MiscStatCategory::DLCStats
    } else {
        MiscStatCategory::Error
    }
}

/// The player-location record. Position coordinates are IEEE-754 bit
/// patterns, carried uninterpreted.
#[derive(Clone, Debug)]
pub struct PlayerLocation {
    /// Number of the next savegame-specific object id.
    pub next_object_id: u32,
    /// Usually zero or a worldspace; `coor_x`/`coor_y` name a cell in it.
    pub world_space_1: RefIdType,
    pub coor_x: i32,
    pub coor_y: i32,
    /// A worldspace or an interior cell holding the player's position.
    pub world_space_2: RefIdType,
    pub pos_x: F32Bits,
    pub pos_y: F32Bits,
    pub pos_z: F32Bits,
    /// A trailing field absent in some format versions; never read by this
    /// decoder, kept explicitly empty.
    pub unk: Vec<u8>,
}

/// The spec-level model of a `PlayerLocation`.
pub struct PlayerLocationV {
    pub next_object_id: u32,
    pub world_space_1: RefIdType,
    pub coor_x: i32,
    pub coor_y: i32,
    pub world_space_2: RefIdType,
    pub pos_x: F32Bits,
    pub pos_y: F32Bits,
    pub pos_z: F32Bits,
    pub unk: Seq<u8>,
}

impl DeepView for PlayerLocation {
    type V = PlayerLocationV;

    open spec fn deep_view(&self) -> PlayerLocationV {
        PlayerLocationV {
            next_object_id: self.next_object_id,
            world_space_1: self.world_space_1,
            coor_x: self.coor_x,
            coor_y: self.coor_y,
            world_space_2: self.world_space_2,
            pos_x: self.pos_x,
            pos_y: self.pos_y,
            pos_z: self.pos_z,
            unk: self.unk@,
        }
    }
}

/// The TES bookkeeping record: three arrays of unresearched purpose.
#[derive(Clone, Debug)]
pub struct TES {
    pub u1: Vec<TESUnknown0>,
    pub u2: Vec<RefIdType>,
    pub u3: Vec<RefIdType>,
}

/// The spec-level model of a `TES` record.
pub struct TESV {
    pub u1: Seq<TESUnknown0>,
    pub u2: Seq<RefIdType>,
    pub u3: Seq<RefIdType>,
}

impl DeepView for TES {
    type V = TESV;

    open spec fn deep_view(&self) -> TESV {
        TESV { u1: self.u1@, u2: self.u2@, u3: self.u3@ }
    }
}

#[derive(Clone, Copy, Debug, PartialEq, Eq, Structural)]
pub struct TESUnknown0 {
    pub form_id: RefIdType,
    pub unknown: u16,
}

impl DeepView for TESUnknown0 {
    type V = TESUnknown0;

    open spec fn deep_view(&self) -> TESUnknown0 {
        *self
    }
}

/// One global variable: a form identifier and its value's bit pattern.
#[derive(Clone, Copy, Debug, PartialEq, Eq, Structural)]
pub struct GlobalVariable {
    pub form_id: RefIdType,
    pub value: F32Bits,
}

impl DeepView for GlobalVariable {
    type V = GlobalVariable;

    open spec fn deep_view(&self) -> GlobalVariable {
        *self
    }
}

/// The created-objects record: the four tables of player-made enchantments,
/// potions and poisons.
#[derive(Clone, Debug)]
pub struct CreatedObjects {
    /// Created enchantments that are or were applied to weapons.
    pub weapon_ench_table: Vec<Enchantment>,
    /// Created enchantments that are or were applied to armour.
    pub armour_ench_table: Vec<Enchantment>,
    /// Created potions.
    pub potion_table: Vec<Enchantment>,
    /// Created poisons.
    pub poison_table: Vec<Enchantment>,
}

/// The spec-level model of a `CreatedObjects` record.
pub struct CreatedObjectsV {
    pub weapon_ench_table: Seq<EnchantmentV>,
    pub armour_ench_table: Seq<EnchantmentV>,
    pub potion_table: Seq<EnchantmentV>,
    pub poison_table: Seq<EnchantmentV>,
}

impl DeepView for CreatedObjects {
    type V = CreatedObjectsV;

    open spec fn deep_view(&self) -> CreatedObjectsV {
        CreatedObjectsV {
            weapon_ench_table: self.weapon_ench_table.deep_view(),
            armour_ench_table: self.armour_ench_table.deep_view(),
            potion_table: self.potion_table.deep_view(),
            poison_table: self.poison_table.deep_view(),
        }
    }
}

/// One created enchantment (or potion/poison) and its effect list.
#[derive(Clone, Debug)]
pub struct Enchantment {
    pub ref_id: RefIdType,
    /// Seems to count how often the enchantment is used.
    pub times_used: u32,
    pub effects: Vec<MagicEffect>,
}

/// The spec-level model of an `Enchantment`.
pub struct EnchantmentV {
    pub ref_id: RefIdType,
    pub times_used: u32,
    pub effects: Seq<MagicEffect>,
}

impl DeepView for Enchantment {
    type V = EnchantmentV;

    open spec fn deep_view(&self) -> EnchantmentV {
        EnchantmentV {
            ref_id: self.ref_id,
            times_used: self.times_used,
            effects: self.effects@,
        }
    }
}

/// One magic effect of a created enchantment.
#[derive(Clone, Copy, Debug, PartialEq, Eq, Structural)]
pub struct MagicEffect {
    pub effect_id: RefIdType,
    pub info: EnchInfo,
    /// What this effect adds to the base item's price (a bit pattern).
    pub price: F32Bits,
}

impl DeepView for MagicEffect {
    type V = MagicEffect;

    open spec fn deep_view(&self) -> MagicEffect {
        *self
    }
}

#[derive(Clone, Copy, Debug, PartialEq, Eq, Structural)]
pub struct EnchInfo {
    pub magnitude: F32Bits,
    pub duration: u32,
    pub area: u32,
}

/// The image-space-modifier record.
#[derive(Clone, Debug)]
pub struct Effects {
    pub image_space_modifiers: Vec<Effect>,
    pub unknown1: F32Bits,
    pub unknown2: F32Bits,
}

/// The spec-level model of an `Effects` record.
pub struct EffectsV {
    pub image_space_modifiers: Seq<Effect>,
    pub unknown1: F32Bits,
    pub unknown2: F32Bits,
}

impl DeepView for Effects {
    type V = EffectsV;

    open spec fn deep_view(&self) -> EffectsV {
        EffectsV {
            image_space_modifiers: self.image_space_modifiers@,
            unknown1: self.unknown1,
            unknown2: self.unknown2,
        }
    }
}

/// One image-space modifier.
#[derive(Clone, Copy, Debug, PartialEq, Eq, Structural)]
pub struct Effect {
    /// Strength from no effect to full effect (a bit pattern).
    pub strength: F32Bits,
    /// Time from the effect's beginning (a bit pattern).
    pub timestamp: F32Bits,
    pub unknown: u32,
    pub effect_id: RefIdType,
}

impl DeepView for Effect {
    type V = Effect;

    open spec fn deep_view(&self) -> Effect {
        *self
    }
}

/// The weather record. The two trailing fields are present only when the
/// flag byte marks them and their layout is unresearched: they are kept as
/// explicitly present-but-undecoded markers (empty text).
#[derive(Clone, Debug)]
pub struct Weather {
    pub climate: RefIdType,
    pub weather: RefIdType,
    /// Nonzero only during a weather transition.
    pub prev_weather: RefIdType,
    pub unk_weather_1: RefIdType,
    pub unk_weather_2: RefIdType,
    pub regn_weather: RefIdType,
    /// Current in-game time in hours (a bit pattern).
    pub cur_time: F32Bits,
    /// Time the current weather began (a bit pattern).
    pub beg_time: F32Bits,
    /// How far the current weather has transitioned (a bit pattern).
    pub weather_pct: F32Bits,
    pub u1: u32,
    pub u2: u32,
    pub u3: u32,
    pub u4: u32,
    pub u5: u32,
    pub u6: u32,
    pub u7: F32Bits,
    pub u8_val: u32,
    pub flags: u8,
    /// Present only when the flag byte's top bit is set; not decoded.
    pub u9: Option<String>,
    /// Present only when the flag byte's second bit is set; not decoded.
    pub u10: Option<String>,
}

/// The spec-level model of a `Weather` record.
pub struct WeatherV {
    pub climate: RefIdType,
    pub weather: RefIdType,
    pub prev_weather: RefIdType,
    pub unk_weather_1: RefIdType,
    pub unk_weather_2: RefIdType,
    pub regn_weather: RefIdType,
    pub cur_time: F32Bits,
    pub beg_time: F32Bits,
    pub weather_pct: F32Bits,
    pub u1: u32,
    pub u2: u32,
    pub u3: u32,
    pub u4: u32,
    pub u5: u32,
    pub u6: u32,
    pub u7: F32Bits,
    pub u8_val: u32,
    pub flags: u8,
    pub u9: Option<Seq<char>>,
    pub u10: Option<Seq<char>>,
}

impl DeepView for Weather {
    type V = WeatherV;

    open spec fn deep_view(&self) -> WeatherV {
        WeatherV {
            climate: self.climate,
            weather: self.weather,
            prev_weather: self.prev_weather,
            unk_weather_1: self.unk_weather_1,
            unk_weather_2: self.unk_weather_2,
            regn_weather: self.regn_weather,
            cur_time: self.cur_time,
            beg_time: self.beg_time,
            weather_pct: self.weather_pct,
            u1: self.u1,
            u2: self.u2,
            u3: self.u3,
            u4: self.u4,
            u5: self.u5,
            u6: self.u6,
            u7: self.u7,
            u8_val: self.u8_val,
            flags: self.flags,
            u9: self.u9.deep_view(),
            u10: self.u10.deep_view(),
        }
    }
}

/// The audio record.
#[derive(Clone, Debug)]
pub struct Audio {
    /// Only one sound descriptor has been observed here.
    pub unknown: RefIdType,
    /// Music tracks playing at the time of saving.
    pub tracks: Vec<RefIdType>,
    /// Background music at the time of saving.
    pub bgm: RefIdType,
}

/// The spec-level model of an `Audio` record.
pub struct AudioV {
    pub unknown: RefIdType,
    pub tracks: Seq<RefIdType>,
    pub bgm: RefIdType,
}

impl DeepView for Audio {
    type V = AudioV;

    open spec fn deep_view(&self) -> AudioV {
        AudioV { unknown: self.unknown, tracks: self.tracks@, bgm: self.bgm }
    }
}

#[derive(Clone, Copy, Debug, PartialEq, Eq, Structural)]
pub struct SkyCellUnknown0 {
    pub u1: RefIdType,
    pub u2: RefIdType,
}

impl DeepView for SkyCellUnknown0 {
    type V = SkyCellUnknown0;

    open spec fn deep_view(&self) -> SkyCellUnknown0 {
        *self
    }
}

/// The process-lists record: timers and all tracked crimes.
#[derive(Clone, Debug)]
pub struct ProcessLists {
    pub u1: F32Bits,
    pub u2: F32Bits,
    pub u3: F32Bits,
    /// The serial number the next process will be assigned.
    pub next_num: u32,
    pub all_crimes: Vec<Crime>,
}

/// The spec-level model of a `ProcessLists` record.
pub struct ProcessListsV {
    pub u1: F32Bits,
    pub u2: F32Bits,
    pub u3: F32Bits,
    pub next_num: u32,
    pub all_crimes: Seq<CrimeV>,
}

impl DeepView for ProcessLists {
    type V = ProcessListsV;

    open spec fn deep_view(&self) -> ProcessListsV {
        ProcessListsV {
            u1: self.u1,
            u2: self.u2,
            u3: self.u3,
            next_num: self.next_num,
            all_crimes: self.all_crimes.deep_view(),
        }
    }
}

/// One tracked crime.
#[derive(Clone, Debug)]
pub struct Crime {
    pub witness_num: u32,
    pub crime_type: CrimeType,
    pub u1: u8,
    /// Number of stolen items; meaningful only for thefts.
    pub quantity: u32,
    /// Assigned in accordance with `next_num`.
    pub serial_num: u32,
    pub u2: u8,
    /// Possibly the date of the crime.
    pub u3: u32,
    /// Negative value measured from the moment of the crime (a bit pattern).
    pub elapsed_time: F32Bits,
    /// The killed actor, forced door, stolen item and so on.
    pub victim_id: RefIdType,
    pub criminal_id: RefIdType,
    /// Only for thefts.
    pub item_base_id: RefIdType,
    /// Faction, outfit and so on; only for thefts.
    pub ownership_id: RefIdType,
    pub witnesses: Vec<RefIdType>,
    pub bounty: u32,
    pub crime_faction_id: RefIdType,
    /// False for an active crime, true for an atoned one.
    pub is_cleared: bool,
    pub u4: u16,
}

/// The spec-level model of a `Crime`.
pub struct CrimeV {
    pub witness_num: u32,
    pub crime_type: CrimeType,
    pub u1: u8,
    pub quantity: u32,
    pub serial_num: u32,
    pub u2: u8,
    pub u3: u32,
    pub elapsed_time: F32Bits,
    pub victim_id: RefIdType,
    pub criminal_id: RefIdType,
    pub item_base_id: RefIdType,
    pub ownership_id: RefIdType,
    pub witnesses: Seq<RefIdType>,
    pub bounty: u32,
    pub crime_faction_id: RefIdType,
    pub is_cleared: bool,
    pub u4: u16,
}

impl DeepView for Crime {
    type V = CrimeV;

    open spec fn deep_view(&self) -> CrimeV {
        CrimeV {
            witness_num: self.witness_num,
            crime_type: self.crime_type,
            u1: self.u1,
            quantity: self.quantity,
            serial_num: self.serial_num,
            u2: self.u2,
            u3: self.u3,
            elapsed_time: self.elapsed_time,
            victim_id: self.victim_id,
            criminal_id: self.criminal_id,
            item_base_id: self.item_base_id,
            ownership_id: self.ownership_id,
            witnesses: self.witnesses@,
            bounty: self.bounty,
            crime_faction_id: self.crime_faction_id,
            is_cleared: self.is_cleared,
            u4: self.u4,
        }
    }
}

/// The crime categories; a code outside the known range maps to the explicit
/// unrecognized variant.
#[derive(Clone, Copy, Debug, PartialEq, Eq, Structural)]
pub enum CrimeType {
    Theft,
    Pickpocketing,
    Trespassing,
    Assault,
    Murder,
    Unknown5,
    Lycanthropy,
    /// A crime code this decoder does not recognize.
    Error,
}

/// The crime type a stored code maps to.
pub open spec fn spec_crime_type(num: u32) -> CrimeType {
    if num == 0 {
        CrimeType::Theft
    } else if num == 1 {
        CrimeType::Pickpocketing
    } else if num == 2 {
        CrimeType::Trespassing
    } else if num == 3 {
        CrimeType::Assault
    } else if num == 4 {
        CrimeType::Murder
    } else if num == 5 {
        CrimeType::Unknown5
    } else if num == 6 {
        CrimeType::Lycanthropy
    } else {
        CrimeType::Error
    }
}

/// Map a stored crime code to its category.
pub fn convert_to_crime_type(num: u32) -> (r: CrimeType)
    ensures
        r == spec_crime_type(num),
{
    match num {
        0 => CrimeType::Theft,
        1 => CrimeType::Pickpocketing,
        2 => CrimeType::Trespassing,
        3 => CrimeType::Assault,
        4 => CrimeType::Murder,
        5 => CrimeType::Unknown5,
        6 => CrimeType::Lycanthropy,
        _ => CrimeType::Error,
    }
}

/// The interface record: shown help messages and the last-used item lists.
#[derive(Clone, Debug)]
pub struct Interface {
    pub shown_help_msg: Vec<u32>,
    pub u0: u8,
    pub last_used_weapons: Vec<RefIdType>,
    pub last_used_spells: Vec<RefIdType>,
    pub last_used_shouts: Vec<RefIdType>,
    pub u1: u8,
    /// Present only in undetermined situations; this decoder never reads it,
    /// so it is always absent.
    pub u2: Option<InterfaceUnknown0>,
}

/// The spec-level model of an `Interface` record.
pub struct InterfaceV {
    pub shown_help_msg: Seq<u32>,
    pub u0: u8,
    pub last_used_weapons: Seq<RefIdType>,
    pub last_used_spells: Seq<RefIdType>,
    pub last_used_shouts: Seq<RefIdType>,
    pub u1: u8,
    pub u2: Option<InterfaceUnknown0V>,
}

impl DeepView for Interface {
    type V = InterfaceV;

    open spec fn deep_view(&self) -> InterfaceV {
        InterfaceV {
            shown_help_msg: self.shown_help_msg@,
            u0: self.u0,
            last_used_weapons: self.last_used_weapons@,
            last_used_spells: self.last_used_spells@,
            last_used_shouts: self.last_used_shouts@,
            u1: self.u1,
            u2: self.u2.deep_view(),
        }
    }
}

#[derive(Clone, Debug)]
pub struct InterfaceUnknown0 {
    pub unknown_0_0: Vec<InterfaceUnknown0_0>,
    pub unknown1: Vec<String>,
    pub unknown2: u32,
}

/// The spec-level model of an `InterfaceUnknown0`.
pub struct InterfaceUnknown0V {
    pub unknown_0_0: Seq<InterfaceUnknown0_0V>,
    pub unknown1: Seq<Seq<char>>,
    pub unknown2: u32,
}

impl DeepView for InterfaceUnknown0 {
    type V = InterfaceUnknown0V;

    open spec fn deep_view(&self) -> InterfaceUnknown0V {
        InterfaceUnknown0V {
            unknown_0_0: self.unknown_0_0.deep_view(),
            unknown1: self.unknown1.deep_view(),
            unknown2: self.unknown2,
        }
    }
}

#[derive(Clone, Debug)]
pub struct InterfaceUnknown0_0 {
    pub u0: String,
    pub u1: String,
    pub u2: u32,
    pub u3: u32,
    pub u4: u32,
    pub u5: u32,
}

/// The spec-level model of an `InterfaceUnknown0_0`.
pub struct InterfaceUnknown0_0V {
    pub u0: Seq<char>,
    pub u1: Seq<char>,
    pub u2: u32,
    pub u3: u32,
    pub u4: u32,
    pub u5: u32,
}

impl DeepView for InterfaceUnknown0_0 {
    type V = InterfaceUnknown0_0V;

    open spec fn deep_view(&self) -> InterfaceUnknown0_0V {
        InterfaceUnknown0_0V {
            u0: self.u0@,
            u1: self.u1@,
            u2: self.u2,
            u3: self.u3,
            u4: self.u4,
            u5: self.u5,
        }
    }
}

/// The actor-causes record.
#[derive(Clone, Debug)]
pub struct ActorCauses {
    pub next_num: u32,
    pub unknown: Vec<ActorCausesUnknown0>,
}

/// The spec-level model of an `ActorCauses` record.
pub struct ActorCausesV {
    pub next_num: u32,
    pub unknown: Seq<ActorCausesUnknown0>,
}

impl DeepView for ActorCauses {
    type V = ActorCausesV;

    open spec fn deep_view(&self) -> ActorCausesV {
        ActorCausesV { next_num: self.next_num, unknown: self.unknown@ }
    }
}

#[derive(Clone, Copy, Debug, PartialEq, Eq, Structural)]
pub struct ActorCausesUnknown0 {
    pub x: F32Bits,
    pub y: F32Bits,
    pub z: F32Bits,
    pub serial_num: u32,
    pub actor_id: RefIdType,
}

impl DeepView for ActorCausesUnknown0 {
    type V = ActorCausesUnknown0;

    open spec fn deep_view(&self) -> ActorCausesUnknown0 {
        *self
    }
}

#[derive(Clone, Copy, Debug, PartialEq, Eq, Structural)]
pub struct DetectionManagerUnknown0 {
    pub u0: RefIdType,
    pub u1: u32,
    pub u2: u32,
}

impl DeepView for DetectionManagerUnknown0 {
    type V = DetectionManagerUnknown0;

    open spec fn deep_view(&self) -> DetectionManagerUnknown0 {
        *self
    }
}

#[derive(Clone, Copy, Debug, PartialEq, Eq, Structural)]
pub struct LocationMetaDataUnknown0 {
    pub u0: RefIdType,
    pub u1: u32,
}

impl DeepView for LocationMetaDataUnknown0 {
    type V = LocationMetaDataUnknown0;

    open spec fn deep_view(&self) -> LocationMetaDataUnknown0 {
        *self
    }
}

/// The quest static-data record.
#[derive(Clone, Debug)]
pub struct QuestStaticData {
    pub u0: Vec<QuestRunDataItem3>,
    pub u1: Vec<QuestRunDataItem3>,
    pub u2: Vec<RefIdType>,
    pub u3: Vec<RefIdType>,
    pub u4: Vec<RefIdType>,
    pub u5: Vec<QuestStaticDataUnknown0>,
    pub u6: u8,
}

/// The spec-level model of a `QuestStaticData` record.
pub struct QuestStaticDataV {
    pub u0: Seq<QuestRunDataItem3V>,
    pub u1: Seq<QuestRunDataItem3V>,
    pub u2: Seq<RefIdType>,
    pub u3: Seq<RefIdType>,
    pub u4: Seq<RefIdType>,
    pub u5: Seq<QuestStaticDataUnknown0V>,
    pub u6: u8,
}

impl DeepView for QuestStaticData {
    type V = QuestStaticDataV;

    open spec fn deep_view(&self) -> QuestStaticDataV {
        QuestStaticDataV {
            u0: self.u0.deep_view(),
            u1: self.u1.deep_view(),
            u2: self.u2@,
            u3: self.u3@,
            u4: self.u4@,
            u5: self.u5.deep_view(),
            u6: self.u6,
        }
    }
}

#[derive(Clone, Debug)]
pub struct QuestRunDataItem3 {
    pub u1: u32,
    pub u2: F32Bits,
    pub quest_run_data_item_3_data: Vec<QuestRunDataItem3DataType>,
}

/// The spec-level model of a `QuestRunDataItem3`.
pub struct QuestRunDataItem3V {
    pub u1: u32,
    pub u2: F32Bits,
    pub quest_run_data_item_3_data: Seq<QuestRunDataItem3DataType>,
}

impl DeepView for QuestRunDataItem3 {
    type V = QuestRunDataItem3V;

    open spec fn deep_view(&self) -> QuestRunDataItem3V {
        QuestRunDataItem3V {
            u1: self.u1,
            u2: self.u2,
            quest_run_data_item_3_data: self.quest_run_data_item_3_data@,
        }
    }
}

/// One quest run-data element: a type tag selects a plain 32-bit value or a
/// reference identifier; an unknown tag is read as a reference identifier
/// (with a warning).
#[derive(Clone, Copy, Debug, PartialEq, Eq, Structural)]
pub enum QuestRunDataItem3DataType {
    RefId(RefIdType),
    U32(u32),
}

impl DeepView for QuestRunDataItem3DataType {
    type V = QuestRunDataItem3DataType;

    open spec fn deep_view(&self) -> QuestRunDataItem3DataType {
        *self
    }
}

#[derive(Clone, Debug)]
pub struct QuestStaticDataUnknown0 {
    pub unk0_0: RefIdType,
    pub u1: Vec<QuestStaticDataUnknown1>,
}

/// The spec-level model of a `QuestStaticDataUnknown0`.
pub struct QuestStaticDataUnknown0V {
    pub unk0_0: RefIdType,
    pub u1: Seq<QuestStaticDataUnknown1>,
}

impl DeepView for QuestStaticDataUnknown0 {
    type V = QuestStaticDataUnknown0V;

    open spec fn deep_view(&self) -> QuestStaticDataUnknown0V {
        QuestStaticDataUnknown0V { unk0_0: self.unk0_0, u1: self.u1@ }
    }
}

#[derive(Clone, Copy, Debug, PartialEq, Eq, Structural)]
pub struct QuestStaticDataUnknown1 {
    pub unk_1_0: u32,
    pub unk_1_1: u32,
}

impl DeepView for QuestStaticDataUnknown1 {
    type V = QuestStaticDataUnknown1;

    open spec fn deep_view(&self) -> QuestStaticDataUnknown1 {
        *self
    }
}

/// The magic-favorites record.
#[derive(Clone, Debug)]
pub struct MagicFavorites {
    /// Favorited spells, shouts, abilities and so on.
    pub favorited_magics: Vec<RefIdType>,
    /// Hotkeys correspond to positions in this array.
    pub magic_hot_keys: Vec<RefIdType>,
}

/// The spec-level model of a `MagicFavorites` record.
pub struct MagicFavoritesV {
    pub favorited_magics: Seq<RefIdType>,
    pub magic_hot_keys: Seq<RefIdType>,
}

impl DeepView for MagicFavorites {
    type V = MagicFavoritesV;

    open spec fn deep_view(&self) -> MagicFavoritesV {
        MagicFavoritesV {
            favorited_magics: self.favorited_magics@,
            magic_hot_keys: self.magic_hot_keys@,
        }
    }
}

/// The story-event-manager record. The trailing list's layout is
/// unresearched: only its count is consumed, and the list is kept empty.
#[derive(Clone, Debug)]
pub struct StoryEventManager {
    pub u0: u32,
    /// Unresearched format; kept empty (the stored count is consumed).
    pub u1: Vec<u8>,
}

/// The spec-level model of a `StoryEventManager` record.
pub struct StoryEventManagerV {
    pub u0: u32,
    pub u1: Seq<u8>,
}

impl DeepView for StoryEventManager {
    type V = StoryEventManagerV;

    open spec fn deep_view(&self) -> StoryEventManagerV {
        StoryEventManagerV { u0: self.u0, u1: self.u1@ }
    }
}

/// One failed ingredient combination.
#[derive(Clone, Copy, Debug, PartialEq, Eq, Structural)]
pub struct IngredientsCombined {
    pub ingredient0: RefIdType,
    pub ingredient1: RefIdType,
}

impl DeepView for IngredientsCombined {
    type V = IngredientsCombined;

    open spec fn deep_view(&self) -> IngredientsCombined {
        *self
    }
}

/// One active actor-and-animation pair.
#[derive(Clone, Copy, Debug, PartialEq, Eq, Structural)]
pub struct AnimObject {
    /// Reference to an actor.
    pub achr: RefIdType,
    /// Reference to an animation form.
    pub anim: RefIdType,
    /// Only 0 and 1 have been observed.
    pub u1: u8,
}

impl DeepView for AnimObject {
    type V = AnimObject;

    open spec fn deep_view(&self) -> AnimObject {
        *self
    }
}

/// One decoded global-data record, tagged by its type code. Records whose
/// layout is unresearched are carried as their raw byte spans.
#[derive(Clone, Debug)]
pub enum GlobalDataType {
    MiscStats(Vec<MiscStats>),
    PlayerLocation(PlayerLocation),
    TES(TES),
    GlobalVariables(Vec<GlobalVariable>),
    CreatedObjects(CreatedObjects),
    Effects(Effects),
    Weather(Weather),
    Audio(Audio),
    SkyCells(Vec<SkyCellUnknown0>),
    ProcessLists(ProcessLists),
    /// Not decoded further.
    Combat(Vec<u8>),
    Interface(Interface),
    ActorCauses(ActorCauses),
    Unknown104(Vec<u8>),
    DetectionManager(Vec<DetectionManagerUnknown0>),
    LocationMetaData(Vec<LocationMetaDataUnknown0>),
    QuestStaticData(QuestStaticData),
    /// Stored as a byte.
    StoryTeller(bool),
    MagicFavorites(MagicFavorites),
    PlayerControls(u8, u8, u8, u16, u8),
    StoryEventManager(StoryEventManager),
    /// Pairs of failed ingredient combinations in alchemy.
    IngredientShared(Vec<IngredientsCombined>),
    MenuControls(u8, u8),
    MenuTopicManager(RefIdType, RefIdType),
    /// Not decoded further: a very involved structure with little known.
    TempEffects(Vec<u8>),
    /// Not decoded further: a very involved structure.
    Papyrus(Vec<u8>),
    AnimObjects(Vec<AnimObject>),
    Timer(u8, u8),
    /// Not decoded further.
    SynchronizedAnimations(Vec<u8>),
    /// The terminal empty variant: always empty on disk, and the fallback for
    /// unregistered type tags.
    Main,
}

/// The spec-level model of a `GlobalDataType`.
pub enum GlobalDataV {
    MiscStats(Seq<MiscStatsV>),
    PlayerLocation(PlayerLocationV),
    TES(TESV),
    GlobalVariables(Seq<GlobalVariable>),
    CreatedObjects(CreatedObjectsV),
    Effects(EffectsV),
    Weather(WeatherV),
    Audio(AudioV),
    SkyCells(Seq<SkyCellUnknown0>),
    ProcessLists(ProcessListsV),
    Combat(Seq<u8>),
    Interface(InterfaceV),
    ActorCauses(ActorCausesV),
    Unknown104(Seq<u8>),
    DetectionManager(Seq<DetectionManagerUnknown0>),
    LocationMetaData(Seq<LocationMetaDataUnknown0>),
    QuestStaticData(QuestStaticDataV),
    StoryTeller(bool),
    MagicFavorites(MagicFavoritesV),
    PlayerControls(u8, u8, u8, u16, u8),
    StoryEventManager(StoryEventManagerV),
    IngredientShared(Seq<IngredientsCombined>),
    MenuControls(u8, u8),
    MenuTopicManager(RefIdType, RefIdType),
    TempEffects(Seq<u8>),
    Papyrus(Seq<u8>),
    AnimObjects(Seq<AnimObject>),
    Timer(u8, u8),
    SynchronizedAnimations(Seq<u8>),
    Main,
}

impl DeepView for GlobalDataType {
    type V = GlobalDataV;

    open spec fn deep_view(&self) -> GlobalDataV {
        match self {
            GlobalDataType::MiscStats(v) => GlobalDataV::MiscStats(v.deep_view()),
            GlobalDataType::PlayerLocation(v) => GlobalDataV::PlayerLocation(v.deep_view()),
            GlobalDataType::TES(v) => GlobalDataV::TES(v.deep_view()),
            GlobalDataType::GlobalVariables(v) => GlobalDataV::GlobalVariables(v@),
            GlobalDataType::CreatedObjects(v) => GlobalDataV::CreatedObjects(v.deep_view()),
            GlobalDataType::Effects(v) => GlobalDataV::Effects(v.deep_view()),
            GlobalDataType::Weather(v) => GlobalDataV::Weather(v.deep_view()),
            GlobalDataType::Audio(v) => GlobalDataV::Audio(v.deep_view()),
            GlobalDataType::SkyCells(v) => GlobalDataV::SkyCells(v@),
            GlobalDataType::ProcessLists(v) => GlobalDataV::ProcessLists(v.deep_view()),
            GlobalDataType::Combat(v) => GlobalDataV::Combat(v@),
            GlobalDataType::Interface(v) => GlobalDataV::Interface(v.deep_view()),
            GlobalDataType::ActorCauses(v) => GlobalDataV::ActorCauses(v.deep_view()),
            GlobalDataType::Unknown104(v) => GlobalDataV::Unknown104(v@),
            GlobalDataType::DetectionManager(v) => GlobalDataV::DetectionManager(v@),
            GlobalDataType::LocationMetaData(v) => GlobalDataV::LocationMetaData(v@),
            GlobalDataType::QuestStaticData(v) => GlobalDataV::QuestStaticData(v.deep_view()),
            GlobalDataType::StoryTeller(v) => GlobalDataV::StoryTeller(*v),
            GlobalDataType::MagicFavorites(v) => GlobalDataV::MagicFavorites(v.deep_view()),
            GlobalDataType::PlayerControls(a, b, c, d, e) => GlobalDataV::PlayerControls(*a, *b, *c, *d, *e),
            GlobalDataType::StoryEventManager(v) => GlobalDataV::StoryEventManager(v.deep_view()),
            GlobalDataType::IngredientShared(v) => GlobalDataV::IngredientShared(v@),
            GlobalDataType::MenuControls(a, b) => GlobalDataV::MenuControls(*a, *b),
            GlobalDataType::MenuTopicManager(a, b) => GlobalDataV::MenuTopicManager(*a, *b),
            GlobalDataType::TempEffects(v) => GlobalDataV::TempEffects(v@),
            GlobalDataType::Papyrus(v) => GlobalDataV::Papyrus(v@),
            GlobalDataType::AnimObjects(v) => GlobalDataV::AnimObjects(v@),
            GlobalDataType::Timer(a, b) => GlobalDataV::Timer(*a, *b),
            GlobalDataType::SynchronizedAnimations(v) => GlobalDataV::SynchronizedAnimations(v@),
            GlobalDataType::Main => GlobalDataV::Main,
        }
    }
}

// ---------------------------------------------------------------------------
// Spec-level parsers: one per record shape, over the record's own byte span.
// ---------------------------------------------------------------------------

/// `n` TES bookkeeping entries (5 bytes each) at position `i`.
pub open spec fn sp_tes_unknown0_items(b: Seq<u8>, i: int, n: nat) -> Result<
    (Seq<TESUnknown0>, int),
    DecodeError,
> {
    if can_read(b, i, 5 * n as int) {
        Ok(
            (
                Seq::new(
                    n,
                    |k: int|
                        TESUnknown0 {
                            form_id: crate::fundamental_types::spec_form_id(
                                b[i + 5 * k],
                                b[i + 5 * k + 1],
                            ),
                            unknown: crate::reader::le16(b, i + 5 * k + 3),
                        },
                ),
                i + 5 * n as int,
            ),
        )
    } else {
        Err(crate::reader::oob(i, 5 * n as int, b.len() as int))
    }
}

/// `n` global variables (7 bytes each) at position `i`.
pub open spec fn sp_global_variable_items(b: Seq<u8>, i: int, n: nat) -> Result<
    (Seq<GlobalVariable>, int),
    DecodeError,
> {
    if can_read(b, i, 7 * n as int) {
        Ok(
            (
                Seq::new(
                    n,
                    |k: int|
                        GlobalVariable {
                            form_id: crate::fundamental_types::spec_form_id(
                                b[i + 7 * k],
                                b[i + 7 * k + 1],
                            ),
                            value: F32Bits { bits: le32(b, i + 7 * k + 3) },
                        },
                ),
                i + 7 * n as int,
            ),
        )
    } else {
        Err(crate::reader::oob(i, 7 * n as int, b.len() as int))
    }
}

/// `n` magic effects (19 bytes each) at position `i`.
pub open spec fn sp_magic_effect_items(b: Seq<u8>, i: int, n: nat) -> Result<
    (Seq<MagicEffect>, int),
    DecodeError,
> {
    if can_read(b, i, 19 * n as int) {
        Ok(
            (
                Seq::new(
                    n,
                    |k: int|
                        MagicEffect {
                            effect_id: crate::fundamental_types::spec_form_id(
                                b[i + 19 * k],
                                b[i + 19 * k + 1],
                            ),
                            info: EnchInfo {
                                magnitude: F32Bits { bits: le32(b, i + 19 * k + 3) },
                                duration: le32(b, i + 19 * k + 7),
                                area: le32(b, i + 19 * k + 11),
                            },
                            price: F32Bits { bits: le32(b, i + 19 * k + 15) },
                        },
                ),
                i + 19 * n as int,
            ),
        )
    } else {
        Err(crate::reader::oob(i, 19 * n as int, b.len() as int))
    }
}

/// `n` image-space modifiers (15 bytes each) at position `i`.
pub open spec fn sp_effect_items(b: Seq<u8>, i: int, n: nat) -> Result<
    (Seq<Effect>, int),
    DecodeError,
> {
    if can_read(b, i, 15 * n as int) {
        Ok(
            (
                Seq::new(
                    n,
                    |k: int|
                        Effect {
                            strength: F32Bits { bits: le32(b, i + 15 * k) },
                            timestamp: F32Bits { bits: le32(b, i + 15 * k + 4) },
                            unknown: le32(b, i + 15 * k + 8),
                            effect_id: crate::fundamental_types::spec_form_id(
                                b[i + 15 * k + 12],
                                b[i + 15 * k + 13],
                            ),
                        },
                ),
                i + 15 * n as int,
            ),
        )
    } else {
        Err(crate::reader::oob(i, 15 * n as int, b.len() as int))
    }
}

/// `n` sky-cell entries (6 bytes each) at position `i`.
pub open spec fn sp_sky_cell_items(b: Seq<u8>, i: int, n: nat) -> Result<
    (Seq<SkyCellUnknown0>, int),
    DecodeError,
> {
    if can_read(b, i, 6 * n as int) {
        Ok(
            (
                Seq::new(
                    n,
                    |k: int|
                        SkyCellUnknown0 {
                            u1: crate::fundamental_types::spec_form_id(
                                b[i + 6 * k],
                                b[i + 6 * k + 1],
                            ),
                            u2: crate::fundamental_types::spec_form_id(
                                b[i + 6 * k + 3],
                                b[i + 6 * k + 4],
                            ),
                        },
                ),
                i + 6 * n as int,
            ),
        )
    } else {
        Err(crate::reader::oob(i, 6 * n as int, b.len() as int))
    }
}

/// `n` detection-manager entries (11 bytes each) at position `i`.
pub open spec fn sp_detection_items(b: Seq<u8>, i: int, n: nat) -> Result<
    (Seq<DetectionManagerUnknown0>, int),
    DecodeError,
> {
    if can_read(b, i, 11 * n as int) {
        Ok(
            (
                Seq::new(
                    n,
                    |k: int|
                        DetectionManagerUnknown0 {
                            u0: crate::fundamental_types::spec_form_id(
                                b[i + 11 * k],
                                b[i + 11 * k + 1],
                            ),
                            u1: le32(b, i + 11 * k + 3),
                            u2: le32(b, i + 11 * k + 7),
                        },
                ),
                i + 11 * n as int,
            ),
        )
    } else {
        Err(crate::reader::oob(i, 11 * n as int, b.len() as int))
    }
}

/// `n` location-metadata entries (7 bytes each) at position `i`.
pub open spec fn sp_location_meta_items(b: Seq<u8>, i: int, n: nat) -> Result<
    (Seq<LocationMetaDataUnknown0>, int),
    DecodeError,
> {
    if can_read(b, i, 7 * n as int) {
        Ok(
            (
                Seq::new(
                    n,
                    |k: int|
                        LocationMetaDataUnknown0 {
                            u0: crate::fundamental_types::spec_form_id(
                                b[i + 7 * k],
                                b[i + 7 * k + 1],
                            ),
                            u1: le32(b, i + 7 * k + 3),
                        },
                ),
                i + 7 * n as int,
            ),
        )
    } else {
        Err(crate::reader::oob(i, 7 * n as int, b.len() as int))
    }
}

/// `n` quest static-data pairs (8 bytes each) at position `i`.
pub open spec fn sp_qsd_unknown1_items(b: Seq<u8>, i: int, n: nat) -> Result<
    (Seq<QuestStaticDataUnknown1>, int),
    DecodeError,
> {
    if can_read(b, i, 8 * n as int) {
        Ok(
            (
                Seq::new(
                    n,
                    |k: int|
                        QuestStaticDataUnknown1 {
                            unk_1_0: le32(b, i + 8 * k),
                            unk_1_1: le32(b, i + 8 * k + 4),
                        },
                ),
                i + 8 * n as int,
            ),
        )
    } else {
        Err(crate::reader::oob(i, 8 * n as int, b.len() as int))
    }
}

/// `n` failed ingredient pairs (6 bytes each) at position `i`.
pub open spec fn sp_ingredient_items(b: Seq<u8>, i: int, n: nat) -> Result<
    (Seq<IngredientsCombined>, int),
    DecodeError,
> {
    if can_read(b, i, 6 * n as int) {
        Ok(
            (
                Seq::new(
                    n,
                    |k: int|
                        IngredientsCombined {
                            ingredient0: crate::fundamental_types::spec_form_id(
                                b[i + 6 * k],
                                b[i + 6 * k + 1],
                            ),
                            ingredient1: crate::fundamental_types::spec_form_id(
                                b[i + 6 * k + 3],
                                b[i + 6 * k + 4],
                            ),
                        },
                ),
                i + 6 * n as int,
            ),
        )
    } else {
        Err(crate::reader::oob(i, 6 * n as int, b.len() as int))
    }
}

/// `n` actor-and-animation pairs (7 bytes each) at position `i`.
pub open spec fn sp_anim_object_items(b: Seq<u8>, i: int, n: nat) -> Result<
    (Seq<AnimObject>, int),
    DecodeError,
> {
    if can_read(b, i, 7 * n as int) {
        Ok(
            (
                Seq::new(
                    n,
                    |k: int|
                        AnimObject {
                            achr: crate::fundamental_types::spec_form_id(
                                b[i + 7 * k],
                                b[i + 7 * k + 1],
                            ),
                            anim: crate::fundamental_types::spec_form_id(
                                b[i + 7 * k + 3],
                                b[i + 7 * k + 4],
                            ),
                            u1: b[i + 7 * k + 6],
                        },
                ),
                i + 7 * n as int,
            ),
        )
    } else {
        Err(crate::reader::oob(i, 7 * n as int, b.len() as int))
    }
}

/// `n` actor-causes entries (19 bytes each) at position `i`.
pub open spec fn sp_actor_causes_items(b: Seq<u8>, i: int, n: nat) -> Result<
    (Seq<ActorCausesUnknown0>, int),
    DecodeError,
> {
    if can_read(b, i, 19 * n as int) {
        Ok(
            (
                Seq::new(
                    n,
                    |k: int|
                        ActorCausesUnknown0 {
                            x: F32Bits { bits: le32(b, i + 19 * k) },
                            y: F32Bits { bits: le32(b, i + 19 * k + 4) },
                            z: F32Bits { bits: le32(b, i + 19 * k + 8) },
                            serial_num: le32(b, i + 19 * k + 12),
                            actor_id: crate::fundamental_types::spec_form_id(
                                b[i + 19 * k + 16],
                                b[i + 19 * k + 17],
                            ),
                        },
                ),
                i + 19 * n as int,
            ),
        )
    } else {
        Err(crate::reader::oob(i, 19 * n as int, b.len() as int))
    }
}

/// One miscellaneous-statistics entry at position `i`: a name, a category
/// byte and a value.
pub open spec fn sp_misc_stat(b: Seq<u8>, i: int) -> Result<(MiscStatsV, int), DecodeError> {
    match sp_w_string(b, i) {
        Ok((name, i1)) => match sp_u8(b, i1) {
            Ok((cat, i2)) => match sp_u32(b, i2) {
                Ok((value, j)) => Ok(
                    (
                        MiscStatsV {
                            name: name.content,
                            category: spec_misc_stat_category(cat),
                            value,
                        },
                        j,
                    ),
                ),
                Err(e) => Err(e),
            },
            Err(e) => Err(e),
        },
        Err(e) => Err(e),
    }
}

/// `n` miscellaneous-statistics entries at position `i`.
pub open spec fn sp_misc_stat_items(b: Seq<u8>, i: int, n: nat) -> Result<
    (Seq<MiscStatsV>, int),
    DecodeError,
>
    decreases n,
{
    if n == 0 {
        Ok((Seq::empty(), i))
    } else {
        match sp_misc_stat(b, i) {
            Ok((v, j)) => match sp_misc_stat_items(b, j, (n - 1) as nat) {
                Ok((rest, k)) => Ok((seq![v] + rest, k)),
                Err(e) => Err(e),
            },
            Err(e) => Err(e),
        }
    }
}

/// One created enchantment at position `i`: identifier, use count, then its
/// counted effect list.
pub open spec fn sp_enchantment(b: Seq<u8>, i: int) -> Result<(EnchantmentV, int), DecodeError> {
    match sp_ref_id(b, i) {
        Ok((ref_id, i1)) => match sp_u32(b, i1) {
            Ok((times_used, i2)) => match sp_vsval_u32(b, i2) {
                Ok((ec, i3)) => match sp_magic_effect_items(b, i3, ec as nat) {
                    Ok((effects, j)) => Ok((EnchantmentV { ref_id, times_used, effects }, j)),
                    Err(e) => Err(e),
                },
                Err(e) => Err(e),
            },
            Err(e) => Err(e),
        },
        Err(e) => Err(e),
    }
}

/// `n` created enchantments at position `i`.
pub open spec fn sp_enchantment_items(b: Seq<u8>, i: int, n: nat) -> Result<
    (Seq<EnchantmentV>, int),
    DecodeError,
>
    decreases n,
{
    if n == 0 {
        Ok((Seq::empty(), i))
    } else {
        match sp_enchantment(b, i) {
            Ok((v, j)) => match sp_enchantment_items(b, j, (n - 1) as nat) {
                Ok((rest, k)) => Ok((seq![v] + rest, k)),
                Err(e) => Err(e),
            },
            Err(e) => Err(e),
        }
    }
}

/// One tracked crime at position `i`.
pub open spec fn sp_crime(b: Seq<u8>, i: int) -> Result<(CrimeV, int), DecodeError> {
    if !can_read(b, i, 38) {
        Err(crate::reader::oob(i, 38, b.len() as int))
    } else {
        match sp_vsval_u32(b, i + 38) {
            Ok((wn, i1)) => match sp_ref_ids(b, i1, wn as nat) {
                Ok((witnesses, i2)) => if can_read(b, i2, 10) {
                    Ok(
                        (
                            CrimeV {
                                witness_num: le32(b, i),
                                crime_type: spec_crime_type(le32(b, i + 4)),
                                u1: b[i + 8],
                                quantity: le32(b, i + 9),
                                serial_num: le32(b, i + 13),
                                u2: b[i + 17],
                                u3: le32(b, i + 18),
                                elapsed_time: F32Bits { bits: le32(b, i + 22) },
                                victim_id: crate::fundamental_types::spec_form_id(
                                    b[i + 26],
                                    b[i + 27],
                                ),
                                criminal_id: crate::fundamental_types::spec_form_id(
                                    b[i + 29],
                                    b[i + 30],
                                ),
                                item_base_id: crate::fundamental_types::spec_form_id(
                                    b[i + 32],
                                    b[i + 33],
                                ),
                                ownership_id: crate::fundamental_types::spec_form_id(
                                    b[i + 35],
                                    b[i + 36],
                                ),
                                witnesses,
                                bounty: le32(b, i2),
                                crime_faction_id: crate::fundamental_types::spec_form_id(
                                    b[i2 + 4],
                                    b[i2 + 5],
                                ),
                                is_cleared: b[i2 + 7] != 0,
                                u4: crate::reader::le16(b, i2 + 8),
                            },
                            i2 + 10,
                        ),
                    )
                } else {
                    Err(crate::reader::oob(i2, 10, b.len() as int))
                },
                Err(e) => Err(e),
            },
            Err(e) => Err(e),
        }
    }
}

/// `n` tracked crimes at position `i`.
pub open spec fn sp_crime_items(b: Seq<u8>, i: int, n: nat) -> Result<
    (Seq<CrimeV>, int),
    DecodeError,
>
    decreases n,
{
    if n == 0 {
        Ok((Seq::empty(), i))
    } else {
        match sp_crime(b, i) {
            Ok((v, j)) => match sp_crime_items(b, j, (n - 1) as nat) {
                Ok((rest, k)) => Ok((seq![v] + rest, k)),
                Err(e) => Err(e),
            },
            Err(e) => Err(e),
        }
    }
}

/// One quest run-data element at position `i`: a type tag, then a plain
/// 32-bit value for tag 3, else a reference identifier (an unknown tag is
/// read as a reference identifier too, with a warning at the caller).
pub open spec fn sp_quest_run_data_element(b: Seq<u8>, i: int) -> Result<
    (QuestRunDataItem3DataType, int),
    DecodeError,
> {
    match sp_u32(b, i) {
        Ok((tag, i1)) => if tag == 3 {
            match sp_u32(b, i1) {
                Ok((v, j)) => Ok((QuestRunDataItem3DataType::U32(v), j)),
                Err(e) => Err(e),
            }
        } else {
            match sp_ref_id(b, i1) {
                Ok((v, j)) => Ok((QuestRunDataItem3DataType::RefId(v), j)),
                Err(e) => Err(e),
            }
        },
        Err(e) => Err(e),
    }
}

/// `n` quest run-data elements at position `i`.
pub open spec fn sp_quest_run_data_elements(b: Seq<u8>, i: int, n: nat) -> Result<
    (Seq<QuestRunDataItem3DataType>, int),
    DecodeError,
>
    decreases n,
{
    if n == 0 {
        Ok((Seq::empty(), i))
    } else {
        match sp_quest_run_data_element(b, i) {
            Ok((v, j)) => match sp_quest_run_data_elements(b, j, (n - 1) as nat) {
                Ok((rest, k)) => Ok((seq![v] + rest, k)),
                Err(e) => Err(e),
            },
            Err(e) => Err(e),
        }
    }
}

/// One quest run-data item at position `i`.
pub open spec fn sp_quest_run_data_item(b: Seq<u8>, i: int) -> Result<
    (QuestRunDataItem3V, int),
    DecodeError,
> {
    match sp_u32(b, i) {
        Ok((u1, i1)) => match sp_f32(b, i1) {
            Ok((u2, i2)) => match sp_u32(b, i2) {
                Ok((n, i3)) => match sp_quest_run_data_elements(b, i3, n as nat) {
                    Ok((data, j)) => Ok(
                        (QuestRunDataItem3V { u1, u2, quest_run_data_item_3_data: data }, j),
                    ),
                    Err(e) => Err(e),
                },
                Err(e) => Err(e),
            },
            Err(e) => Err(e),
        },
        Err(e) => Err(e),
    }
}

/// `n` quest run-data items at position `i`.
pub open spec fn sp_quest_run_data_items(b: Seq<u8>, i: int, n: nat) -> Result<
    (Seq<QuestRunDataItem3V>, int),
    DecodeError,
>
    decreases n,
{
    if n == 0 {
        Ok((Seq::empty(), i))
    } else {
        match sp_quest_run_data_item(b, i) {
            Ok((v, j)) => match sp_quest_run_data_items(b, j, (n - 1) as nat) {
                Ok((rest, k)) => Ok((seq![v] + rest, k)),
                Err(e) => Err(e),
            },
            Err(e) => Err(e),
        }
    }
}

/// One quest static-data group at position `i`: an identifier and its counted
/// pair list.
pub open spec fn sp_qsd_unknown0(b: Seq<u8>, i: int) -> Result<
    (QuestStaticDataUnknown0V, int),
    DecodeError,
> {
    match sp_ref_id(b, i) {
        Ok((unk0_0, i1)) => match sp_vsval_u32(b, i1) {
            Ok((n, i2)) => match sp_qsd_unknown1_items(b, i2, n as nat) {
                Ok((u1, j)) => Ok((QuestStaticDataUnknown0V { unk0_0, u1 }, j)),
                Err(e) => Err(e),
            },
            Err(e) => Err(e),
        },
        Err(e) => Err(e),
    }
}

/// `n` quest static-data groups at position `i`.
pub open spec fn sp_qsd_unknown0_items(b: Seq<u8>, i: int, n: nat) -> Result<
    (Seq<QuestStaticDataUnknown0V>, int),
    DecodeError,
>
    decreases n,
{
    if n == 0 {
        Ok((Seq::empty(), i))
    } else {
        match sp_qsd_unknown0(b, i) {
            Ok((v, j)) => match sp_qsd_unknown0_items(b, j, (n - 1) as nat) {
                Ok((rest, k)) => Ok((seq![v] + rest, k)),
                Err(e) => Err(e),
            },
            Err(e) => Err(e),
        }
    }
}

/// The miscellaneous-statistics record: a 32-bit count, then that many
/// entries.
#[verifier::opaque]
pub open spec fn sp_misc_stats(b: Seq<u8>, i: int) -> Result<(Seq<MiscStatsV>, int), DecodeError> {
    match sp_u32(b, i) {
        Ok((n, i1)) => sp_misc_stat_items(b, i1, n as nat),
        Err(e) => Err(e),
    }
}

/// The player-location record: 30 fixed bytes; the trailing field is absent
/// in this format version and kept explicitly empty.
#[verifier::opaque]
pub open spec fn sp_player_location(b: Seq<u8>, i: int) -> Result<
    (PlayerLocationV, int),
    DecodeError,
> {
    if can_read(b, i, 30) {
        Ok(
            (
                PlayerLocationV {
                    next_object_id: le32(b, i),
                    world_space_1: crate::fundamental_types::spec_form_id(b[i + 4], b[i + 5]),
                    coor_x: crate::reader::le32_signed(b, i + 7),
                    coor_y: crate::reader::le32_signed(b, i + 11),
                    world_space_2: crate::fundamental_types::spec_form_id(b[i + 15], b[i + 16]),
                    pos_x: F32Bits { bits: le32(b, i + 18) },
                    pos_y: F32Bits { bits: le32(b, i + 22) },
                    pos_z: F32Bits { bits: le32(b, i + 26) },
                    unk: Seq::empty(),
                },
                i + 30,
            ),
        )
    } else {
        Err(crate::reader::oob(i, 30, b.len() as int))
    }
}

/// The TES bookkeeping record: a counted 5-byte list, a count whose doubled
/// value sizes a reference list, and a counted reference list.
#[verifier::opaque]
pub open spec fn sp_tes(b: Seq<u8>, i: int) -> Result<(TESV, int), DecodeError> {
    match sp_vsval_u32(b, i) {
        Ok((n1, i1)) => match sp_tes_unknown0_items(b, i1, n1 as nat) {
            Ok((u1, i2)) => match sp_u32(b, i2) {
                Ok((n2, i3)) => match sp_ref_ids(b, i3, (2 * n2) as nat) {
                    Ok((u2, i4)) => match sp_vsval_u32(b, i4) {
                        Ok((n3, i5)) => match sp_ref_ids(b, i5, n3 as nat) {
                            Ok((u3, j)) => Ok((TESV { u1, u2, u3 }, j)),
                            Err(e) => Err(e),
                        },
                        Err(e) => Err(e),
                    },
                    Err(e) => Err(e),
                },
                Err(e) => Err(e),
            },
            Err(e) => Err(e),
        },
        Err(e) => Err(e),
    }
}

/// The global-variables record: a counted 7-byte list.
#[verifier::opaque]
pub open spec fn sp_global_variables(b: Seq<u8>, i: int) -> Result<
    (Seq<GlobalVariable>, int),
    DecodeError,
> {
    match sp_vsval_u32(b, i) {
        Ok((n, i1)) => sp_global_variable_items(b, i1, n as nat),
        Err(e) => Err(e),
    }
}

/// The created-objects record: four counted enchantment tables.
#[verifier::opaque]
pub open spec fn sp_created_objects(b: Seq<u8>, i: int) -> Result<
    (CreatedObjectsV, int),
    DecodeError,
> {
    match sp_vsval_u32(b, i) {
        Ok((n0, i1)) => match sp_enchantment_items(b, i1, n0 as nat) {
            Ok((weapon_ench_table, i2)) => match sp_vsval_u32(b, i2) {
                Ok((n1, i3)) => match sp_enchantment_items(b, i3, n1 as nat) {
                    Ok((armour_ench_table, i4)) => match sp_vsval_u32(b, i4) {
                        Ok((n2, i5)) => match sp_enchantment_items(b, i5, n2 as nat) {
                            Ok((potion_table, i6)) => match sp_vsval_u32(b, i6) {
                                Ok((n3, i7)) => match sp_enchantment_items(b, i7, n3 as nat) {
                                    Ok((poison_table, j)) => Ok(
                                        (
                                            CreatedObjectsV {
                                                weapon_ench_table,
                                                armour_ench_table,
                                                potion_table,
                                                poison_table,
                                            },
                                            j,
                                        ),
                                    ),
                                    Err(e) => Err(e),
                                },
                                Err(e) => Err(e),
                            },
                            Err(e) => Err(e),
                        },
                        Err(e) => Err(e),
                    },
                    Err(e) => Err(e),
                },
                Err(e) => Err(e),
            },
            Err(e) => Err(e),
        },
        Err(e) => Err(e),
    }
}

/// The image-space record: a counted 15-byte list, then two bit patterns.
#[verifier::opaque]
pub open spec fn sp_effects(b: Seq<u8>, i: int) -> Result<(EffectsV, int), DecodeError> {
    match sp_vsval_u32(b, i) {
        Ok((n, i1)) => match sp_effect_items(b, i1, n as nat) {
            Ok((image_space_modifiers, i2)) => match sp_f32(b, i2) {
                Ok((unknown1, i3)) => match sp_f32(b, i3) {
                    Ok((unknown2, j)) => Ok(
                        (EffectsV { image_space_modifiers, unknown1, unknown2 }, j),
                    ),
                    Err(e) => Err(e),
                },
                Err(e) => Err(e),
            },
            Err(e) => Err(e),
        },
        Err(e) => Err(e),
    }
}

/// The weather record: 63 fixed bytes; the flag byte marks the two trailing
/// undecoded fields as present or absent.
#[verifier::opaque]
pub open spec fn sp_weather(b: Seq<u8>, i: int) -> Result<(WeatherV, int), DecodeError> {
    if can_read(b, i, 63) {
        Ok(
            (
                WeatherV {
                    climate: crate::fundamental_types::spec_form_id(b[i], b[i + 1]),
                    weather: crate::fundamental_types::spec_form_id(b[i + 3], b[i + 4]),
                    prev_weather: crate::fundamental_types::spec_form_id(b[i + 6], b[i + 7]),
                    unk_weather_1: crate::fundamental_types::spec_form_id(b[i + 9], b[i + 10]),
                    unk_weather_2: crate::fundamental_types::spec_form_id(b[i + 12], b[i + 13]),
                    regn_weather: crate::fundamental_types::spec_form_id(b[i + 15], b[i + 16]),
                    cur_time: F32Bits { bits: le32(b, i + 18) },
                    beg_time: F32Bits { bits: le32(b, i + 22) },
                    weather_pct: F32Bits { bits: le32(b, i + 26) },
                    u1: le32(b, i + 30),
                    u2: le32(b, i + 34),
                    u3: le32(b, i + 38),
                    u4: le32(b, i + 42),
                    u5: le32(b, i + 46),
                    u6: le32(b, i + 50),
                    u7: F32Bits { bits: le32(b, i + 54) },
                    u8_val: le32(b, i + 58),
                    flags: b[i + 62],
                    u9: if b[i + 62] & 0x80 == 0x80 {
                        Some(Seq::empty())
                    } else {
                        None
                    },
                    u10: if b[i + 62] & 0x40 == 0x40 {
                        Some(Seq::empty())
                    } else {
                        None
                    },
                },
                i + 63,
            ),
        )
    } else {
        Err(crate::reader::oob(i, 63, b.len() as int))
    }
}

/// The audio record: a descriptor, a counted track list, and the background
/// track.
#[verifier::opaque]
pub open spec fn sp_audio(b: Seq<u8>, i: int) -> Result<(AudioV, int), DecodeError> {
    match sp_ref_id(b, i) {
        Ok((unknown, i1)) => match sp_vsval_u32(b, i1) {
            Ok((n, i2)) => match sp_ref_ids(b, i2, n as nat) {
                Ok((tracks, i3)) => match sp_ref_id(b, i3) {
                    Ok((bgm, j)) => Ok((AudioV { unknown, tracks, bgm }, j)),
                    Err(e) => Err(e),
                },
                Err(e) => Err(e),
            },
            Err(e) => Err(e),
        },
        Err(e) => Err(e),
    }
}

/// The sky-cells record: a counted 6-byte list.
#[verifier::opaque]
pub open spec fn sp_sky_cells(b: Seq<u8>, i: int) -> Result<
    (Seq<SkyCellUnknown0>, int),
    DecodeError,
> {
    match sp_vsval_u32(b, i) {
        Ok((n, i1)) => sp_sky_cell_items(b, i1, n as nat),
        Err(e) => Err(e),
    }
}

/// The process-lists record: three bit patterns, the next serial number, and
/// the counted crime list.
#[verifier::opaque]
pub open spec fn sp_process_lists(b: Seq<u8>, i: int) -> Result<(ProcessListsV, int), DecodeError> {
    match sp_f32(b, i) {
        Ok((u1, i1)) => match sp_f32(b, i1) {
            Ok((u2, i2)) => match sp_f32(b, i2) {
                Ok((u3, i3)) => match sp_u32(b, i3) {
                    Ok((next_num, i4)) => match sp_vsval_u32(b, i4) {
                        Ok((n, i5)) => match sp_crime_items(b, i5, n as nat) {
                            Ok((all_crimes, j)) => Ok(
                                (ProcessListsV { u1, u2, u3, next_num, all_crimes }, j),
                            ),
                            Err(e) => Err(e),
                        },
                        Err(e) => Err(e),
                    },
                    Err(e) => Err(e),
                },
                Err(e) => Err(e),
            },
            Err(e) => Err(e),
        },
        Err(e) => Err(e),
    }
}

/// The interface record: the shown-help list, three last-used lists and two
/// plain bytes; the trailing optional group is never decoded.
#[verifier::opaque]
pub open spec fn sp_interface(b: Seq<u8>, i: int) -> Result<(InterfaceV, int), DecodeError> {
    match sp_u32(b, i) {
        Ok((hn, i1)) => match sp_u32s(b, i1, hn as nat) {
            Ok((shown_help_msg, i2)) => match sp_u8(b, i2) {
                Ok((u0, i3)) => match sp_vsval_u32(b, i3) {
                    Ok((wn, i4)) => match sp_ref_ids(b, i4, wn as nat) {
                        Ok((last_used_weapons, i5)) => match sp_vsval_u32(b, i5) {
                            Ok((sn, i6)) => match sp_ref_ids(b, i6, sn as nat) {
                                Ok((last_used_spells, i7)) => match sp_vsval_u32(b, i7) {
                                    Ok((shn, i8)) => match sp_ref_ids(b, i8, shn as nat) {
                                        Ok((last_used_shouts, i9)) => match sp_u8(b, i9) {
                                            Ok((u1, j)) => Ok(
                                                (
                                                    InterfaceV {
                                                        shown_help_msg,
                                                        u0,
                                                        last_used_weapons,
                                                        last_used_spells,
                                                        last_used_shouts,
                                                        u1,
                                                        u2: None,
                                                    },
                                                    j,
                                                ),
                                            ),
                                            Err(e) => Err(e),
                                        },
                                        Err(e) => Err(e),
                                    },
                                    Err(e) => Err(e),
                                },
                                Err(e) => Err(e),
                            },
                            Err(e) => Err(e),
                        },
                        Err(e) => Err(e),
                    },
                    Err(e) => Err(e),
                },
                Err(e) => Err(e),
            },
            Err(e) => Err(e),
        },
        Err(e) => Err(e),
    }
}

/// The actor-causes record: the next serial number and a counted 19-byte
/// list.
#[verifier::opaque]
pub open spec fn sp_actor_causes(b: Seq<u8>, i: int) -> Result<(ActorCausesV, int), DecodeError> {
    match sp_u32(b, i) {
        Ok((next_num, i1)) => match sp_vsval_u32(b, i1) {
            Ok((n, i2)) => match sp_actor_causes_items(b, i2, n as nat) {
                Ok((unknown, j)) => Ok((ActorCausesV { next_num, unknown }, j)),
                Err(e) => Err(e),
            },
            Err(e) => Err(e),
        },
        Err(e) => Err(e),
    }
}

/// The detection-manager record: a counted 11-byte list.
#[verifier::opaque]
pub open spec fn sp_detection_manager(b: Seq<u8>, i: int) -> Result<
    (Seq<DetectionManagerUnknown0>, int),
    DecodeError,
> {
    match sp_vsval_u32(b, i) {
        Ok((n, i1)) => sp_detection_items(b, i1, n as nat),
        Err(e) => Err(e),
    }
}

/// The location-metadata record: a counted 7-byte list.
#[verifier::opaque]
pub open spec fn sp_location_meta_data(b: Seq<u8>, i: int) -> Result<
    (Seq<LocationMetaDataUnknown0>, int),
    DecodeError,
> {
    match sp_vsval_u32(b, i) {
        Ok((n, i1)) => sp_location_meta_items(b, i1, n as nat),
        Err(e) => Err(e),
    }
}

/// The quest static-data record: two counted run-data lists, three counted
/// reference lists, a counted group list and a trailing byte.
#[verifier::opaque]
pub open spec fn sp_quest_static_data(b: Seq<u8>, i: int) -> Result<
    (QuestStaticDataV, int),
    DecodeError,
> {
    match sp_u32(b, i) {
        Ok((c0, i1)) => match sp_quest_run_data_items(b, i1, c0 as nat) {
            Ok((u0, i2)) => match sp_u32(b, i2) {
                Ok((c1, i3)) => match sp_quest_run_data_items(b, i3, c1 as nat) {
                    Ok((u1, i4)) => match sp_u32(b, i4) {
                        Ok((c2, i5)) => match sp_ref_ids(b, i5, c2 as nat) {
                            Ok((u2, i6)) => match sp_u32(b, i6) {
                                Ok((c3, i7)) => match sp_ref_ids(b, i7, c3 as nat) {
                                    Ok((u3, i8)) => match sp_u32(b, i8) {
                                        Ok((c4, i9)) => match sp_ref_ids(b, i9, c4 as nat) {
                                            Ok((u4, i10)) => match sp_vsval_u32(b, i10) {
                                                Ok((c5, i11)) => match sp_qsd_unknown0_items(
                                                    b,
                                                    i11,
                                                    c5 as nat,
                                                ) {
                                                    Ok((u5, i12)) => match sp_u8(b, i12) {
                                                        Ok((u6, j)) => Ok(
                                                            (
                                                                QuestStaticDataV {
                                                                    u0,
                                                                    u1,
                                                                    u2,
                                                                    u3,
                                                                    u4,
                                                                    u5,
                                                                    u6,
                                                                },
                                                                j,
                                                            ),
                                                        ),
                                                        Err(e) => Err(e),
                                                    },
                                                    Err(e) => Err(e),
                                                },
                                                Err(e) => Err(e),
                                            },
                                            Err(e) => Err(e),
                                        },
                                        Err(e) => Err(e),
                                    },
                                    Err(e) => Err(e),
                                },
                                Err(e) => Err(e),
                            },
                            Err(e) => Err(e),
                        },
                        Err(e) => Err(e),
                    },
                    Err(e) => Err(e),
                },
                Err(e) => Err(e),
            },
            Err(e) => Err(e),
        },
        Err(e) => Err(e),
    }
}

/// The magic-favorites record: two counted reference lists.
#[verifier::opaque]
pub open spec fn sp_magic_favorites(b: Seq<u8>, i: int) -> Result<
    (MagicFavoritesV, int),
    DecodeError,
> {
    match sp_vsval_u32(b, i) {
        Ok((n0, i1)) => match sp_ref_ids(b, i1, n0 as nat) {
            Ok((favorited_magics, i2)) => match sp_vsval_u32(b, i2) {
                Ok((n1, i3)) => match sp_ref_ids(b, i3, n1 as nat) {
                    Ok((magic_hot_keys, j)) => Ok(
                        (MagicFavoritesV { favorited_magics, magic_hot_keys }, j),
                    ),
                    Err(e) => Err(e),
                },
                Err(e) => Err(e),
            },
            Err(e) => Err(e),
        },
        Err(e) => Err(e),
    }
}

/// The story-event-manager record: a 32-bit field and a count whose list is
/// unresearched and kept empty.
#[verifier::opaque]
pub open spec fn sp_story_event_manager(b: Seq<u8>, i: int) -> Result<
    (StoryEventManagerV, int),
    DecodeError,
> {
    match sp_u32(b, i) {
        Ok((u0, i1)) => match sp_vsval_u32(b, i1) {
            Ok((_n, j)) => Ok((StoryEventManagerV { u0, u1: Seq::empty() }, j)),
            Err(e) => Err(e),
        },
        Err(e) => Err(e),
    }
}

/// The combined-ingredients record: a 32-bit count and that many 6-byte
/// pairs.
#[verifier::opaque]
pub open spec fn sp_ingredients_combined(b: Seq<u8>, i: int) -> Result<
    (Seq<IngredientsCombined>, int),
    DecodeError,
> {
    match sp_u32(b, i) {
        Ok((n, i1)) => sp_ingredient_items(b, i1, n as nat),
        Err(e) => Err(e),
    }
}

/// The animation-objects record: a 32-bit count and that many 7-byte pairs.
#[verifier::opaque]
pub open spec fn sp_anim_objects(b: Seq<u8>, i: int) -> Result<
    (Seq<AnimObject>, int),
    DecodeError,
> {
    match sp_u32(b, i) {
        Ok((n, i1)) => sp_anim_object_items(b, i1, n as nat),
        Err(e) => Err(e),
    }
}

/// What a record span decodes to under the decoder registered for `tag`.
/// Unregistered tags decode to the terminal empty variant (never an error);
/// tag 1005 is the terminal empty variant by definition.
pub open spec fn sp_dispatch(tag: u32, d: Seq<u8>) -> Result<GlobalDataV, DecodeError> {
    if tag == 0 {
        match sp_misc_stats(d, 0) {
            Ok((v, _)) => Ok(GlobalDataV::MiscStats(v)),
            Err(e) => Err(e),
        }
    } else if tag == 1 {
        match sp_player_location(d, 0) {
            Ok((v, _)) => Ok(GlobalDataV::PlayerLocation(v)),
            Err(e) => Err(e),
        }
    } else if tag == 2 {
        match sp_tes(d, 0) {
            Ok((v, _)) => Ok(GlobalDataV::TES(v)),
            Err(e) => Err(e),
        }
    } else if tag == 3 {
        match sp_global_variables(d, 0) {
            Ok((v, _)) => Ok(GlobalDataV::GlobalVariables(v)),
            Err(e) => Err(e),
        }
    } else if tag == 4 {
        match sp_created_objects(d, 0) {
            Ok((v, _)) => Ok(GlobalDataV::CreatedObjects(v)),
            Err(e) => Err(e),
        }
    } else if tag == 5 {
        match sp_effects(d, 0) {
            Ok((v, _)) => Ok(GlobalDataV::Effects(v)),
            Err(e) => Err(e),
        }
    } else if tag == 6 {
        match sp_weather(d, 0) {
            Ok((v, _)) => Ok(GlobalDataV::Weather(v)),
            Err(e) => Err(e),
        }
    } else if tag == 7 {
        match sp_audio(d, 0) {
            Ok((v, _)) => Ok(GlobalDataV::Audio(v)),
            Err(e) => Err(e),
        }
    } else if tag == 8 {
        match sp_sky_cells(d, 0) {
            Ok((v, _)) => Ok(GlobalDataV::SkyCells(v)),
            Err(e) => Err(e),
        }
    } else if tag == 100 {
        match sp_process_lists(d, 0) {
            Ok((v, _)) => Ok(GlobalDataV::ProcessLists(v)),
            Err(e) => Err(e),
        }
    } else if tag == 101 {
        Ok(GlobalDataV::Combat(d))
    } else if tag == 102 {
        match sp_interface(d, 0) {
            Ok((v, _)) => Ok(GlobalDataV::Interface(v)),
            Err(e) => Err(e),
        }
    } else if tag == 103 {
        match sp_actor_causes(d, 0) {
            Ok((v, _)) => Ok(GlobalDataV::ActorCauses(v)),
            Err(e) => Err(e),
        }
    } else if tag == 104 {
        Ok(GlobalDataV::Unknown104(d))
    } else if tag == 105 {
        match sp_detection_manager(d, 0) {
            Ok((v, _)) => Ok(GlobalDataV::DetectionManager(v)),
            Err(e) => Err(e),
        }
    } else if tag == 106 {
        match sp_location_meta_data(d, 0) {
            Ok((v, _)) => Ok(GlobalDataV::LocationMetaData(v)),
            Err(e) => Err(e),
        }
    } else if tag == 107 {
        match sp_quest_static_data(d, 0) {
            Ok((v, _)) => Ok(GlobalDataV::QuestStaticData(v)),
            Err(e) => Err(e),
        }
    } else if tag == 108 {
        match sp_u8(d, 0) {
            Ok((v, _)) => Ok(GlobalDataV::StoryTeller(v != 0)),
            Err(e) => Err(e),
        }
    } else if tag == 109 {
        match sp_magic_favorites(d, 0) {
            Ok((v, _)) => Ok(GlobalDataV::MagicFavorites(v)),
            Err(e) => Err(e),
        }
    } else if tag == 110 {
        match sp_u8(d, 0) {
            Ok((a, i1)) => match sp_u8(d, i1) {
                Ok((b2, i2)) => match sp_u8(d, i2) {
                    Ok((c, i3)) => match sp_u16(d, i3) {
                        Ok((x, i4)) => match sp_u8(d, i4) {
                            Ok((e5, _)) => Ok(GlobalDataV::PlayerControls(a, b2, c, x, e5)),
                            Err(e) => Err(e),
                        },
                        Err(e) => Err(e),
                    },
                    Err(e) => Err(e),
                },
                Err(e) => Err(e),
            },
            Err(e) => Err(e),
        }
    } else if tag == 111 {
        match sp_story_event_manager(d, 0) {
            Ok((v, _)) => Ok(GlobalDataV::StoryEventManager(v)),
            Err(e) => Err(e),
        }
    } else if tag == 112 {
        match sp_ingredients_combined(d, 0) {
            Ok((v, _)) => Ok(GlobalDataV::IngredientShared(v)),
            Err(e) => Err(e),
        }
    } else if tag == 113 {
        match sp_u8(d, 0) {
            Ok((a, i1)) => match sp_u8(d, i1) {
                Ok((b2, _)) => Ok(GlobalDataV::MenuControls(a, b2)),
                Err(e) => Err(e),
            },
            Err(e) => Err(e),
        }
    } else if tag == 114 {
        match sp_ref_id(d, 0) {
            Ok((a, i1)) => match sp_ref_id(d, i1) {
                Ok((b2, _)) => Ok(GlobalDataV::MenuTopicManager(a, b2)),
                Err(e) => Err(e),
            },
            Err(e) => Err(e),
        }
    } else if tag == 1000 {
        Ok(GlobalDataV::TempEffects(d))
    } else if tag == 1001 {
        Ok(GlobalDataV::Papyrus(d))
    } else if tag == 1002 {
        match sp_anim_objects(d, 0) {
            Ok((v, _)) => Ok(GlobalDataV::AnimObjects(v)),
            Err(e) => Err(e),
        }
    } else if tag == 1003 {
        match sp_u8(d, 0) {
            Ok((a, i1)) => match sp_u8(d, i1) {
                Ok((b2, _)) => Ok(GlobalDataV::Timer(a, b2)),
                Err(e) => Err(e),
            },
            Err(e) => Err(e),
        }
    } else if tag == 1004 {
        Ok(GlobalDataV::SynchronizedAnimations(d))
    } else {
        Ok(GlobalDataV::Main)
    }
}

/// One table entry at position `i`: a 32-bit tag, a 32-bit byte length, and
/// the dispatch of exactly that span.
pub open spec fn sp_global_record(b: Seq<u8>, i: int) -> Result<(GlobalDataV, int), DecodeError> {
    match sp_u32(b, i) {
        Ok((tag, i1)) => match sp_u32(b, i1) {
            Ok((len, i2)) => match sp_bytes(b, i2, len as int) {
                Ok((d, j)) => match sp_dispatch(tag, d) {
                    Ok(v) => Ok((v, j)),
                    Err(e) => Err(e),
                },
                Err(e) => Err(e),
            },
            Err(e) => Err(e),
        },
        Err(e) => Err(e),
    }
}

/// `n` table entries at position `i`.
pub open spec fn sp_global_records(b: Seq<u8>, i: int, n: nat) -> Result<
    (Seq<GlobalDataV>, int),
    DecodeError,
>
    decreases n,
{
    if n == 0 {
        Ok((Seq::empty(), i))
    } else {
        match sp_global_record(b, i) {
            Ok((v, j)) => match sp_global_records(b, j, (n - 1) as nat) {
                Ok((rest, k)) => Ok((seq![v] + rest, k)),
                Err(e) => Err(e),
            },
            Err(e) => Err(e),
        }
    }
}

/// Law: a record with tag 1005 always decodes to the terminal empty variant,
/// whatever its declared length and content.
pub proof fn lemma_main_tag_ignores_content(d: Seq<u8>)
    ensures
        sp_dispatch(1005, d) == Ok::<GlobalDataV, DecodeError>(GlobalDataV::Main),
{
}

// ---------------------------------------------------------------------------
// Executable decoders.
// ---------------------------------------------------------------------------

/// Read `count` TES bookkeeping entries.
#[verifier::loop_isolation(false)]
fn read_tes_unknown0s(r: &mut SaveFileReader, count: u32) -> (res: Result<Vec<TESUnknown0>, DecodeError>)
    requires
        old(r).wf(),
    ensures
        final(r).wf(),
        final(r).bytes() == old(r).bytes(),
        match sp_tes_unknown0_items(old(r).bytes(), old(r).pos(), count as nat) {
            Ok((v, j)) => res matches Ok(x) && x@ == v && final(r).pos() == j,
            Err(e2) => res matches Err(e) && err_matches(e, e2),
        },
{
    let ghost b = old(r).bytes();
    let ghost i0 = old(r).pos();
    let mut vec: Vec<TESUnknown0> = Vec::new();
    let mut k: u32 = 0;
    while k < count
        invariant
            r.wf(),
            r.bytes() == b,
            k <= count,
            r.pos() == i0 + 5 * k,
            vec@ == Seq::new(k as nat, |t: int| TESUnknown0 { form_id: crate::fundamental_types::spec_form_id(b[i0 + 5 * t], b[i0 + 5 * t + 1]), unknown: crate::reader::le16(b, i0 + 5 * t + 3) }),
        decreases count - k,
    {
        let form_id = match read_ref_id(r) {
            Ok(v) => v,
            Err(e) => {
                return Err(e);
            },
        };
        let unknown = match r.read_u16() {
            Ok(v) => v,
            Err(e) => {
                return Err(e);
            },
        };
        vec.push(TESUnknown0 { form_id, unknown });
        k = k + 1;
        proof {
            assert(vec@ =~= Seq::new(k as nat, |t: int| TESUnknown0 { form_id: crate::fundamental_types::spec_form_id(b[i0 + 5 * t], b[i0 + 5 * t + 1]), unknown: crate::reader::le16(b, i0 + 5 * t + 3) }));
        }
    }
    proof {
        match sp_tes_unknown0_items(b, i0, count as nat) {
            Ok((v, j)) => {
                assert(vec@ =~= v);
            },
            Err(_) => {
                assert(false);
            },
        }
    }
    Ok(vec)
}

/// Read `count` global variables.
#[verifier::loop_isolation(false)]
fn read_global_variable_items(r: &mut SaveFileReader, count: u32) -> (res: Result<Vec<GlobalVariable>, DecodeError>)
    requires
        old(r).wf(),
    ensures
        final(r).wf(),
        final(r).bytes() == old(r).bytes(),
        match sp_global_variable_items(old(r).bytes(), old(r).pos(), count as nat) {
            Ok((v, j)) => res matches Ok(x) && x@ == v && final(r).pos() == j,
            Err(e2) => res matches Err(e) && err_matches(e, e2),
        },
{
    let ghost b = old(r).bytes();
    let ghost i0 = old(r).pos();
    let mut vec: Vec<GlobalVariable> = Vec::new();
    let mut k: u32 = 0;
    while k < count
        invariant
            r.wf(),
            r.bytes() == b,
            k <= count,
            r.pos() == i0 + 7 * k,
            vec@ == Seq::new(k as nat, |t: int| GlobalVariable { form_id: crate::fundamental_types::spec_form_id(b[i0 + 7 * t], b[i0 + 7 * t + 1]), value: F32Bits { bits: le32(b, i0 + 7 * t + 3) } }),
        decreases count - k,
    {
        let form_id = match read_ref_id(r) {
            Ok(v) => v,
            Err(e) => {
                return Err(e);
            },
        };
        let value = match r.read_f32() {
            Ok(v) => v,
            Err(e) => {
                return Err(e);
            },
        };
        vec.push(GlobalVariable { form_id, value });
        k = k + 1;
        proof {
            assert(vec@ =~= Seq::new(k as nat, |t: int| GlobalVariable { form_id: crate::fundamental_types::spec_form_id(b[i0 + 7 * t], b[i0 + 7 * t + 1]), value: F32Bits { bits: le32(b, i0 + 7 * t + 3) } }));
        }
    }
    proof {
        match sp_global_variable_items(b, i0, count as nat) {
            Ok((v, j)) => {
                assert(vec@ =~= v);
            },
            Err(_) => {
                assert(false);
            },
        }
    }
    Ok(vec)
}

/// Read `count` magic effects.
#[verifier::loop_isolation(false)]
pub fn read_magic_effects(r: &mut SaveFileReader, count: u32) -> (res: Result<Vec<MagicEffect>, DecodeError>)
    requires
        old(r).wf(),
    ensures
        final(r).wf(),
        final(r).bytes() == old(r).bytes(),
        match sp_magic_effect_items(old(r).bytes(), old(r).pos(), count as nat) {
            Ok((v, j)) => res matches Ok(x) && x@ == v && final(r).pos() == j,
            Err(e2) => res matches Err(e) && err_matches(e, e2),
        },
{
    let ghost b = old(r).bytes();
    let ghost i0 = old(r).pos();
    let mut vec: Vec<MagicEffect> = Vec::new();
    let mut k: u32 = 0;
    while k < count
        invariant
            r.wf(),
            r.bytes() == b,
            k <= count,
            r.pos() == i0 + 19 * k,
            vec@ == Seq::new(k as nat, |t: int| MagicEffect { effect_id: crate::fundamental_types::spec_form_id(b[i0 + 19 * t], b[i0 + 19 * t + 1]), info: EnchInfo { magnitude: F32Bits { bits: le32(b, i0 + 19 * t + 3) }, duration: le32(b, i0 + 19 * t + 7), area: le32(b, i0 + 19 * t + 11) }, price: F32Bits { bits: le32(b, i0 + 19 * t + 15) } }),
        decreases count - k,
    {
        let effect_id = match read_ref_id(r) {
            Ok(v) => v,
            Err(e) => {
                return Err(e);
            },
        };
        let magnitude = match r.read_f32() {
            Ok(v) => v,
            Err(e) => {
                return Err(e);
            },
        };
        let duration = match r.read_u32() {
            Ok(v) => v,
            Err(e) => {
                return Err(e);
            },
        };
        let area = match r.read_u32() {
            Ok(v) => v,
            Err(e) => {
                return Err(e);
            },
        };
        let price = match r.read_f32() {
            Ok(v) => v,
            Err(e) => {
                return Err(e);
            },
        };
        vec.push(MagicEffect { effect_id, info: EnchInfo { magnitude, duration, area }, price });
        k = k + 1;
        proof {
            assert(vec@ =~= Seq::new(k as nat, |t: int| MagicEffect { effect_id: crate::fundamental_types::spec_form_id(b[i0 + 19 * t], b[i0 + 19 * t + 1]), info: EnchInfo { magnitude: F32Bits { bits: le32(b, i0 + 19 * t + 3) }, duration: le32(b, i0 + 19 * t + 7), area: le32(b, i0 + 19 * t + 11) }, price: F32Bits { bits: le32(b, i0 + 19 * t + 15) } }));
        }
    }
    proof {
        match sp_magic_effect_items(b, i0, count as nat) {
            Ok((v, j)) => {
                assert(vec@ =~= v);
            },
            Err(_) => {
                assert(false);
            },
        }
    }
    Ok(vec)
}

/// Read `count` image-space modifiers.
#[verifier::loop_isolation(false)]
fn read_effect_items(r: &mut SaveFileReader, count: u32) -> (res: Result<Vec<Effect>, DecodeError>)
    requires
        old(r).wf(),
    ensures
        final(r).wf(),
        final(r).bytes() == old(r).bytes(),
        match sp_effect_items(old(r).bytes(), old(r).pos(), count as nat) {
            Ok((v, j)) => res matches Ok(x) && x@ == v && final(r).pos() == j,
            Err(e2) => res matches Err(e) && err_matches(e, e2),
        },
{
    let ghost b = old(r).bytes();
    let ghost i0 = old(r).pos();
    let mut vec: Vec<Effect> = Vec::new();
    let mut k: u32 = 0;
    while k < count
        invariant
            r.wf(),
            r.bytes() == b,
            k <= count,
            r.pos() == i0 + 15 * k,
            vec@ == Seq::new(k as nat, |t: int| Effect { strength: F32Bits { bits: le32(b, i0 + 15 * t) }, timestamp: F32Bits { bits: le32(b, i0 + 15 * t + 4) }, unknown: le32(b, i0 + 15 * t + 8), effect_id: crate::fundamental_types::spec_form_id(b[i0 + 15 * t + 12], b[i0 + 15 * t + 13]) }),
        decreases count - k,
    {
        let strength = match r.read_f32() {
            Ok(v) => v,
            Err(e) => {
                return Err(e);
            },
        };
        let timestamp = match r.read_f32() {
            Ok(v) => v,
            Err(e) => {
                return Err(e);
            },
        };
        let unknown = match r.read_u32() {
            Ok(v) => v,
            Err(e) => {
                return Err(e);
            },
        };
        let effect_id = match read_ref_id(r) {
            Ok(v) => v,
            Err(e) => {
                return Err(e);
            },
        };
        vec.push(Effect { strength, timestamp, unknown, effect_id });
        k = k + 1;
        proof {
            assert(vec@ =~= Seq::new(k as nat, |t: int| Effect { strength: F32Bits { bits: le32(b, i0 + 15 * t) }, timestamp: F32Bits { bits: le32(b, i0 + 15 * t + 4) }, unknown: le32(b, i0 + 15 * t + 8), effect_id: crate::fundamental_types::spec_form_id(b[i0 + 15 * t + 12], b[i0 + 15 * t + 13]) }));
        }
    }
    proof {
        match sp_effect_items(b, i0, count as nat) {
            Ok((v, j)) => {
                assert(vec@ =~= v);
            },
            Err(_) => {
                assert(false);
            },
        }
    }
    Ok(vec)
}

/// Read `count` sky-cell entries.
#[verifier::loop_isolation(false)]
fn read_sky_cell_items(r: &mut SaveFileReader, count: u32) -> (res: Result<Vec<SkyCellUnknown0>, DecodeError>)
    requires
        old(r).wf(),
    ensures
        final(r).wf(),
        final(r).bytes() == old(r).bytes(),
        match sp_sky_cell_items(old(r).bytes(), old(r).pos(), count as nat) {
            Ok((v, j)) => res matches Ok(x) && x@ == v && final(r).pos() == j,
            Err(e2) => res matches Err(e) && err_matches(e, e2),
        },
{
    let ghost b = old(r).bytes();
    let ghost i0 = old(r).pos();
    let mut vec: Vec<SkyCellUnknown0> = Vec::new();
    let mut k: u32 = 0;
    while k < count
        invariant
            r.wf(),
            r.bytes() == b,
            k <= count,
            r.pos() == i0 + 6 * k,
            vec@ == Seq::new(k as nat, |t: int| SkyCellUnknown0 { u1: crate::fundamental_types::spec_form_id(b[i0 + 6 * t], b[i0 + 6 * t + 1]), u2: crate::fundamental_types::spec_form_id(b[i0 + 6 * t + 3], b[i0 + 6 * t + 4]) }),
        decreases count - k,
    {
        let u1 = match read_ref_id(r) {
            Ok(v) => v,
            Err(e) => {
                return Err(e);
            },
        };
        let u2 = match read_ref_id(r) {
            Ok(v) => v,
            Err(e) => {
                return Err(e);
            },
        };
        vec.push(SkyCellUnknown0 { u1, u2 });
        k = k + 1;
        proof {
            assert(vec@ =~= Seq::new(k as nat, |t: int| SkyCellUnknown0 { u1: crate::fundamental_types::spec_form_id(b[i0 + 6 * t], b[i0 + 6 * t + 1]), u2: crate::fundamental_types::spec_form_id(b[i0 + 6 * t + 3], b[i0 + 6 * t + 4]) }));
        }
    }
    proof {
        match sp_sky_cell_items(b, i0, count as nat) {
            Ok((v, j)) => {
                assert(vec@ =~= v);
            },
            Err(_) => {
                assert(false);
            },
        }
    }
    Ok(vec)
}

/// Read `count` detection-manager entries.
#[verifier::loop_isolation(false)]
fn read_detection_items(r: &mut SaveFileReader, count: u32) -> (res: Result<Vec<DetectionManagerUnknown0>, DecodeError>)
    requires
        old(r).wf(),
    ensures
        final(r).wf(),
        final(r).bytes() == old(r).bytes(),
        match sp_detection_items(old(r).bytes(), old(r).pos(), count as nat) {
            Ok((v, j)) => res matches Ok(x) && x@ == v && final(r).pos() == j,
            Err(e2) => res matches Err(e) && err_matches(e, e2),
        },
{
    let ghost b = old(r).bytes();
    let ghost i0 = old(r).pos();
    let mut vec: Vec<DetectionManagerUnknown0> = Vec::new();
    let mut k: u32 = 0;
    while k < count
        invariant
            r.wf(),
            r.bytes() == b,
            k <= count,
            r.pos() == i0 + 11 * k,
            vec@ == Seq::new(k as nat, |t: int| DetectionManagerUnknown0 { u0: crate::fundamental_types::spec_form_id(b[i0 + 11 * t], b[i0 + 11 * t + 1]), u1: le32(b, i0 + 11 * t + 3), u2: le32(b, i0 + 11 * t + 7) }),
        decreases count - k,
    {
        let u0 = match read_ref_id(r) {
            Ok(v) => v,
            Err(e) => {
                return Err(e);
            },
        };
        let u1 = match r.read_u32() {
            Ok(v) => v,
            Err(e) => {
                return Err(e);
            },
        };
        let u2 = match r.read_u32() {
            Ok(v) => v,
            Err(e) => {
                return Err(e);
            },
        };
        vec.push(DetectionManagerUnknown0 { u0, u1, u2 });
        k = k + 1;
        proof {
            assert(vec@ =~= Seq::new(k as nat, |t: int| DetectionManagerUnknown0 { u0: crate::fundamental_types::spec_form_id(b[i0 + 11 * t], b[i0 + 11 * t + 1]), u1: le32(b, i0 + 11 * t + 3), u2: le32(b, i0 + 11 * t + 7) }));
        }
    }
    proof {
        match sp_detection_items(b, i0, count as nat) {
            Ok((v, j)) => {
                assert(vec@ =~= v);
            },
            Err(_) => {
                assert(false);
            },
        }
    }
    Ok(vec)
}

/// Read `count` location-metadata entries.
#[verifier::loop_isolation(false)]
fn read_location_meta_items(r: &mut SaveFileReader, count: u32) -> (res: Result<Vec<LocationMetaDataUnknown0>, DecodeError>)
    requires
        old(r).wf(),
    ensures
        final(r).wf(),
        final(r).bytes() == old(r).bytes(),
        match sp_location_meta_items(old(r).bytes(), old(r).pos(), count as nat) {
            Ok((v, j)) => res matches Ok(x) && x@ == v && final(r).pos() == j,
            Err(e2) => res matches Err(e) && err_matches(e, e2),
        },
{
    let ghost b = old(r).bytes();
    let ghost i0 = old(r).pos();
    let mut vec: Vec<LocationMetaDataUnknown0> = Vec::new();
    let mut k: u32 = 0;
    while k < count
        invariant
            r.wf(),
            r.bytes() == b,
            k <= count,
            r.pos() == i0 + 7 * k,
            vec@ == Seq::new(k as nat, |t: int| LocationMetaDataUnknown0 { u0: crate::fundamental_types::spec_form_id(b[i0 + 7 * t], b[i0 + 7 * t + 1]), u1: le32(b, i0 + 7 * t + 3) }),
        decreases count - k,
    {
        let u0 = match read_ref_id(r) {
            Ok(v) => v,
            Err(e) => {
                return Err(e);
            },
        };
        let u1 = match r.read_u32() {
            Ok(v) => v,
            Err(e) => {
                return Err(e);
            },
        };
        vec.push(LocationMetaDataUnknown0 { u0, u1 });
        k = k + 1;
        proof {
            assert(vec@ =~= Seq::new(k as nat, |t: int| LocationMetaDataUnknown0 { u0: crate::fundamental_types::spec_form_id(b[i0 + 7 * t], b[i0 + 7 * t + 1]), u1: le32(b, i0 + 7 * t + 3) }));
        }
    }
    proof {
        match sp_location_meta_items(b, i0, count as nat) {
            Ok((v, j)) => {
                assert(vec@ =~= v);
            },
            Err(_) => {
                assert(false);
            },
        }
    }
    Ok(vec)
}

/// Read `count` quest static-data pairs.
#[verifier::loop_isolation(false)]
fn read_qsd_unknown1_items(r: &mut SaveFileReader, count: u32) -> (res: Result<Vec<QuestStaticDataUnknown1>, DecodeError>)
    requires
        old(r).wf(),
    ensures
        final(r).wf(),
        final(r).bytes() == old(r).bytes(),
        match sp_qsd_unknown1_items(old(r).bytes(), old(r).pos(), count as nat) {
            Ok((v, j)) => res matches Ok(x) && x@ == v && final(r).pos() == j,
            Err(e2) => res matches Err(e) && err_matches(e, e2),
        },
{
    let ghost b = old(r).bytes();
    let ghost i0 = old(r).pos();
    let mut vec: Vec<QuestStaticDataUnknown1> = Vec::new();
    let mut k: u32 = 0;
    while k < count
        invariant
            r.wf(),
            r.bytes() == b,
            k <= count,
            r.pos() == i0 + 8 * k,
            vec@ == Seq::new(k as nat, |t: int| QuestStaticDataUnknown1 { unk_1_0: le32(b, i0 + 8 * t), unk_1_1: le32(b, i0 + 8 * t + 4) }),
        decreases count - k,
    {
        let unk_1_0 = match r.read_u32() {
            Ok(v) => v,
            Err(e) => {
                return Err(e);
            },
        };
        let unk_1_1 = match r.read_u32() {
            Ok(v) => v,
            Err(e) => {
                return Err(e);
            },
        };
        vec.push(QuestStaticDataUnknown1 { unk_1_0, unk_1_1 });
        k = k + 1;
        proof {
            assert(vec@ =~= Seq::new(k as nat, |t: int| QuestStaticDataUnknown1 { unk_1_0: le32(b, i0 + 8 * t), unk_1_1: le32(b, i0 + 8 * t + 4) }));
        }
    }
    proof {
        match sp_qsd_unknown1_items(b, i0, count as nat) {
            Ok((v, j)) => {
                assert(vec@ =~= v);
            },
            Err(_) => {
                assert(false);
            },
        }
    }
    Ok(vec)
}

/// Read `count` failed ingredient pairs.
#[verifier::loop_isolation(false)]
fn read_ingredient_items(r: &mut SaveFileReader, count: u32) -> (res: Result<Vec<IngredientsCombined>, DecodeError>)
    requires
        old(r).wf(),
    ensures
        final(r).wf(),
        final(r).bytes() == old(r).bytes(),
        match sp_ingredient_items(old(r).bytes(), old(r).pos(), count as nat) {
            Ok((v, j)) => res matches Ok(x) && x@ == v && final(r).pos() == j,
            Err(e2) => res matches Err(e) && err_matches(e, e2),
        },
{
    let ghost b = old(r).bytes();
    let ghost i0 = old(r).pos();
    let mut vec: Vec<IngredientsCombined> = Vec::new();
    let mut k: u32 = 0;
    while k < count
        invariant
            r.wf(),
            r.bytes() == b,
            k <= count,
            r.pos() == i0 + 6 * k,
            vec@ == Seq::new(k as nat, |t: int| IngredientsCombined { ingredient0: crate::fundamental_types::spec_form_id(b[i0 + 6 * t], b[i0 + 6 * t + 1]), ingredient1: crate::fundamental_types::spec_form_id(b[i0 + 6 * t + 3], b[i0 + 6 * t + 4]) }),
        decreases count - k,
    {
        let ingredient0 = match read_ref_id(r) {
            Ok(v) => v,
            Err(e) => {
                return Err(e);
            },
        };
        let ingredient1 = match read_ref_id(r) {
            Ok(v) => v,
            Err(e) => {
                return Err(e);
            },
        };
        vec.push(IngredientsCombined { ingredient0, ingredient1 });
        k = k + 1;
        proof {
            assert(vec@ =~= Seq::new(k as nat, |t: int| IngredientsCombined { ingredient0: crate::fundamental_types::spec_form_id(b[i0 + 6 * t], b[i0 + 6 * t + 1]), ingredient1: crate::fundamental_types::spec_form_id(b[i0 + 6 * t + 3], b[i0 + 6 * t + 4]) }));
        }
    }
    proof {
        match sp_ingredient_items(b, i0, count as nat) {
            Ok((v, j)) => {
                assert(vec@ =~= v);
            },
            Err(_) => {
                assert(false);
            },
        }
    }
    Ok(vec)
}

/// Read `count` actor-and-animation pairs.
#[verifier::loop_isolation(false)]
fn read_anim_object_items(r: &mut SaveFileReader, count: u32) -> (res: Result<Vec<AnimObject>, DecodeError>)
    requires
        old(r).wf(),
    ensures
        final(r).wf(),
        final(r).bytes() == old(r).bytes(),
        match sp_anim_object_items(old(r).bytes(), old(r).pos(), count as nat) {
            Ok((v, j)) => res matches Ok(x) && x@ == v && final(r).pos() == j,
            Err(e2) => res matches Err(e) && err_matches(e, e2),
        },
{
    let ghost b = old(r).bytes();
    let ghost i0 = old(r).pos();
    let mut vec: Vec<AnimObject> = Vec::new();
    let mut k: u32 = 0;
    while k < count
        invariant
            r.wf(),
            r.bytes() == b,
            k <= count,
            r.pos() == i0 + 7 * k,
            vec@ == Seq::new(k as nat, |t: int| AnimObject { achr: crate::fundamental_types::spec_form_id(b[i0 + 7 * t], b[i0 + 7 * t + 1]), anim: crate::fundamental_types::spec_form_id(b[i0 + 7 * t + 3], b[i0 + 7 * t + 4]), u1: b[i0 + 7 * t + 6] }),
        decreases count - k,
    {
        let achr = match read_ref_id(r) {
            Ok(v) => v,
            Err(e) => {
                return Err(e);
            },
        };
        let anim = match read_ref_id(r) {
            Ok(v) => v,
            Err(e) => {
                return Err(e);
            },
        };
        let u1 = match r.read_u8() {
            Ok(v) => v,
            Err(e) => {
                return Err(e);
            },
        };
        vec.push(AnimObject { achr, anim, u1 });
        k = k + 1;
        proof {
            assert(vec@ =~= Seq::new(k as nat, |t: int| AnimObject { achr: crate::fundamental_types::spec_form_id(b[i0 + 7 * t], b[i0 + 7 * t + 1]), anim: crate::fundamental_types::spec_form_id(b[i0 + 7 * t + 3], b[i0 + 7 * t + 4]), u1: b[i0 + 7 * t + 6] }));
        }
    }
    proof {
        match sp_anim_object_items(b, i0, count as nat) {
            Ok((v, j)) => {
                assert(vec@ =~= v);
            },
            Err(_) => {
                assert(false);
            },
        }
    }
    Ok(vec)
}

/// Read `count` actor-causes entries.
#[verifier::loop_isolation(false)]
fn read_actor_causes_items(r: &mut SaveFileReader, count: u32) -> (res: Result<Vec<ActorCausesUnknown0>, DecodeError>)
    requires
        old(r).wf(),
    ensures
        final(r).wf(),
        final(r).bytes() == old(r).bytes(),
        match sp_actor_causes_items(old(r).bytes(), old(r).pos(), count as nat) {
            Ok((v, j)) => res matches Ok(x) && x@ == v && final(r).pos() == j,
            Err(e2) => res matches Err(e) && err_matches(e, e2),
        },
{
    let ghost b = old(r).bytes();
    let ghost i0 = old(r).pos();
    let mut vec: Vec<ActorCausesUnknown0> = Vec::new();
    let mut k: u32 = 0;
    while k < count
        invariant
            r.wf(),
            r.bytes() == b,
            k <= count,
            r.pos() == i0 + 19 * k,
            vec@ == Seq::new(k as nat, |t: int| ActorCausesUnknown0 { x: F32Bits { bits: le32(b, i0 + 19 * t) }, y: F32Bits { bits: le32(b, i0 + 19 * t + 4) }, z: F32Bits { bits: le32(b, i0 + 19 * t + 8) }, serial_num: le32(b, i0 + 19 * t + 12), actor_id: crate::fundamental_types::spec_form_id(b[i0 + 19 * t + 16], b[i0 + 19 * t + 17]) }),
        decreases count - k,
    {
        let x = match r.read_f32() {
            Ok(v) => v,
            Err(e) => {
                return Err(e);
            },
        };
        let y = match r.read_f32() {
            Ok(v) => v,
            Err(e) => {
                return Err(e);
            },
        };
        let z = match r.read_f32() {
            Ok(v) => v,
            Err(e) => {
                return Err(e);
            },
        };
        let serial_num = match r.read_u32() {
            Ok(v) => v,
            Err(e) => {
                return Err(e);
            },
        };
        let actor_id = match read_ref_id(r) {
            Ok(v) => v,
            Err(e) => {
                return Err(e);
            },
        };
        vec.push(ActorCausesUnknown0 { x, y, z, serial_num, actor_id });
        k = k + 1;
        proof {
            assert(vec@ =~= Seq::new(k as nat, |t: int| ActorCausesUnknown0 { x: F32Bits { bits: le32(b, i0 + 19 * t) }, y: F32Bits { bits: le32(b, i0 + 19 * t + 4) }, z: F32Bits { bits: le32(b, i0 + 19 * t + 8) }, serial_num: le32(b, i0 + 19 * t + 12), actor_id: crate::fundamental_types::spec_form_id(b[i0 + 19 * t + 16], b[i0 + 19 * t + 17]) }));
        }
    }
    proof {
        match sp_actor_causes_items(b, i0, count as nat) {
            Ok((v, j)) => {
                assert(vec@ =~= v);
            },
            Err(_) => {
                assert(false);
            },
        }
    }
    Ok(vec)
}

/// Map a stored category byte, recording a warning for an unknown one.
fn convert_misc_stat_category(v: u8, warnings: &mut Vec<Warning>) -> (r: MiscStatCategory)
    ensures
        r == spec_misc_stat_category(v),
        final(warnings)@ == if v > 6 {
            old(warnings)@.push(Warning::UnknownMiscStatCategory { value: v })
        } else {
            old(warnings)@
        },
{
    match v {
        0 => MiscStatCategory::General,
        1 => MiscStatCategory::Quest,
        2 => MiscStatCategory::Combat,
        3 => MiscStatCategory::Magic,
        4 => MiscStatCategory::Crafting,
        5 => MiscStatCategory::Crime,
        6 => MiscStatCategory::DLCStats,
        _ => {
            warnings.push(Warning::UnknownMiscStatCategory { value: v });
            MiscStatCategory::Error
        },
    }
}

/// Read one miscellaneous-statistics entry.
fn read_misc_stat(r: &mut SaveFileReader, warnings: &mut Vec<Warning>) -> (res: Result<
    MiscStats,
    DecodeError,
>)
    requires
        old(r).wf(),
    ensures
        final(r).wf(),
        final(r).bytes() == old(r).bytes(),
        old(warnings)@.is_prefix_of(final(warnings)@),
        match sp_misc_stat(old(r).bytes(), old(r).pos()) {
            Ok((v, j)) => res matches Ok(x) && x.deep_view() == v && final(r).pos() == j,
            Err(e2) => res matches Err(e) && err_matches(e, e2),
        },
{
    let name = match r.read_w_string(warnings) {
        Ok(v) => v,
        Err(e) => {
            return Err(e);
        },
    };
    let cat = match r.read_u8() {
        Ok(v) => v,
        Err(e) => {
            return Err(e);
        },
    };
    let value = match r.read_u32() {
        Ok(v) => v,
        Err(e) => {
            return Err(e);
        },
    };
    let category = convert_misc_stat_category(cat, warnings);
    Ok(MiscStats { name: name.content, category, value })
}

/// Read one created enchantment and its counted effect list.
fn read_enchantment(r: &mut SaveFileReader, warnings: &mut Vec<Warning>) -> (res: Result<
    Enchantment,
    DecodeError,
>)
    requires
        old(r).wf(),
    ensures
        final(r).wf(),
        final(r).bytes() == old(r).bytes(),
        old(warnings)@.is_prefix_of(final(warnings)@),
        match sp_enchantment(old(r).bytes(), old(r).pos()) {
            Ok((v, j)) => res matches Ok(x) && x.deep_view() == v && final(r).pos() == j,
            Err(e2) => res matches Err(e) && err_matches(e, e2),
        },
{
    let ref_id = match read_ref_id(r) {
        Ok(v) => v,
        Err(e) => {
            return Err(e);
        },
    };
    let times_used = match r.read_u32() {
        Ok(v) => v,
        Err(e) => {
            return Err(e);
        },
    };
    let effects_count = match read_vsval_to_u32(r, warnings) {
        Ok(v) => v,
        Err(e) => {
            return Err(e);
        },
    };
    let effects = match read_magic_effects(r, effects_count) {
        Ok(v) => v,
        Err(e) => {
            return Err(e);
        },
    };
    Ok(Enchantment { ref_id, times_used, effects })
}

/// Read one tracked crime.
pub fn read_crime(r: &mut SaveFileReader, warnings: &mut Vec<Warning>) -> (res: Result<
    Crime,
    DecodeError,
>)
    requires
        old(r).wf(),
    ensures
        final(r).wf(),
        final(r).bytes() == old(r).bytes(),
        old(warnings)@.is_prefix_of(final(warnings)@),
        match sp_crime(old(r).bytes(), old(r).pos()) {
            Ok((v, j)) => res matches Ok(x) && x.deep_view() == v && final(r).pos() == j,
            Err(e2) => res matches Err(e) && err_matches(e, e2),
        },
{
    let witness_num = match r.read_u32() {
        Ok(v) => v,
        Err(e) => {
            return Err(e);
        },
    };
    let crime_code = match r.read_u32() {
        Ok(v) => v,
        Err(e) => {
            return Err(e);
        },
    };
    if crime_code > 6 {
        warnings.push(Warning::UnknownCrimeType { value: crime_code });
    }
    let crime_type = convert_to_crime_type(crime_code);
    let u1 = match r.read_u8() {
        Ok(v) => v,
        Err(e) => {
            return Err(e);
        },
    };
    let quantity = match r.read_u32() {
        Ok(v) => v,
        Err(e) => {
            return Err(e);
        },
    };
    let serial_num = match r.read_u32() {
        Ok(v) => v,
        Err(e) => {
            return Err(e);
        },
    };
    let u2 = match r.read_u8() {
        Ok(v) => v,
        Err(e) => {
            return Err(e);
        },
    };
    let u3 = match r.read_u32() {
        Ok(v) => v,
        Err(e) => {
            return Err(e);
        },
    };
    let elapsed_time = match r.read_f32() {
        Ok(v) => v,
        Err(e) => {
            return Err(e);
        },
    };
    let victim_id = match read_ref_id(r) {
        Ok(v) => v,
        Err(e) => {
            return Err(e);
        },
    };
    let criminal_id = match read_ref_id(r) {
        Ok(v) => v,
        Err(e) => {
            return Err(e);
        },
    };
    let item_base_id = match read_ref_id(r) {
        Ok(v) => v,
        Err(e) => {
            return Err(e);
        },
    };
    let ownership_id = match read_ref_id(r) {
        Ok(v) => v,
        Err(e) => {
            return Err(e);
        },
    };
    let count = match read_vsval_to_u32(r, warnings) {
        Ok(v) => v,
        Err(e) => {
            return Err(e);
        },
    };
    let witnesses = match read_ref_ids_into_vec(r, count) {
        Ok(v) => v,
        Err(e) => {
            return Err(e);
        },
    };
    let bounty = match r.read_u32() {
        Ok(v) => v,
        Err(e) => {
            return Err(e);
        },
    };
    let crime_faction_id = match read_ref_id(r) {
        Ok(v) => v,
        Err(e) => {
            return Err(e);
        },
    };
    let cleared_byte = match r.read_u8() {
        Ok(v) => v,
        Err(e) => {
            return Err(e);
        },
    };
    let is_cleared = if cleared_byte == 0 {
        false
    } else if cleared_byte == 1 {
        true
    } else {
        warnings.push(Warning::UnknownBoolByte { value: cleared_byte });
        true
    };
    let u4 = match r.read_u16() {
        Ok(v) => v,
        Err(e) => {
            return Err(e);
        },
    };
    Ok(
        Crime {
            witness_num,
            crime_type,
            u1,
            quantity,
            serial_num,
            u2,
            u3,
            elapsed_time,
            victim_id,
            criminal_id,
            item_base_id,
            ownership_id,
            witnesses,
            bounty,
            crime_faction_id,
            is_cleared,
            u4,
        },
    )
}

/// Read one quest run-data element: a type tag, then a plain value or a
/// reference identifier; an unknown tag is read as a reference identifier and
/// recorded as a warning.
pub fn read_quest_run_data_item_3_data_type(
    r: &mut SaveFileReader,
    warnings: &mut Vec<Warning>,
) -> (res: Result<QuestRunDataItem3DataType, DecodeError>)
    requires
        old(r).wf(),
    ensures
        final(r).wf(),
        final(r).bytes() == old(r).bytes(),
        old(warnings)@.is_prefix_of(final(warnings)@),
        match sp_quest_run_data_element(old(r).bytes(), old(r).pos()) {
            Ok((v, j)) => res matches Ok(x) && x == v && final(r).pos() == j,
            Err(e2) => res matches Err(e) && err_matches(e, e2),
        },
{
    let data_type = match r.read_u32() {
        Ok(v) => v,
        Err(e) => {
            return Err(e);
        },
    };
    if data_type == 3 {
        let v = match r.read_u32() {
            Ok(v) => v,
            Err(e) => {
                return Err(e);
            },
        };
        Ok(QuestRunDataItem3DataType::U32(v))
    } else {
        if !(data_type == 1 || data_type == 2 || data_type == 4) {
            warnings.push(Warning::UnknownQuestDataType { value: data_type });
        }
        let v = match read_ref_id(r) {
            Ok(v) => v,
            Err(e) => {
                return Err(e);
            },
        };
        Ok(QuestRunDataItem3DataType::RefId(v))
    }
}

/// Read `count` miscellaneous-statistics entries.
#[verifier::loop_isolation(false)]
fn read_misc_stat_list(r: &mut SaveFileReader, count: u32, warnings: &mut Vec<Warning>) -> (res: Result<
    Vec<MiscStats>,
    DecodeError,
>)
    requires
        old(r).wf(),
    ensures
        final(r).wf(),
        final(r).bytes() == old(r).bytes(),
        old(warnings)@.is_prefix_of(final(warnings)@),
        match sp_misc_stat_items(old(r).bytes(), old(r).pos(), count as nat) {
            Ok((v, j)) => res matches Ok(x) && x.deep_view() == v && final(r).pos() == j,
            Err(e2) => res matches Err(e) && err_matches(e, e2),
        },
{
    let ghost b = old(r).bytes();
    let ghost i0 = old(r).pos();
    let mut vec: Vec<MiscStats> = Vec::new();
    let mut k: u32 = 0;
    while k < count
        invariant
            r.wf(),
            r.bytes() == b,
            k <= count,
            old(warnings)@.is_prefix_of(warnings@),
            match sp_misc_stat_items(b, r.pos(), (count - k) as nat) {
                Ok((rest, end)) => sp_misc_stat_items(b, i0, count as nat) == Ok::<
                    (Seq<MiscStatsV>, int),
                    DecodeError,
                >((vec.deep_view() + rest, end)),
                Err(e) => sp_misc_stat_items(b, i0, count as nat) == Err::<
                    (Seq<MiscStatsV>, int),
                    DecodeError,
                >(e),
            },
        decreases count - k,
    {
        let ghost pos_before = r.pos();
        let ghost w_before = warnings@;
        let item = match read_misc_stat(r, warnings) {
            Ok(v) => v,
            Err(e) => {
                proof {
                    lemma_warning_prefix(old(warnings)@, w_before, warnings@);
                }
                return Err(e);
            },
        };
        proof {
            lemma_warning_prefix(old(warnings)@, w_before, warnings@);
        }
        let ghost old_view = vec.deep_view();
        vec.push(item);
        k = k + 1;
        proof {
            match sp_misc_stat(b, pos_before) {
                Ok((head, j)) => {
                    assert(vec.deep_view() =~= old_view.push(head));
                    match sp_misc_stat_items(b, j, (count - k) as nat) {
                        Ok((rest, end)) => {
                            assert(old_view + (seq![head] + rest) =~= vec.deep_view() + rest);
                        },
                        Err(_) => {},
                    }
                },
                Err(_) => {
                    assert(false);
                },
            }
        }
    }
    proof {
        assert(vec.deep_view() + Seq::<MiscStatsV>::empty() =~= vec.deep_view());
    }
    Ok(vec)
}

/// Read `count` created enchantments.
#[verifier::loop_isolation(false)]
pub fn read_enchantments(r: &mut SaveFileReader, count: u32, warnings: &mut Vec<Warning>) -> (res: Result<
    Vec<Enchantment>,
    DecodeError,
>)
    requires
        old(r).wf(),
    ensures
        final(r).wf(),
        final(r).bytes() == old(r).bytes(),
        old(warnings)@.is_prefix_of(final(warnings)@),
        match sp_enchantment_items(old(r).bytes(), old(r).pos(), count as nat) {
            Ok((v, j)) => res matches Ok(x) && x.deep_view() == v && final(r).pos() == j,
            Err(e2) => res matches Err(e) && err_matches(e, e2),
        },
{
    let ghost b = old(r).bytes();
    let ghost i0 = old(r).pos();
    let mut vec: Vec<Enchantment> = Vec::new();
    let mut k: u32 = 0;
    while k < count
        invariant
            r.wf(),
            r.bytes() == b,
            k <= count,
            old(warnings)@.is_prefix_of(warnings@),
            match sp_enchantment_items(b, r.pos(), (count - k) as nat) {
                Ok((rest, end)) => sp_enchantment_items(b, i0, count as nat) == Ok::<
                    (Seq<EnchantmentV>, int),
                    DecodeError,
                >((vec.deep_view() + rest, end)),
                Err(e) => sp_enchantment_items(b, i0, count as nat) == Err::<
                    (Seq<EnchantmentV>, int),
                    DecodeError,
                >(e),
            },
        decreases count - k,
    {
        let ghost pos_before = r.pos();
        let ghost w_before = warnings@;
        let item = match read_enchantment(r, warnings) {
            Ok(v) => v,
            Err(e) => {
                proof {
                    lemma_warning_prefix(old(warnings)@, w_before, warnings@);
                }
                return Err(e);
            },
        };
        proof {
            lemma_warning_prefix(old(warnings)@, w_before, warnings@);
        }
        let ghost old_view = vec.deep_view();
        vec.push(item);
        k = k + 1;
        proof {
            match sp_enchantment(b, pos_before) {
                Ok((head, j)) => {
                    assert(vec.deep_view() =~= old_view.push(head));
                    match sp_enchantment_items(b, j, (count - k) as nat) {
                        Ok((rest, end)) => {
                            assert(old_view + (seq![head] + rest) =~= vec.deep_view() + rest);
                        },
                        Err(_) => {},
                    }
                },
                Err(_) => {
                    assert(false);
                },
            }
        }
    }
    proof {
        assert(vec.deep_view() + Seq::<EnchantmentV>::empty() =~= vec.deep_view());
    }
    Ok(vec)
}

/// Read `count` tracked crimes.
#[verifier::loop_isolation(false)]
fn read_crime_list(r: &mut SaveFileReader, count: u32, warnings: &mut Vec<Warning>) -> (res: Result<
    Vec<Crime>,
    DecodeError,
>)
    requires
        old(r).wf(),
    ensures
        final(r).wf(),
        final(r).bytes() == old(r).bytes(),
        old(warnings)@.is_prefix_of(final(warnings)@),
        match sp_crime_items(old(r).bytes(), old(r).pos(), count as nat) {
            Ok((v, j)) => res matches Ok(x) && x.deep_view() == v && final(r).pos() == j,
            Err(e2) => res matches Err(e) && err_matches(e, e2),
        },
{
    let ghost b = old(r).bytes();
    let ghost i0 = old(r).pos();
    let mut vec: Vec<Crime> = Vec::new();
    let mut k: u32 = 0;
    while k < count
        invariant
            r.wf(),
            r.bytes() == b,
            k <= count,
            old(warnings)@.is_prefix_of(warnings@),
            match sp_crime_items(b, r.pos(), (count - k) as nat) {
                Ok((rest, end)) => sp_crime_items(b, i0, count as nat) == Ok::<
                    (Seq<CrimeV>, int),
                    DecodeError,
                >((vec.deep_view() + rest, end)),
                Err(e) => sp_crime_items(b, i0, count as nat) == Err::<
                    (Seq<CrimeV>, int),
                    DecodeError,
                >(e),
            },
        decreases count - k,
    {
        let ghost pos_before = r.pos();
        let ghost w_before = warnings@;
        let item = match read_crime(r, warnings) {
            Ok(v) => v,
            Err(e) => {
                proof {
                    lemma_warning_prefix(old(warnings)@, w_before, warnings@);
                }
                return Err(e);
            },
        };
        proof {
            lemma_warning_prefix(old(warnings)@, w_before, warnings@);
        }
        let ghost old_view = vec.deep_view();
        vec.push(item);
        k = k + 1;
        proof {
            match sp_crime(b, pos_before) {
                Ok((head, j)) => {
                    assert(vec.deep_view() =~= old_view.push(head));
                    match sp_crime_items(b, j, (count - k) as nat) {
                        Ok((rest, end)) => {
                            assert(old_view + (seq![head] + rest) =~= vec.deep_view() + rest);
                        },
                        Err(_) => {},
                    }
                },
                Err(_) => {
                    assert(false);
                },
            }
        }
    }
    proof {
        assert(vec.deep_view() + Seq::<CrimeV>::empty() =~= vec.deep_view());
    }
    Ok(vec)
}

/// Read `count` quest run-data elements.
#[verifier::loop_isolation(false)]
fn read_quest_run_data_elements(r: &mut SaveFileReader, count: u32, warnings: &mut Vec<Warning>) -> (res: Result<
    Vec<QuestRunDataItem3DataType>,
    DecodeError,
>)
    requires
        old(r).wf(),
    ensures
        final(r).wf(),
        final(r).bytes() == old(r).bytes(),
        old(warnings)@.is_prefix_of(final(warnings)@),
        match sp_quest_run_data_elements(old(r).bytes(), old(r).pos(), count as nat) {
            Ok((v, j)) => res matches Ok(x) && x.deep_view() == v && final(r).pos() == j,
            Err(e2) => res matches Err(e) && err_matches(e, e2),
        },
{
    let ghost b = old(r).bytes();
    let ghost i0 = old(r).pos();
    let mut vec: Vec<QuestRunDataItem3DataType> = Vec::new();
    let mut k: u32 = 0;
    while k < count
        invariant
            r.wf(),
            r.bytes() == b,
            k <= count,
            old(warnings)@.is_prefix_of(warnings@),
            match sp_quest_run_data_elements(b, r.pos(), (count - k) as nat) {
                Ok((rest, end)) => sp_quest_run_data_elements(b, i0, count as nat) == Ok::<
                    (Seq<QuestRunDataItem3DataType>, int),
                    DecodeError,
                >((vec.deep_view() + rest, end)),
                Err(e) => sp_quest_run_data_elements(b, i0, count as nat) == Err::<
                    (Seq<QuestRunDataItem3DataType>, int),
                    DecodeError,
                >(e),
            },
        decreases count - k,
    {
        let ghost pos_before = r.pos();
        let ghost w_before = warnings@;
        let item = match read_quest_run_data_item_3_data_type(r, warnings) {
            Ok(v) => v,
            Err(e) => {
                proof {
                    lemma_warning_prefix(old(warnings)@, w_before, warnings@);
                }
                return Err(e);
            },
        };
        proof {
            lemma_warning_prefix(old(warnings)@, w_before, warnings@);
        }
        let ghost old_view = vec.deep_view();
        vec.push(item);
        k = k + 1;
        proof {
            match sp_quest_run_data_element(b, pos_before) {
                Ok((head, j)) => {
                    assert(vec.deep_view() =~= old_view.push(head));
                    match sp_quest_run_data_elements(b, j, (count - k) as nat) {
                        Ok((rest, end)) => {
                            assert(old_view + (seq![head] + rest) =~= vec.deep_view() + rest);
                        },
                        Err(_) => {},
                    }
                },
                Err(_) => {
                    assert(false);
                },
            }
        }
    }
    proof {
        assert(vec.deep_view() + Seq::<QuestRunDataItem3DataType>::empty() =~= vec.deep_view());
    }
    Ok(vec)
}

/// Read one quest run-data item.
pub fn read_quest_run_data_item_3(r: &mut SaveFileReader, warnings: &mut Vec<Warning>) -> (res:
    Result<QuestRunDataItem3, DecodeError>)
    requires
        old(r).wf(),
    ensures
        final(r).wf(),
        final(r).bytes() == old(r).bytes(),
        old(warnings)@.is_prefix_of(final(warnings)@),
        match sp_quest_run_data_item(old(r).bytes(), old(r).pos()) {
            Ok((v, j)) => res matches Ok(x) && x.deep_view() == v && final(r).pos() == j,
            Err(e2) => res matches Err(e) && err_matches(e, e2),
        },
{
    let u1 = match r.read_u32() {
        Ok(v) => v,
        Err(e) => {
            return Err(e);
        },
    };
    let u2 = match r.read_f32() {
        Ok(v) => v,
        Err(e) => {
            return Err(e);
        },
    };
    let count = match r.read_u32() {
        Ok(v) => v,
        Err(e) => {
            return Err(e);
        },
    };
    let quest_run_data_item_3_data = match read_quest_run_data_elements(r, count, warnings) {
        Ok(v) => v,
        Err(e) => {
            return Err(e);
        },
    };
    proof {
        assert(quest_run_data_item_3_data@ =~= quest_run_data_item_3_data.deep_view());
    }
    Ok(QuestRunDataItem3 { u1, u2, quest_run_data_item_3_data })
}

/// Read one quest static-data group.
pub fn read_quest_static_data_unknown_0(r: &mut SaveFileReader, warnings: &mut Vec<Warning>) -> (res:
    Result<QuestStaticDataUnknown0, DecodeError>)
    requires
        old(r).wf(),
    ensures
        final(r).wf(),
        final(r).bytes() == old(r).bytes(),
        old(warnings)@.is_prefix_of(final(warnings)@),
        match sp_qsd_unknown0(old(r).bytes(), old(r).pos()) {
            Ok((v, j)) => res matches Ok(x) && x.deep_view() == v && final(r).pos() == j,
            Err(e2) => res matches Err(e) && err_matches(e, e2),
        },
{
    let unk0_0 = match read_ref_id(r) {
        Ok(v) => v,
        Err(e) => {
            return Err(e);
        },
    };
    let count = match read_vsval_to_u32(r, warnings) {
        Ok(v) => v,
        Err(e) => {
            return Err(e);
        },
    };
    let u1 = match read_qsd_unknown1_items(r, count) {
        Ok(v) => v,
        Err(e) => {
            return Err(e);
        },
    };
    Ok(QuestStaticDataUnknown0 { unk0_0, u1 })
}

/// Read `count` quest run-data items.
#[verifier::loop_isolation(false)]
fn read_quest_run_data_list(r: &mut SaveFileReader, count: u32, warnings: &mut Vec<Warning>) -> (res: Result<
    Vec<QuestRunDataItem3>,
    DecodeError,
>)
    requires
        old(r).wf(),
    ensures
        final(r).wf(),
        final(r).bytes() == old(r).bytes(),
        old(warnings)@.is_prefix_of(final(warnings)@),
        match sp_quest_run_data_items(old(r).bytes(), old(r).pos(), count as nat) {
            Ok((v, j)) => res matches Ok(x) && x.deep_view() == v && final(r).pos() == j,
            Err(e2) => res matches Err(e) && err_matches(e, e2),
        },
{
    let ghost b = old(r).bytes();
    let ghost i0 = old(r).pos();
    let mut vec: Vec<QuestRunDataItem3> = Vec::new();
    let mut k: u32 = 0;
    while k < count
        invariant
            r.wf(),
            r.bytes() == b,
            k <= count,
            old(warnings)@.is_prefix_of(warnings@),
            match sp_quest_run_data_items(b, r.pos(), (count - k) as nat) {
                Ok((rest, end)) => sp_quest_run_data_items(b, i0, count as nat) == Ok::<
                    (Seq<QuestRunDataItem3V>, int),
                    DecodeError,
                >((vec.deep_view() + rest, end)),
                Err(e) => sp_quest_run_data_items(b, i0, count as nat) == Err::<
                    (Seq<QuestRunDataItem3V>, int),
                    DecodeError,
                >(e),
            },
        decreases count - k,
    {
        let ghost pos_before = r.pos();
        let ghost w_before = warnings@;
        let item = match read_quest_run_data_item_3(r, warnings) {
            Ok(v) => v,
            Err(e) => {
                proof {
                    lemma_warning_prefix(old(warnings)@, w_before, warnings@);
                }
                return Err(e);
            },
        };
        proof {
            lemma_warning_prefix(old(warnings)@, w_before, warnings@);
        }
        let ghost old_view = vec.deep_view();
        vec.push(item);
        k = k + 1;
        proof {
            match sp_quest_run_data_item(b, pos_before) {
                Ok((head, j)) => {
                    assert(vec.deep_view() =~= old_view.push(head));
                    match sp_quest_run_data_items(b, j, (count - k) as nat) {
                        Ok((rest, end)) => {
                            assert(old_view + (seq![head] + rest) =~= vec.deep_view() + rest);
                        },
                        Err(_) => {},
                    }
                },
                Err(_) => {
                    assert(false);
                },
            }
        }
    }
    proof {
        assert(vec.deep_view() + Seq::<QuestRunDataItem3V>::empty() =~= vec.deep_view());
    }
    Ok(vec)
}

/// Read `count` quest static-data groups.
#[verifier::loop_isolation(false)]
fn read_qsd_unknown0_list(r: &mut SaveFileReader, count: u32, warnings: &mut Vec<Warning>) -> (res: Result<
    Vec<QuestStaticDataUnknown0>,
    DecodeError,
>)
    requires
        old(r).wf(),
    ensures
        final(r).wf(),
        final(r).bytes() == old(r).bytes(),
        old(warnings)@.is_prefix_of(final(warnings)@),
        match sp_qsd_unknown0_items(old(r).bytes(), old(r).pos(), count as nat) {
            Ok((v, j)) => res matches Ok(x) && x.deep_view() == v && final(r).pos() == j,
            Err(e2) => res matches Err(e) && err_matches(e, e2),
        },
{
    let ghost b = old(r).bytes();
    let ghost i0 = old(r).pos();
    let mut vec: Vec<QuestStaticDataUnknown0> = Vec::new();
    let mut k: u32 = 0;
    while k < count
        invariant
            r.wf(),
            r.bytes() == b,
            k <= count,
            old(warnings)@.is_prefix_of(warnings@),
            match sp_qsd_unknown0_items(b, r.pos(), (count - k) as nat) {
                Ok((rest, end)) => sp_qsd_unknown0_items(b, i0, count as nat) == Ok::<
                    (Seq<QuestStaticDataUnknown0V>, int),
                    DecodeError,
                >((vec.deep_view() + rest, end)),
                Err(e) => sp_qsd_unknown0_items(b, i0, count as nat) == Err::<
                    (Seq<QuestStaticDataUnknown0V>, int),
                    DecodeError,
                >(e),
            },
        decreases count - k,
    {
        let ghost pos_before = r.pos();
        let ghost w_before = warnings@;
        let item = match read_quest_static_data_unknown_0(r, warnings) {
            Ok(v) => v,
            Err(e) => {
                proof {
                    lemma_warning_prefix(old(warnings)@, w_before, warnings@);
                }
                return Err(e);
            },
        };
        proof {
            lemma_warning_prefix(old(warnings)@, w_before, warnings@);
        }
        let ghost old_view = vec.deep_view();
        vec.push(item);
        k = k + 1;
        proof {
            match sp_qsd_unknown0(b, pos_before) {
                Ok((head, j)) => {
                    assert(vec.deep_view() =~= old_view.push(head));
                    match sp_qsd_unknown0_items(b, j, (count - k) as nat) {
                        Ok((rest, end)) => {
                            assert(old_view + (seq![head] + rest) =~= vec.deep_view() + rest);
                        },
                        Err(_) => {},
                    }
                },
                Err(_) => {
                    assert(false);
                },
            }
        }
    }
    proof {
        assert(vec.deep_view() + Seq::<QuestStaticDataUnknown0V>::empty() =~= vec.deep_view());
    }
    Ok(vec)
}

/// Read the miscellaneous-statistics record.
pub fn read_misc_stats(r: &mut SaveFileReader, warnings: &mut Vec<Warning>) -> (res: Result<Vec<MiscStats>, DecodeError>)
    requires
        old(r).wf(),
    ensures
        final(r).wf(),
        final(r).bytes() == old(r).bytes(),
        old(warnings)@.is_prefix_of(final(warnings)@),
        match sp_misc_stats(old(r).bytes(), old(r).pos()) {
            Ok((v, j)) => res matches Ok(x) && x.deep_view() == v && final(r).pos() == j,
            Err(e2) => res matches Err(e) && err_matches(e, e2),
        },
{
    proof {
        reveal(sp_misc_stats);
    }
    let count = match r.read_u32() {
        Ok(v) => v,
        Err(e) => {
            return Err(e);
        },
    };
    read_misc_stat_list(r, count, warnings)
}
/// Read the player-location record.
pub fn read_player_location(r: &mut SaveFileReader) -> (res: Result<PlayerLocation, DecodeError>)
    requires
        old(r).wf(),
    ensures
        final(r).wf(),
        final(r).bytes() == old(r).bytes(),
        match sp_player_location(old(r).bytes(), old(r).pos()) {
            Ok((v, j)) => res matches Ok(x) && x.deep_view() == v && final(r).pos() == j,
            Err(e2) => res matches Err(e) && err_matches(e, e2),
        },
{
    proof {
        reveal(sp_player_location);
    }
    let next_object_id = match r.read_u32() {
        Ok(v) => v,
        Err(e) => {
            return Err(e);
        },
    };
    let world_space_1 = match read_ref_id(r) {
        Ok(v) => v,
        Err(e) => {
            return Err(e);
        },
    };
    let coor_x = match r.read_i32() {
        Ok(v) => v,
        Err(e) => {
            return Err(e);
        },
    };
    let coor_y = match r.read_i32() {
        Ok(v) => v,
        Err(e) => {
            return Err(e);
        },
    };
    let world_space_2 = match read_ref_id(r) {
        Ok(v) => v,
        Err(e) => {
            return Err(e);
        },
    };
    let pos_x = match r.read_f32() {
        Ok(v) => v,
        Err(e) => {
            return Err(e);
        },
    };
    let pos_y = match r.read_f32() {
        Ok(v) => v,
        Err(e) => {
            return Err(e);
        },
    };
    let pos_z = match r.read_f32() {
        Ok(v) => v,
        Err(e) => {
            return Err(e);
        },
    };
    let unk: Vec<u8> = Vec::new();
    proof {
        assert(unk@ =~= Seq::<u8>::empty());
    }
    Ok(
        PlayerLocation {
            next_object_id,
            world_space_1,
            coor_x,
            coor_y,
            world_space_2,
            pos_x,
            pos_y,
            pos_z,
            unk,
        },
    )
}
/// Read the TES bookkeeping record.
#[verifier::loop_isolation(false)]
pub fn read_tes(r: &mut SaveFileReader, warnings: &mut Vec<Warning>) -> (res: Result<TES, DecodeError>)
    requires
        old(r).wf(),
    ensures
        final(r).wf(),
        final(r).bytes() == old(r).bytes(),
        old(warnings)@.is_prefix_of(final(warnings)@),
        match sp_tes(old(r).bytes(), old(r).pos()) {
            Ok((v, j)) => res matches Ok(x) && x.deep_view() == v && final(r).pos() == j,
            Err(e2) => res matches Err(e) && err_matches(e, e2),
        },
{
    proof {
        reveal(sp_tes);
    }
    let ghost b = old(r).bytes();
    let n1 = match read_vsval_to_u32(r, warnings) {
        Ok(v) => v,
        Err(e) => {
            return Err(e);
        },
    };
    let u1 = match read_tes_unknown0s(r, n1) {
        Ok(v) => v,
        Err(e) => {
            return Err(e);
        },
    };
    let count2 = match r.read_u32() {
        Ok(v) => v,
        Err(e) => {
            return Err(e);
        },
    };
    let ghost i3 = r.pos();
    let total: u64 = 2 * (count2 as u64);
    let mut u2: Vec<RefIdType> = Vec::new();
    let mut t: u64 = 0;
    while t < total
        invariant
            r.wf(),
            r.bytes() == b,
            t <= total,
            r.pos() == i3 + 3 * t,
            u2@ == Seq::new(
                t as nat,
                |q: int|
                    crate::fundamental_types::spec_form_id(b[i3 + 3 * q], b[i3 + 3 * q + 1]),
            ),
        decreases total - t,
    {
        let v = match read_ref_id(r) {
        Ok(v) => v,
        Err(e) => {
            return Err(e);
        },
    };
        u2.push(v);
        t = t + 1;
        proof {
            assert(u2@ =~= Seq::new(
                t as nat,
                |q: int|
                    crate::fundamental_types::spec_form_id(b[i3 + 3 * q], b[i3 + 3 * q + 1]),
            ));
        }
    }
    proof {
        match sp_ref_ids(b, i3, (2 * count2) as nat) {
            Ok((v, j)) => {
                assert(u2@ =~= v);
            },
            Err(_) => {
                assert(false);
            },
        }
    }
    let n3 = match read_vsval_to_u32(r, warnings) {
        Ok(v) => v,
        Err(e) => {
            return Err(e);
        },
    };
    let u3 = match read_ref_ids_into_vec(r, n3) {
        Ok(v) => v,
        Err(e) => {
            return Err(e);
        },
    };
    Ok(TES { u1, u2, u3 })
}
/// Read the global-variables record.
pub fn read_global_variables(r: &mut SaveFileReader, warnings: &mut Vec<Warning>) -> (res: Result<Vec<GlobalVariable>, DecodeError>)
    requires
        old(r).wf(),
    ensures
        final(r).wf(),
        final(r).bytes() == old(r).bytes(),
        old(warnings)@.is_prefix_of(final(warnings)@),
        match sp_global_variables(old(r).bytes(), old(r).pos()) {
            Ok((v, j)) => res matches Ok(x) && x.deep_view() == v && final(r).pos() == j,
            Err(e2) => res matches Err(e) && err_matches(e, e2),
        },
{
    proof {
        reveal(sp_global_variables);
    }
    let n = match read_vsval_to_u32(r, warnings) {
        Ok(v) => v,
        Err(e) => {
            return Err(e);
        },
    };
    let items = match read_global_variable_items(r, n) {
        Ok(v) => v,
        Err(e) => {
            return Err(e);
        },
    };
    proof {
        assert(items.deep_view() =~= items@);
    }
    Ok(items)
}
/// Read the created-objects record: four counted enchantment tables.
pub fn read_created_objects(r: &mut SaveFileReader, warnings: &mut Vec<Warning>) -> (res: Result<CreatedObjects, DecodeError>)
    requires
        old(r).wf(),
    ensures
        final(r).wf(),
        final(r).bytes() == old(r).bytes(),
        old(warnings)@.is_prefix_of(final(warnings)@),
        match sp_created_objects(old(r).bytes(), old(r).pos()) {
            Ok((v, j)) => res matches Ok(x) && x.deep_view() == v && final(r).pos() == j,
            Err(e2) => res matches Err(e) && err_matches(e, e2),
        },
{
    proof {
        reveal(sp_created_objects);
    }
    let weapon_ench_table_count = match read_vsval_to_u32(r, warnings) {
        Ok(v) => v,
        Err(e) => {
            return Err(e);
        },
    };
    let ghost w_weapon_ench_table = warnings@;
    let weapon_ench_table = match read_enchantments(r, weapon_ench_table_count, warnings) {
        Ok(v) => v,
        Err(e) => {
            proof {
                lemma_warning_prefix(old(warnings)@, w_weapon_ench_table, warnings@);
            }
            return Err(e);
        },
    };
    proof {
        lemma_warning_prefix(old(warnings)@, w_weapon_ench_table, warnings@);
    }
    let armour_ench_table_count = match read_vsval_to_u32(r, warnings) {
        Ok(v) => v,
        Err(e) => {
            return Err(e);
        },
    };
    let ghost w_armour_ench_table = warnings@;
    let armour_ench_table = match read_enchantments(r, armour_ench_table_count, warnings) {
        Ok(v) => v,
        Err(e) => {
            proof {
                lemma_warning_prefix(old(warnings)@, w_armour_ench_table, warnings@);
            }
            return Err(e);
        },
    };
    proof {
        lemma_warning_prefix(old(warnings)@, w_armour_ench_table, warnings@);
    }
    let potion_table_count = match read_vsval_to_u32(r, warnings) {
        Ok(v) => v,
        Err(e) => {
            return Err(e);
        },
    };
    let ghost w_potion_table = warnings@;
    let potion_table = match read_enchantments(r, potion_table_count, warnings) {
        Ok(v) => v,
        Err(e) => {
            proof {
                lemma_warning_prefix(old(warnings)@, w_potion_table, warnings@);
            }
            return Err(e);
        },
    };
    proof {
        lemma_warning_prefix(old(warnings)@, w_potion_table, warnings@);
    }
    let poison_table_count = match read_vsval_to_u32(r, warnings) {
        Ok(v) => v,
        Err(e) => {
            return Err(e);
        },
    };
    let ghost w_poison_table = warnings@;
    let poison_table = match read_enchantments(r, poison_table_count, warnings) {
        Ok(v) => v,
        Err(e) => {
            proof {
                lemma_warning_prefix(old(warnings)@, w_poison_table, warnings@);
            }
            return Err(e);
        },
    };
    proof {
        lemma_warning_prefix(old(warnings)@, w_poison_table, warnings@);
    }
    Ok(CreatedObjects { weapon_ench_table, armour_ench_table, potion_table, poison_table })
}
/// Read the image-space record.
pub fn read_effects(r: &mut SaveFileReader, warnings: &mut Vec<Warning>) -> (res: Result<Effects, DecodeError>)
    requires
        old(r).wf(),
    ensures
        final(r).wf(),
        final(r).bytes() == old(r).bytes(),
        old(warnings)@.is_prefix_of(final(warnings)@),
        match sp_effects(old(r).bytes(), old(r).pos()) {
            Ok((v, j)) => res matches Ok(x) && x.deep_view() == v && final(r).pos() == j,
            Err(e2) => res matches Err(e) && err_matches(e, e2),
        },
{
    proof {
        reveal(sp_effects);
    }
    let n = match read_vsval_to_u32(r, warnings) {
        Ok(v) => v,
        Err(e) => {
            return Err(e);
        },
    };
    let image_space_modifiers = match read_effect_items(r, n) {
        Ok(v) => v,
        Err(e) => {
            return Err(e);
        },
    };
    let unknown1 = match r.read_f32() {
        Ok(v) => v,
        Err(e) => {
            return Err(e);
        },
    };
    let unknown2 = match r.read_f32() {
        Ok(v) => v,
        Err(e) => {
            return Err(e);
        },
    };
    Ok(Effects { image_space_modifiers, unknown1, unknown2 })
}
/// Read the weather record. The two trailing fields are never
/// decoded: the flag byte only marks them present (an empty marker) or
/// absent.
pub fn read_weather(r: &mut SaveFileReader) -> (res: Result<Weather, DecodeError>)
    requires
        old(r).wf(),
    ensures
        final(r).wf(),
        final(r).bytes() == old(r).bytes(),
        match sp_weather(old(r).bytes(), old(r).pos()) {
            Ok((v, j)) => res matches Ok(x) && x.deep_view() == v && final(r).pos() == j,
            Err(e2) => res matches Err(e) && err_matches(e, e2),
        },
{
    proof {
        reveal(sp_weather);
    }
    let climate = match read_ref_id(r) {
        Ok(v) => v,
        Err(e) => {
            return Err(e);
        },
    };
    let weather = match read_ref_id(r) {
        Ok(v) => v,
        Err(e) => {
            return Err(e);
        },
    };
    let prev_weather = match read_ref_id(r) {
        Ok(v) => v,
        Err(e) => {
            return Err(e);
        },
    };
    let unk_weather_1 = match read_ref_id(r) {
        Ok(v) => v,
        Err(e) => {
            return Err(e);
        },
    };
    let unk_weather_2 = match read_ref_id(r) {
        Ok(v) => v,
        Err(e) => {
            return Err(e);
        },
    };
    let regn_weather = match read_ref_id(r) {
        Ok(v) => v,
        Err(e) => {
            return Err(e);
        },
    };
    let cur_time = match r.read_f32() {
        Ok(v) => v,
        Err(e) => {
            return Err(e);
        },
    };
    let beg_time = match r.read_f32() {
        Ok(v) => v,
        Err(e) => {
            return Err(e);
        },
    };
    let weather_pct = match r.read_f32() {
        Ok(v) => v,
        Err(e) => {
            return Err(e);
        },
    };
    let u1 = match r.read_u32() {
        Ok(v) => v,
        Err(e) => {
            return Err(e);
        },
    };
    let u2 = match r.read_u32() {
        Ok(v) => v,
        Err(e) => {
            return Err(e);
        },
    };
    let u3 = match r.read_u32() {
        Ok(v) => v,
        Err(e) => {
            return Err(e);
        },
    };
    let u4 = match r.read_u32() {
        Ok(v) => v,
        Err(e) => {
            return Err(e);
        },
    };
    let u5 = match r.read_u32() {
        Ok(v) => v,
        Err(e) => {
            return Err(e);
        },
    };
    let u6 = match r.read_u32() {
        Ok(v) => v,
        Err(e) => {
            return Err(e);
        },
    };
    let u7 = match r.read_f32() {
        Ok(v) => v,
        Err(e) => {
            return Err(e);
        },
    };
    let u8_val = match r.read_u32() {
        Ok(v) => v,
        Err(e) => {
            return Err(e);
        },
    };
    let flags = match r.read_u8() {
        Ok(v) => v,
        Err(e) => {
            return Err(e);
        },
    };
    let u9: Option<String> = if flags & 0x80 == 0x80 {
        Some(String::new())
    } else {
        None
    };
    let u10: Option<String> = if flags & 0x40 == 0x40 {
        Some(String::new())
    } else {
        None
    };
    Ok(
        Weather {
            climate,
            weather,
            prev_weather,
            unk_weather_1,
            unk_weather_2,
            regn_weather,
            cur_time,
            beg_time,
            weather_pct,
            u1,
            u2,
            u3,
            u4,
            u5,
            u6,
            u7,
            u8_val,
            flags,
            u9,
            u10,
        },
    )
}
/// Read the audio record.
pub fn read_audio(r: &mut SaveFileReader, warnings: &mut Vec<Warning>) -> (res: Result<Audio, DecodeError>)
    requires
        old(r).wf(),
    ensures
        final(r).wf(),
        final(r).bytes() == old(r).bytes(),
        old(warnings)@.is_prefix_of(final(warnings)@),
        match sp_audio(old(r).bytes(), old(r).pos()) {
            Ok((v, j)) => res matches Ok(x) && x.deep_view() == v && final(r).pos() == j,
            Err(e2) => res matches Err(e) && err_matches(e, e2),
        },
{
    proof {
        reveal(sp_audio);
    }
    let unknown = match read_ref_id(r) {
        Ok(v) => v,
        Err(e) => {
            return Err(e);
        },
    };
    let tracks_count = match read_vsval_to_u32(r, warnings) {
        Ok(v) => v,
        Err(e) => {
            return Err(e);
        },
    };
    let tracks = match read_ref_ids_into_vec(r, tracks_count) {
        Ok(v) => v,
        Err(e) => {
            return Err(e);
        },
    };
    let bgm = match read_ref_id(r) {
        Ok(v) => v,
        Err(e) => {
            return Err(e);
        },
    };
    Ok(Audio { unknown, tracks, bgm })
}
/// Read the sky-cells record.
pub fn read_sky_cells(r: &mut SaveFileReader, warnings: &mut Vec<Warning>) -> (res: Result<Vec<SkyCellUnknown0>, DecodeError>)
    requires
        old(r).wf(),
    ensures
        final(r).wf(),
        final(r).bytes() == old(r).bytes(),
        old(warnings)@.is_prefix_of(final(warnings)@),
        match sp_sky_cells(old(r).bytes(), old(r).pos()) {
            Ok((v, j)) => res matches Ok(x) && x.deep_view() == v && final(r).pos() == j,
            Err(e2) => res matches Err(e) && err_matches(e, e2),
        },
{
    proof {
        reveal(sp_sky_cells);
    }
    let count = match read_vsval_to_u32(r, warnings) {
        Ok(v) => v,
        Err(e) => {
            return Err(e);
        },
    };
    let items = match read_sky_cell_items(r, count) {
        Ok(v) => v,
        Err(e) => {
            return Err(e);
        },
    };
    proof {
        assert(items.deep_view() =~= items@);
    }
    Ok(items)
}
/// Read the process-lists record.
pub fn read_process_lists(r: &mut SaveFileReader, warnings: &mut Vec<Warning>) -> (res: Result<ProcessLists, DecodeError>)
    requires
        old(r).wf(),
    ensures
        final(r).wf(),
        final(r).bytes() == old(r).bytes(),
        old(warnings)@.is_prefix_of(final(warnings)@),
        match sp_process_lists(old(r).bytes(), old(r).pos()) {
            Ok((v, j)) => res matches Ok(x) && x.deep_view() == v && final(r).pos() == j,
            Err(e2) => res matches Err(e) && err_matches(e, e2),
        },
{
    proof {
        reveal(sp_process_lists);
    }
    let u1 = match r.read_f32() {
        Ok(v) => v,
        Err(e) => {
            return Err(e);
        },
    };
    let u2 = match r.read_f32() {
        Ok(v) => v,
        Err(e) => {
            return Err(e);
        },
    };
    let u3 = match r.read_f32() {
        Ok(v) => v,
        Err(e) => {
            return Err(e);
        },
    };
    let next_num = match r.read_u32() {
        Ok(v) => v,
        Err(e) => {
            return Err(e);
        },
    };
    let crime_type_count = match read_vsval_to_u32(r, warnings) {
        Ok(v) => v,
        Err(e) => {
            return Err(e);
        },
    };
    let ghost w_all_crimes = warnings@;
    let all_crimes = match read_crime_list(r, crime_type_count, warnings) {
        Ok(v) => v,
        Err(e) => {
            proof {
                lemma_warning_prefix(old(warnings)@, w_all_crimes, warnings@);
            }
            return Err(e);
        },
    };
    proof {
        lemma_warning_prefix(old(warnings)@, w_all_crimes, warnings@);
    }
    Ok(ProcessLists { u1, u2, u3, next_num, all_crimes })
}
/// Read the interface record. The trailing optional group is only
/// present in undetermined situations and is never decoded.
pub fn read_interface(r: &mut SaveFileReader, warnings: &mut Vec<Warning>) -> (res: Result<Interface, DecodeError>)
    requires
        old(r).wf(),
    ensures
        final(r).wf(),
        final(r).bytes() == old(r).bytes(),
        old(warnings)@.is_prefix_of(final(warnings)@),
        match sp_interface(old(r).bytes(), old(r).pos()) {
            Ok((v, j)) => res matches Ok(x) && x.deep_view() == v && final(r).pos() == j,
            Err(e2) => res matches Err(e) && err_matches(e, e2),
        },
{
    proof {
        reveal(sp_interface);
    }
    let shown_help_message_count = match r.read_u32() {
        Ok(v) => v,
        Err(e) => {
            return Err(e);
        },
    };
    let shown_help_msg = match read_u32s_into_vec(r, shown_help_message_count) {
        Ok(v) => v,
        Err(e) => {
            return Err(e);
        },
    };
    let u0 = match r.read_u8() {
        Ok(v) => v,
        Err(e) => {
            return Err(e);
        },
    };
    let last_used_weapons_count = match read_vsval_to_u32(r, warnings) {
        Ok(v) => v,
        Err(e) => {
            return Err(e);
        },
    };
    let last_used_weapons = match read_ref_ids_into_vec(r, last_used_weapons_count) {
        Ok(v) => v,
        Err(e) => {
            return Err(e);
        },
    };
    let last_used_spells_count = match read_vsval_to_u32(r, warnings) {
        Ok(v) => v,
        Err(e) => {
            return Err(e);
        },
    };
    let last_used_spells = match read_ref_ids_into_vec(r, last_used_spells_count) {
        Ok(v) => v,
        Err(e) => {
            return Err(e);
        },
    };
    let last_used_shouts_count = match read_vsval_to_u32(r, warnings) {
        Ok(v) => v,
        Err(e) => {
            return Err(e);
        },
    };
    let last_used_shouts = match read_ref_ids_into_vec(r, last_used_shouts_count) {
        Ok(v) => v,
        Err(e) => {
            return Err(e);
        },
    };
    let u1 = match r.read_u8() {
        Ok(v) => v,
        Err(e) => {
            return Err(e);
        },
    };
    Ok(
        Interface {
            shown_help_msg,
            u0,
            last_used_weapons,
            last_used_spells,
            last_used_shouts,
            u1,
            u2: None,
        },
    )
}
/// Read the actor-causes record.
pub fn read_actor_causes(r: &mut SaveFileReader, warnings: &mut Vec<Warning>) -> (res: Result<ActorCauses, DecodeError>)
    requires
        old(r).wf(),
    ensures
        final(r).wf(),
        final(r).bytes() == old(r).bytes(),
        old(warnings)@.is_prefix_of(final(warnings)@),
        match sp_actor_causes(old(r).bytes(), old(r).pos()) {
            Ok((v, j)) => res matches Ok(x) && x.deep_view() == v && final(r).pos() == j,
            Err(e2) => res matches Err(e) && err_matches(e, e2),
        },
{
    proof {
        reveal(sp_actor_causes);
    }
    let next_num = match r.read_u32() {
        Ok(v) => v,
        Err(e) => {
            return Err(e);
        },
    };
    let count = match read_vsval_to_u32(r, warnings) {
        Ok(v) => v,
        Err(e) => {
            return Err(e);
        },
    };
    let unknown = match read_actor_causes_items(r, count) {
        Ok(v) => v,
        Err(e) => {
            return Err(e);
        },
    };
    Ok(ActorCauses { next_num, unknown })
}
/// Read the detection-manager record.
pub fn read_detection_manager(r: &mut SaveFileReader, warnings: &mut Vec<Warning>) -> (res: Result<Vec<DetectionManagerUnknown0>, DecodeError>)
    requires
        old(r).wf(),
    ensures
        final(r).wf(),
        final(r).bytes() == old(r).bytes(),
        old(warnings)@.is_prefix_of(final(warnings)@),
        match sp_detection_manager(old(r).bytes(), old(r).pos()) {
            Ok((v, j)) => res matches Ok(x) && x.deep_view() == v && final(r).pos() == j,
            Err(e2) => res matches Err(e) && err_matches(e, e2),
        },
{
    proof {
        reveal(sp_detection_manager);
    }
    let count = match read_vsval_to_u32(r, warnings) {
        Ok(v) => v,
        Err(e) => {
            return Err(e);
        },
    };
    let items = match read_detection_items(r, count) {
        Ok(v) => v,
        Err(e) => {
            return Err(e);
        },
    };
    proof {
        assert(items.deep_view() =~= items@);
    }
    Ok(items)
}
/// Read the location-metadata record.
pub fn read_location_meta_data(r: &mut SaveFileReader, warnings: &mut Vec<Warning>) -> (res: Result<Vec<LocationMetaDataUnknown0>, DecodeError>)
    requires
        old(r).wf(),
    ensures
        final(r).wf(),
        final(r).bytes() == old(r).bytes(),
        old(warnings)@.is_prefix_of(final(warnings)@),
        match sp_location_meta_data(old(r).bytes(), old(r).pos()) {
            Ok((v, j)) => res matches Ok(x) && x.deep_view() == v && final(r).pos() == j,
            Err(e2) => res matches Err(e) && err_matches(e, e2),
        },
{
    proof {
        reveal(sp_location_meta_data);
    }
    let count = match read_vsval_to_u32(r, warnings) {
        Ok(v) => v,
        Err(e) => {
            return Err(e);
        },
    };
    let items = match read_location_meta_items(r, count) {
        Ok(v) => v,
        Err(e) => {
            return Err(e);
        },
    };
    proof {
        assert(items.deep_view() =~= items@);
    }
    Ok(items)
}
/// Read the quest static-data record.
pub fn read_quest_static_data(r: &mut SaveFileReader, warnings: &mut Vec<Warning>) -> (res: Result<QuestStaticData, DecodeError>)
    requires
        old(r).wf(),
    ensures
        final(r).wf(),
        final(r).bytes() == old(r).bytes(),
        old(warnings)@.is_prefix_of(final(warnings)@),
        match sp_quest_static_data(old(r).bytes(), old(r).pos()) {
            Ok((v, j)) => res matches Ok(x) && x.deep_view() == v && final(r).pos() == j,
            Err(e2) => res matches Err(e) && err_matches(e, e2),
        },
{
    proof {
        reveal(sp_quest_static_data);
    }
    let count = match r.read_u32() {
        Ok(v) => v,
        Err(e) => {
            return Err(e);
        },
    };
    let ghost w_u0 = warnings@;
    let u0 = match read_quest_run_data_list(r, count, warnings) {
        Ok(v) => v,
        Err(e) => {
            proof {
                lemma_warning_prefix(old(warnings)@, w_u0, warnings@);
            }
            return Err(e);
        },
    };
    proof {
        lemma_warning_prefix(old(warnings)@, w_u0, warnings@);
    }
    let count1 = match r.read_u32() {
        Ok(v) => v,
        Err(e) => {
            return Err(e);
        },
    };
    let ghost w_u1 = warnings@;
    let u1 = match read_quest_run_data_list(r, count1, warnings) {
        Ok(v) => v,
        Err(e) => {
            proof {
                lemma_warning_prefix(old(warnings)@, w_u1, warnings@);
            }
            return Err(e);
        },
    };
    proof {
        lemma_warning_prefix(old(warnings)@, w_u1, warnings@);
    }
    let count2 = match r.read_u32() {
        Ok(v) => v,
        Err(e) => {
            return Err(e);
        },
    };
    let u2 = match read_ref_ids_into_vec(r, count2) {
        Ok(v) => v,
        Err(e) => {
            return Err(e);
        },
    };
    let count3 = match r.read_u32() {
        Ok(v) => v,
        Err(e) => {
            return Err(e);
        },
    };
    let u3 = match read_ref_ids_into_vec(r, count3) {
        Ok(v) => v,
        Err(e) => {
            return Err(e);
        },
    };
    let count4 = match r.read_u32() {
        Ok(v) => v,
        Err(e) => {
            return Err(e);
        },
    };
    let u4 = match read_ref_ids_into_vec(r, count4) {
        Ok(v) => v,
        Err(e) => {
            return Err(e);
        },
    };
    let count5 = match read_vsval_to_u32(r, warnings) {
        Ok(v) => v,
        Err(e) => {
            return Err(e);
        },
    };
    let ghost w_u5 = warnings@;
    let u5 = match read_qsd_unknown0_list(r, count5, warnings) {
        Ok(v) => v,
        Err(e) => {
            proof {
                lemma_warning_prefix(old(warnings)@, w_u5, warnings@);
            }
            return Err(e);
        },
    };
    proof {
        lemma_warning_prefix(old(warnings)@, w_u5, warnings@);
    }
    let u6 = match r.read_u8() {
        Ok(v) => v,
        Err(e) => {
            return Err(e);
        },
    };
    Ok(QuestStaticData { u0, u1, u2, u3, u4, u5, u6 })
}
/// Read the magic-favorites record.
pub fn read_magic_favorites(r: &mut SaveFileReader, warnings: &mut Vec<Warning>) -> (res: Result<MagicFavorites, DecodeError>)
    requires
        old(r).wf(),
    ensures
        final(r).wf(),
        final(r).bytes() == old(r).bytes(),
        old(warnings)@.is_prefix_of(final(warnings)@),
        match sp_magic_favorites(old(r).bytes(), old(r).pos()) {
            Ok((v, j)) => res matches Ok(x) && x.deep_view() == v && final(r).pos() == j,
            Err(e2) => res matches Err(e) && err_matches(e, e2),
        },
{
    proof {
        reveal(sp_magic_favorites);
    }
    let count0 = match read_vsval_to_u32(r, warnings) {
        Ok(v) => v,
        Err(e) => {
            return Err(e);
        },
    };
    let favorited_magics = match read_ref_ids_into_vec(r, count0) {
        Ok(v) => v,
        Err(e) => {
            return Err(e);
        },
    };
    let count1 = match read_vsval_to_u32(r, warnings) {
        Ok(v) => v,
        Err(e) => {
            return Err(e);
        },
    };
    let magic_hot_keys = match read_ref_ids_into_vec(r, count1) {
        Ok(v) => v,
        Err(e) => {
            return Err(e);
        },
    };
    Ok(MagicFavorites { favorited_magics, magic_hot_keys })
}
/// Read the story-event-manager record: the trailing list's layout is
/// unresearched, so only its count is consumed and the list kept empty.
pub fn read_story_event_manager(r: &mut SaveFileReader, warnings: &mut Vec<Warning>) -> (res: Result<StoryEventManager, DecodeError>)
    requires
        old(r).wf(),
    ensures
        final(r).wf(),
        final(r).bytes() == old(r).bytes(),
        old(warnings)@.is_prefix_of(final(warnings)@),
        match sp_story_event_manager(old(r).bytes(), old(r).pos()) {
            Ok((v, j)) => res matches Ok(x) && x.deep_view() == v && final(r).pos() == j,
            Err(e2) => res matches Err(e) && err_matches(e, e2),
        },
{
    proof {
        reveal(sp_story_event_manager);
    }
    let u0 = match r.read_u32() {
        Ok(v) => v,
        Err(e) => {
            return Err(e);
        },
    };
    let _count = match read_vsval_to_u32(r, warnings) {
        Ok(v) => v,
        Err(e) => {
            return Err(e);
        },
    };
    let u1: Vec<u8> = Vec::new();
    proof {
        assert(u1@ =~= Seq::<u8>::empty());
    }
    Ok(StoryEventManager { u0, u1 })
}
/// Read the combined-ingredients record.
pub fn read_ingredients_combined(r: &mut SaveFileReader, warnings: &mut Vec<Warning>) -> (res: Result<Vec<IngredientsCombined>, DecodeError>)
    requires
        old(r).wf(),
    ensures
        final(r).wf(),
        final(r).bytes() == old(r).bytes(),
        old(warnings)@.is_prefix_of(final(warnings)@),
        match sp_ingredients_combined(old(r).bytes(), old(r).pos()) {
            Ok((v, j)) => res matches Ok(x) && x.deep_view() == v && final(r).pos() == j,
            Err(e2) => res matches Err(e) && err_matches(e, e2),
        },
{
    proof {
        reveal(sp_ingredients_combined);
    }
    let count = match r.read_u32() {
        Ok(v) => v,
        Err(e) => {
            return Err(e);
        },
    };
    let items = match read_ingredient_items(r, count) {
        Ok(v) => v,
        Err(e) => {
            return Err(e);
        },
    };
    proof {
        assert(items.deep_view() =~= items@);
    }
    Ok(items)
}
/// Read the animation-objects record.
pub fn read_anim_objects(r: &mut SaveFileReader, warnings: &mut Vec<Warning>) -> (res: Result<Vec<AnimObject>, DecodeError>)
    requires
        old(r).wf(),
    ensures
        final(r).wf(),
        final(r).bytes() == old(r).bytes(),
        old(warnings)@.is_prefix_of(final(warnings)@),
        match sp_anim_objects(old(r).bytes(), old(r).pos()) {
            Ok((v, j)) => res matches Ok(x) && x.deep_view() == v && final(r).pos() == j,
            Err(e2) => res matches Err(e) && err_matches(e, e2),
        },
{
    proof {
        reveal(sp_anim_objects);
    }
    let count = match r.read_u32() {
        Ok(v) => v,
        Err(e) => {
            return Err(e);
        },
    };
    let items = match read_anim_object_items(r, count) {
        Ok(v) => v,
        Err(e) => {
            return Err(e);
        },
    };
    proof {
        assert(items.deep_view() =~= items@);
    }
    Ok(items)
}


/// Decode one record span under the decoder registered for its type tag. An
/// unregistered tag decodes to the terminal empty variant and records a
/// warning; it never aborts the table.

/// Decode one record span for the base table tags.
#[verifier::rlimit(100)]
fn read_global_data_type_base(data_type: u32, data: Vec<u8>, warnings: &mut Vec<Warning>) -> (res: Result<
    GlobalDataType,
    DecodeError,
>)
    requires
        data_type < 100,
    ensures
        old(warnings)@.is_prefix_of(final(warnings)@),
        match sp_dispatch(data_type, data@) {
            Ok(v) => res matches Ok(x) && x.deep_view() == v,
            Err(e2) => res matches Err(e) && err_matches(e, e2),
        },
{
    if data_type == 0 {
        let mut r = SaveFileReader::new(data);
        let v = match read_misc_stats(&mut r, warnings) {
            Ok(v) => v,
            Err(e) => {
                return Err(e);
            },
        };
        Ok(GlobalDataType::MiscStats(v))
    } else if data_type == 1 {
        let mut r = SaveFileReader::new(data);
        let v = match read_player_location(&mut r) {
            Ok(v) => v,
            Err(e) => {
                return Err(e);
            },
        };
        Ok(GlobalDataType::PlayerLocation(v))
    } else if data_type == 2 {
        let mut r = SaveFileReader::new(data);
        let v = match read_tes(&mut r, warnings) {
            Ok(v) => v,
            Err(e) => {
                return Err(e);
            },
        };
        Ok(GlobalDataType::TES(v))
    } else if data_type == 3 {
        let mut r = SaveFileReader::new(data);
        let v = match read_global_variables(&mut r, warnings) {
            Ok(v) => v,
            Err(e) => {
                return Err(e);
            },
        };
        proof {
            assert(v@ =~= v.deep_view());
        }
        Ok(GlobalDataType::GlobalVariables(v))
    } else if data_type == 4 {
        let mut r = SaveFileReader::new(data);
        let v = match read_created_objects(&mut r, warnings) {
            Ok(v) => v,
            Err(e) => {
                return Err(e);
            },
        };
        Ok(GlobalDataType::CreatedObjects(v))
    } else if data_type == 5 {
        let mut r = SaveFileReader::new(data);
        let v = match read_effects(&mut r, warnings) {
            Ok(v) => v,
            Err(e) => {
                return Err(e);
            },
        };
        Ok(GlobalDataType::Effects(v))
    } else if data_type == 6 {
        let mut r = SaveFileReader::new(data);
        let v = match read_weather(&mut r) {
            Ok(v) => v,
            Err(e) => {
                return Err(e);
            },
        };
        Ok(GlobalDataType::Weather(v))
    } else if data_type == 7 {
        let mut r = SaveFileReader::new(data);
        let v = match read_audio(&mut r, warnings) {
            Ok(v) => v,
            Err(e) => {
                return Err(e);
            },
        };
        Ok(GlobalDataType::Audio(v))
    } else if data_type == 8 {
        let mut r = SaveFileReader::new(data);
        let v = match read_sky_cells(&mut r, warnings) {
            Ok(v) => v,
            Err(e) => {
                return Err(e);
            },
        };
        proof {
            assert(v@ =~= v.deep_view());
        }
        Ok(GlobalDataType::SkyCells(v))
    } else {
        warnings.push(Warning::UnknownGlobalDataTag { tag: data_type });
        Ok(GlobalDataType::Main)
    }
}

/// Decode one record span for the subsystem table tags.
#[verifier::rlimit(100)]
fn read_global_data_type_system(data_type: u32, data: Vec<u8>, warnings: &mut Vec<Warning>) -> (res: Result<
    GlobalDataType,
    DecodeError,
>)
    requires
        100 <= data_type < 1000,
    ensures
        old(warnings)@.is_prefix_of(final(warnings)@),
        match sp_dispatch(data_type, data@) {
            Ok(v) => res matches Ok(x) && x.deep_view() == v,
            Err(e2) => res matches Err(e) && err_matches(e, e2),
        },
{
    if data_type == 100 {
        let mut r = SaveFileReader::new(data);
        let v = match read_process_lists(&mut r, warnings) {
            Ok(v) => v,
            Err(e) => {
                return Err(e);
            },
        };
        Ok(GlobalDataType::ProcessLists(v))
    } else if data_type == 101 {
        Ok(GlobalDataType::Combat(data))
    } else if data_type == 102 {
        let mut r = SaveFileReader::new(data);
        let v = match read_interface(&mut r, warnings) {
            Ok(v) => v,
            Err(e) => {
                return Err(e);
            },
        };
        Ok(GlobalDataType::Interface(v))
    } else if data_type == 103 {
        let mut r = SaveFileReader::new(data);
        let v = match read_actor_causes(&mut r, warnings) {
            Ok(v) => v,
            Err(e) => {
                return Err(e);
            },
        };
        Ok(GlobalDataType::ActorCauses(v))
    } else if data_type == 104 {
        Ok(GlobalDataType::Unknown104(data))
    } else if data_type == 105 {
        let mut r = SaveFileReader::new(data);
        let v = match read_detection_manager(&mut r, warnings) {
            Ok(v) => v,
            Err(e) => {
                return Err(e);
            },
        };
        proof {
            assert(v@ =~= v.deep_view());
        }
        Ok(GlobalDataType::DetectionManager(v))
    } else if data_type == 106 {
        let mut r = SaveFileReader::new(data);
        let v = match read_location_meta_data(&mut r, warnings) {
            Ok(v) => v,
            Err(e) => {
                return Err(e);
            },
        };
        proof {
            assert(v@ =~= v.deep_view());
        }
        Ok(GlobalDataType::LocationMetaData(v))
    } else if data_type == 107 {
        let mut r = SaveFileReader::new(data);
        let v = match read_quest_static_data(&mut r, warnings) {
            Ok(v) => v,
            Err(e) => {
                return Err(e);
            },
        };
        Ok(GlobalDataType::QuestStaticData(v))
    } else if data_type == 108 {
        let mut r = SaveFileReader::new(data);
        let v = match r.read_u8() {
            Ok(v) => v,
            Err(e) => {
                return Err(e);
            },
        };
        Ok(GlobalDataType::StoryTeller(v != 0))
    } else if data_type == 109 {
        let mut r = SaveFileReader::new(data);
        let v = match read_magic_favorites(&mut r, warnings) {
            Ok(v) => v,
            Err(e) => {
                return Err(e);
            },
        };
        Ok(GlobalDataType::MagicFavorites(v))
    } else if data_type == 110 {
        let mut r = SaveFileReader::new(data);
        let a = match r.read_u8() {
            Ok(v) => v,
            Err(e) => {
                return Err(e);
            },
        };
        let b = match r.read_u8() {
            Ok(v) => v,
            Err(e) => {
                return Err(e);
            },
        };
        let c = match r.read_u8() {
            Ok(v) => v,
            Err(e) => {
                return Err(e);
            },
        };
        let d = match r.read_u16() {
            Ok(v) => v,
            Err(e) => {
                return Err(e);
            },
        };
        let e5 = match r.read_u8() {
            Ok(v) => v,
            Err(e) => {
                return Err(e);
            },
        };
        Ok(GlobalDataType::PlayerControls(a, b, c, d, e5))
    } else if data_type == 111 {
        let mut r = SaveFileReader::new(data);
        let v = match read_story_event_manager(&mut r, warnings) {
            Ok(v) => v,
            Err(e) => {
                return Err(e);
            },
        };
        Ok(GlobalDataType::StoryEventManager(v))
    } else if data_type == 112 {
        let mut r = SaveFileReader::new(data);
        let v = match read_ingredients_combined(&mut r, warnings) {
            Ok(v) => v,
            Err(e) => {
                return Err(e);
            },
        };
        proof {
            assert(v@ =~= v.deep_view());
        }
        Ok(GlobalDataType::IngredientShared(v))
    } else if data_type == 113 {
        let mut r = SaveFileReader::new(data);
        let a = match r.read_u8() {
            Ok(v) => v,
            Err(e) => {
                return Err(e);
            },
        };
        let b = match r.read_u8() {
            Ok(v) => v,
            Err(e) => {
                return Err(e);
            },
        };
        Ok(GlobalDataType::MenuControls(a, b))
    } else if data_type == 114 {
        let mut r = SaveFileReader::new(data);
        let a = match read_ref_id(&mut r) {
            Ok(v) => v,
            Err(e) => {
                return Err(e);
            },
        };
        let b = match read_ref_id(&mut r) {
            Ok(v) => v,
            Err(e) => {
                return Err(e);
            },
        };
        Ok(GlobalDataType::MenuTopicManager(a, b))
    } else {
        warnings.push(Warning::UnknownGlobalDataTag { tag: data_type });
        Ok(GlobalDataType::Main)
    }
}

/// Decode one record span for the high table tags.
#[verifier::rlimit(100)]
fn read_global_data_type_high(data_type: u32, data: Vec<u8>, warnings: &mut Vec<Warning>) -> (res:
    Result<GlobalDataType, DecodeError>)
    requires
        1000 <= data_type,
    ensures
        old(warnings)@.is_prefix_of(final(warnings)@),
        match sp_dispatch(data_type, data@) {
            Ok(v) => res matches Ok(x) && x.deep_view() == v,
            Err(e2) => res matches Err(e) && err_matches(e, e2),
        },
{
    if data_type == 1000 {
        Ok(GlobalDataType::TempEffects(data))
    } else if data_type == 1001 {
        Ok(GlobalDataType::Papyrus(data))
    } else if data_type == 1002 {
        let mut r = SaveFileReader::new(data);
        let v = match read_anim_objects(&mut r, warnings) {
            Ok(v) => v,
            Err(e) => {
                return Err(e);
            },
        };
        proof {
            assert(v@ =~= v.deep_view());
        }
        Ok(GlobalDataType::AnimObjects(v))
    } else if data_type == 1003 {
        let mut r = SaveFileReader::new(data);
        let a = match r.read_u8() {
            Ok(v) => v,
            Err(e) => {
                return Err(e);
            },
        };
        let b = match r.read_u8() {
            Ok(v) => v,
            Err(e) => {
                return Err(e);
            },
        };
        Ok(GlobalDataType::Timer(a, b))
    } else if data_type == 1004 {
        Ok(GlobalDataType::SynchronizedAnimations(data))
    } else if data_type == 1005 {
        Ok(GlobalDataType::Main)
    } else {
        warnings.push(Warning::UnknownGlobalDataTag { tag: data_type });
        Ok(GlobalDataType::Main)
    }
}


/// Decode one record span under the decoder registered for its type tag. An
/// unregistered tag decodes to the terminal empty variant and records a
/// warning; it never aborts the table.
pub fn read_global_data_type(data_type: u32, data: Vec<u8>, warnings: &mut Vec<Warning>) -> (res:
    Result<GlobalDataType, DecodeError>)
    ensures
        old(warnings)@.is_prefix_of(final(warnings)@),
        match sp_dispatch(data_type, data@) {
            Ok(v) => res matches Ok(x) && x.deep_view() == v,
            Err(e2) => res matches Err(e) && err_matches(e, e2),
        },
{
    if data_type < 100 {
        read_global_data_type_base(data_type, data, warnings)
    } else if data_type < 1000 {
        read_global_data_type_system(data_type, data, warnings)
    } else {
        read_global_data_type_high(data_type, data, warnings)
    }
}

/// Read `count` table entries: each is a 32-bit tag, a 32-bit byte length,
/// and a span of exactly that length handed to the registered decoder.
#[verifier::loop_isolation(false)]
#[verifier::rlimit(100)]
pub(crate) fn read_global_data_long(r: &mut SaveFileReader, count: u64, warnings: &mut Vec<Warning>) -> (res:
    Result<Vec<GlobalDataType>, DecodeError>)
    requires
        old(r).wf(),
    ensures
        final(r).wf(),
        final(r).bytes() == old(r).bytes(),
        old(warnings)@.is_prefix_of(final(warnings)@),
        match sp_global_records(old(r).bytes(), old(r).pos(), count as nat) {
            Ok((v, j)) => res matches Ok(x) && x.deep_view() == v && final(r).pos() == j,
            Err(e2) => res matches Err(e) && err_matches(e, e2),
        },
{
    let ghost b = old(r).bytes();
    let ghost i0 = old(r).pos();
    let mut vec: Vec<GlobalDataType> = Vec::new();
    let mut k: u64 = 0;
    while k < count
        invariant
            r.wf(),
            r.bytes() == b,
            k <= count,
            old(warnings)@.is_prefix_of(warnings@),
            match sp_global_records(b, r.pos(), (count - k) as nat) {
                Ok((rest, end)) => sp_global_records(b, i0, count as nat) == Ok::<
                    (Seq<GlobalDataV>, int),
                    DecodeError,
                >((vec.deep_view() + rest, end)),
                Err(e) => sp_global_records(b, i0, count as nat) == Err::<
                    (Seq<GlobalDataV>, int),
                    DecodeError,
                >(e),
            },
        decreases count - k,
    {
        let ghost pos_before = r.pos();
        let ghost w_before = warnings@;
        let data_type = match r.read_u32() {
            Ok(v) => v,
            Err(e) => {
                return Err(e);
            },
        };
        let length = match r.read_u32() {
            Ok(v) => v,
            Err(e) => {
                return Err(e);
            },
        };
        let data = match r.read_bytes_to_vec(length as usize) {
            Ok(v) => v,
            Err(e) => {
                return Err(e);
            },
        };
        let item = match read_global_data_type(data_type, data, warnings) {
            Ok(v) => v,
            Err(e) => {
                proof {
                    lemma_warning_prefix(old(warnings)@, w_before, warnings@);
                }
                return Err(e);
            },
        };
        proof {
            lemma_warning_prefix(old(warnings)@, w_before, warnings@);
        }
        let ghost old_view = vec.deep_view();
        vec.push(item);
        k = k + 1;
        proof {
            match sp_global_record(b, pos_before) {
                Ok((head, j)) => {
                    assert(vec.deep_view() =~= old_view.push(head));
                    match sp_global_records(b, j, (count - k) as nat) {
                        Ok((rest, end)) => {
                            assert(old_view + (seq![head] + rest) =~= vec.deep_view() + rest);
                        },
                        Err(_) => {},
                    }
                },
                Err(_) => {
                    assert(false);
                },
            }
        }
    }
    proof {
        assert(vec.deep_view() + Seq::<GlobalDataV>::empty() =~= vec.deep_view());
    }
    Ok(vec)
}

/// Read `count` global-data records beginning at the cursor's position.
pub fn read_global_data(r: &mut SaveFileReader, count: u32, warnings: &mut Vec<Warning>) -> (res:
    Result<Vec<GlobalDataType>, DecodeError>)
    requires
        old(r).wf(),
    ensures
        final(r).wf(),
        final(r).bytes() == old(r).bytes(),
        old(warnings)@.is_prefix_of(final(warnings)@),
        match sp_global_records(old(r).bytes(), old(r).pos(), count as nat) {
            Ok((v, j)) => res matches Ok(x) && x.deep_view() == v && final(r).pos() == j,
            Err(e2) => res matches Err(e) && err_matches(e, e2),
        },
{
    read_global_data_long(r, count as u64, warnings)
}


/// One table entry is unaffected by bytes past its end, and on a buffer cut
/// short of its end it fails with an out-of-bounds error rather than reading
/// past the cut. The dispatch itself plays no part: it sees exactly the same
/// span either way.
pub proof fn lemma_global_record_truncated(b: Seq<u8>, i: int, m: int)
    requires
        0 <= i,
        0 <= m <= b.len(),
    ensures
        (sp_global_record(b, i) matches Ok((v, j)) && j <= m) ==> sp_global_record(b.take(m), i)
            == sp_global_record(b, i),
        (sp_global_record(b, i) matches Ok((v, j)) && i <= m < j) ==> (sp_global_record(
            b.take(m),
            i,
        ) matches Err(e) && e matches DecodeError::OutOfBounds { .. }),
        sp_global_record(b, i) matches Ok((v, j)) ==> i + 8 <= j,
{
    match sp_global_record(b, i) {
        Ok((v, j)) => {
            let len = le32(b, i + 4) as int;
            if j <= m {
                assert(b.take(m).subrange(i + 8, i + 8 + len) =~= b.subrange(i + 8, i + 8 + len));
            }
        },
        Err(_) => {},
    }
}

/// A successfully decoded run of table entries never moves the position
/// backwards.
pub proof fn lemma_global_records_advance(b: Seq<u8>, i: int, n: nat)
    ensures
        sp_global_records(b, i, n) matches Ok((v, j)) ==> i <= j,
    decreases n,
{
    if n > 0 {
        match sp_global_record(b, i) {
            Ok((h, j1)) => {
                lemma_global_records_advance(b, j1, (n - 1) as nat);
            },
            Err(_) => {},
        }
    }
}

/// Law (bounds safety): when a run of global-data table entries decodes
/// successfully, cutting the buffer anywhere before the end of that run makes
/// the decode fail with an out-of-bounds error — never a read past the cut —
/// and cutting at or after its end does not disturb it.
pub proof fn lemma_global_records_truncated(b: Seq<u8>, i: int, m: int, n: nat)
    requires
        0 <= i,
        0 <= m <= b.len(),
    ensures
        (sp_global_records(b, i, n) matches Ok((v, j)) && j <= m) ==> sp_global_records(
            b.take(m),
            i,
            n,
        ) == sp_global_records(b, i, n),
        (sp_global_records(b, i, n) matches Ok((v, j)) && i <= m < j) ==> (sp_global_records(
            b.take(m),
            i,
            n,
        ) matches Err(e) && e matches DecodeError::OutOfBounds { .. }),
    decreases n,
{
    if n > 0 {
        match sp_global_records(b, i, n) {
            Err(_) => {},
            Ok((v, j)) => {
                match sp_global_record(b, i) {
                    Ok((head, j1)) => {
                        lemma_global_record_truncated(b, i, m);
                        lemma_global_records_advance(b, j1, (n - 1) as nat);
                        if m < j1 {
                            if i <= m {
                                assert(sp_global_records(b.take(m), i, n) matches Err(e) && e
                                    matches DecodeError::OutOfBounds { .. });
                            }
                        } else {
                            assert(sp_global_record(b.take(m), i) == sp_global_record(b, i));
                            lemma_global_records_truncated(b, j1, m, (n - 1) as nat);
                            match sp_global_records(b, j1, (n - 1) as nat) {
                                Ok((rest, jr)) => {
                                    if jr <= m {
                                        assert(sp_global_records(b.take(m), i, n)
                                            == sp_global_records(b, i, n));
                                    }
                                },
                                Err(_) => {},
                            }
                        }
                    },
                    Err(_) => {},
                }
            },
        }
    }
}

} // verus!
