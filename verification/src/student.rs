//! What a student is built from: the chosen levels and gear, and the per-student data.
use crate::base::BaseStats;
use crate::gear::GearKind;
use crate::ratio::Ratio;
use crate::stat::{StatKind, StatValueKind};
use crate::terrains::{Terrain, TerrainCombatPowerState};
use crate::uid::Uid;
use vstd::prelude::*;

verus! {

/// The choices a party makes for one student.
#[derive(Debug, Clone, PartialEq, Eq, Hash)]
pub struct StudentSpec {
    pub uid: Uid,
    pub name: String,
    pub level: u8,
    pub star: u8,
    pub weapon_star: u8,
    /// Levels of the Ex, Basic, Enhanced and Sub skills, in that order.
    pub skill_levels: [u8; 4],
    pub weapon_level: u8,
    pub bond_level: u8,
    /// Bond levels of the student's alternate versions.
    pub alter_bond_levels: Vec<u8>,
    pub gear_kinds: [GearKind; 3],
    pub gear_tiers: [u8; 3],
    pub gear_levels: [u8; 3],
    /// Max HP, ATK and Healing talent levels, in that order.
    pub talent_levels: [u8; 3],
    pub unique_item_level: Option<u8>,
}

/// A built student: the choices and the stats they give. Two of them are the same student
/// when their uids match.
#[derive(Debug, Clone)]
pub struct StudentStats {
    pub student_stats: StudentSpec,
    pub base_stats: BaseStats,
}

impl PartialEq for StudentStats {
    fn eq(&self, other: &Self) -> (r: bool) {
        self.student_stats.uid == other.student_stats.uid
    }
}

impl vstd::std_specs::cmp::PartialEqSpecImpl for StudentStats {
    open spec fn obeys_eq_spec() -> bool {
        true
    }

    open spec fn eq_spec(&self, other: &Self) -> bool {
        self.student_stats.uid == other.student_stats.uid
    }
}

/// Level 1 and level 90 values of a stat at each star tier.
#[derive(Debug, Clone, Copy, PartialEq, Eq, Hash)]
pub struct StarValue<T> {
    pub lvl1: [T; 5],
    pub lvl90: [T; 5],
}

#[derive(Debug, Clone, Copy, PartialEq, Eq, Hash)]
pub struct StarCurves {
    pub hp: StarValue<u64>,
    pub atk: StarValue<u32>,
    pub def: StarValue<u32>,
    pub healing: StarValue<u32>,
}

/// The four stats that grow with level.
#[derive(Debug, Clone, Copy, PartialEq, Eq, Hash, Structural)]
pub struct LevelStats {
    pub hp: u64,
    pub atk: u32,
    pub def: u32,
    pub healing: u32,
}

/// The stat that weapon star 2 adds, by enhanced skill level.
#[derive(Debug, Clone, PartialEq, Eq, Hash)]
pub struct EnhancedSkillPlus {
    pub stat: StatKind,
    pub kind: StatValueKind,
    pub curve: [Ratio; 10],
}

#[derive(Debug, Clone, Copy, PartialEq, Eq, Hash, Structural)]
pub enum UniqueWeapon4StarOption {
    /// Maximum cost up by 0.5.
    MaxCostUp,
    ExplosiveEffectiveness,
    PiercingEffectiveness,
    CorrosiveEffectiveness,
    MysticEffectiveness,
    SonicEffectiveness,
}

/// The student's unique weapon.
#[derive(Debug)]
pub struct UniqueWeapon {
    /// Values at levels 1, 30, 40, 50 and 60, the caps of each star tier.
    pub hp: [u32; 5],
    /// Values at levels 1, 30, 40, 50 and 60, the caps of each star tier.
    pub atk: [u32; 5],
    pub star2_option: EnhancedSkillPlus,
    /// Terrain adaptation raised at weapon star 3, and the grade it reaches.
    pub star3_option: (Terrain, TerrainCombatPowerState),
    pub star4_option: UniqueWeapon4StarOption,
}

impl UniqueWeapon {
    pub const MAX_STAR: u8 = 4;
}

} // verus!
