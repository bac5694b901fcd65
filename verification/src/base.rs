//! The stats every character carries.
use crate::types::{ArmorType, AttackType};
use vstd::prelude::*;

verus! {

/// Stats shared by students and bosses. Rates are per ten thousand unless noted.
#[derive(Debug, Clone, Copy, PartialEq, Eq, Hash, Default)]
pub struct BaseStats {
    /// Students' files leave this at 0: the level is chosen when a party is formed.
    pub level: u8,
    pub hp: u64,
    pub atk: u32,
    pub def: u32,
    pub healing: u32,
    pub accuracy: u16,
    pub evasion: u16,
    pub crit: u16,
    pub crit_res: i32,
    pub crit_dmg: u32,
    pub crit_dmg_res: u32,
    pub stability: u16,
    pub stability_rate: u16,
    pub normal_attack_range: u16,
    pub sighting_range: u16,
    /// Percent.
    pub cc_power: u16,
    /// Percent.
    pub cc_res: u16,
    pub recovery_boost: u32,
    pub cost_recovery: u16,
    pub atk_speed: u32,
    pub mov_speed: u16,
    pub block_rate_bonus: i16,
    pub defense_piercing: u16,
    pub mag_count: u8,
    pub dmg_dealt: u32,
    pub dmg_resist: u16,
    pub ex_skill_dmg_dealt: u32,
    pub ex_skill_dmg_resist: u32,
    pub basics_proficiency: u32,
    pub healing_boost: u32,
    pub attack_type: AttackType,
    pub armor_type: ArmorType,
    pub explosive_effectiveness: u32,
    pub piercing_effectiveness: u32,
    pub corrosive_effectiveness: u32,
    pub mystic_effectiveness: u32,
    pub sonic_effectiveness: u32,
    pub buff_retention: u32,
    pub debuff_retention: u32,
}

} // verus!
