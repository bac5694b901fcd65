//! Per-character state that a skill keeps between uses.
use vstd::prelude::*;

verus! {

#[derive(Debug, Clone, Copy, Default, PartialEq, Eq, Hash, Structural)]
pub struct KeiState {
    /// Damage stored by the sub skill.
    pub acc_damage: u64,
    /// Length of the damage record where storing last began.
    pub recording_start_len: usize,
}

#[derive(Debug, Clone, Copy, Default, PartialEq, Eq, Hash, Structural)]
pub struct SubSkillState {
    /// Damage stored by the sub skill.
    pub acc_damage: u64,
    /// Length of the damage record where storing last began.
    pub recording_start_len: usize,
}

#[derive(Debug, Clone, Copy, Default, PartialEq, Eq, Hash, Structural)]
pub struct GozState {}

/// Minions are tracked as counters rather than a list of entities, and an all-zero state is
/// the start of a fight.
#[derive(Debug, Clone, Copy, PartialEq, Eq, Default, Hash, Structural)]
pub struct PerorodzillaState {
    /// Expected damage the minions have taken since the wave was summoned.
    pub minion_damage: u64,
    /// Maximum hp of one big minion. `0` skips knockdown detection.
    pub big_minion_hp: u64,
    /// Length of the boss's damage record when the wave was summoned.
    pub damage_record_start: usize,
    pub big_minions: u8,
    pub shiny_minions: u8,
    pub knocked_down: u8,
    pub small_minions: u8,
    /// The denominator is 7, 10 or 12 depending on difficulty.
    pub groggy_numerator: u8,
    /// Hyper Spiral Glare Beam fires at 100.
    pub atg_percent: u16,
}

} // verus!
