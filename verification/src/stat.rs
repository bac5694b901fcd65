//! The stats a character has, and how an increase to one is given.
use vstd::prelude::*;

verus! {

#[derive(Debug, Clone, Copy, PartialEq, Eq, Hash, Structural)]
pub enum StatKind {
    Hp,
    Atk,
    Def,
    Healing,
    Accuracy,
    Evasion,
    Crit,
    CritRes,
    CritDmg,
    CritDmgRes,
    Stability,
    StabilityRate,
    NormalAttackRange,
    SightingRange,
    CcPower,
    CcRes,
    RecoveryBoost,
    CostRecovery,
    AtkSpeed,
    MovSpeed,
    BlockRateBonus,
    DefensePiercing,
    MagCount,
    DmgDealt,
    DmgResist,
    ExSkillDmgDealt,
    ExSkillDmgResist,
    BasicsProficiency,
    HealingBoost,
    ExplosiveEffectiveness,
    PiercingEffectiveness,
    CorrosiveEffectiveness,
    MysticEffectiveness,
    SonicEffectiveness,
    BuffRetention,
    DebuffRetention,
}

/// Whether an increase is a flat amount or a rate.
#[derive(Debug, PartialEq, Eq, Clone, Copy, Hash, Structural)]
pub enum StatValueKind {
    Amount,
    Scale,
}

} // verus!
