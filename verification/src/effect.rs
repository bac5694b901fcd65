//! What a skill does to its targets.
use vstd::prelude::*;

verus! {

#[derive(Debug, Clone, Copy, PartialEq, Eq, Hash, Structural)]
pub enum CCEffect {
    Stun,
    Fear,
    Taunt,
    Confusion,
}

#[derive(Debug, Clone, Copy, PartialEq, Eq, Hash, Structural)]
pub enum EffectTiming {
    Instant,
    Persistent { interval_frames: u16, duration_frames: u16 },
}

/// The body of an `Effect::Other`, kept as the address of its function. Two distinct sources
/// that compile to the same machine code merge into one address; functions that behave
/// identically are identical for this purpose.
#[derive(Debug, Clone, Copy, PartialEq, Eq, Hash, Structural)]
pub struct EffectKindOther(pub usize);

/// Marks the kind of an applied skill or status effect.
#[allow(inconsistent_fields)]
#[derive(Debug, Clone, Copy, PartialEq, Eq, Hash, Structural)]
pub enum Effect {
    Damage { coef_num: u16, coef_den: u16 },
    Heal { coef_num: u16, coef_den: u16 },
    Buff { ty: BuffKind, scale: u16, amount: u32 },
    Debuff { ty: DebuffKind, scale: u16, amount: u32 },
    Move,
    CC { ty: CCEffect },
    Other(EffectKindOther),
}

impl Effect {
    pub fn is_other(&self) -> (r: bool)
        ensures
            r == (*self is Other),
    {
        match self {
            Effect::Other(_) => true,
            _ => false,
        }
    }
}

#[derive(Debug, Clone, Copy, PartialEq, Eq, Hash, Structural)]
pub enum DebuffKind {
    Accuracy,
    Atk,
    AtkSpeed,
    Burn,
    PassionateCheering,
    Chill,
    ChillDmgTaken,
    FocusedAssault,
    CritRes,
    CritDmgRes,
    Crit,
    WeaknessDetection,
    Def,
    Evasion,
    Shock,
    RecoveryBoost,
    MovSpeed,
    CcRes,
    Poison,
    WeaknessDmgTaken,
}

#[derive(Debug, Clone, Copy, PartialEq, Eq, Hash, Structural)]
pub enum BuffKind {
    Accuracy,
    Atk,
    AtkSpeed,
    ExSkillCost,
    CritRes,
    CritDmg,
    CritDmgRes,
    Crit,
    Def,
    Evasion,
    HpRegen,
    BasicsProficiency,
    ExSkillDmgDealt,
    ExplosiveEffectiveness,
    PiercingEffectiveness,
    MysticEffectiveness,
    SonicEffectiveness,
    RecoveryBoost,
    Healing,
    MaxHp,
    MovSpeed,
    CcPower,
    CcRes,
    CostRecovery,
    Barrier,
    DmgDealt,
    NormalAttackRange,
}

/// An effect still running on a character.
#[derive(Debug, Clone, Copy, PartialEq, Eq, Hash, Structural)]
pub struct RemainedEffects {
    /// Ticks left until the effect ends.
    pub ticks: u16,
    pub effect: Effect,
    pub source: u8,
}

/// A damage effect of `percent` percent of attack.
pub fn damage_effect(percent: u16) -> (r: Effect)
    ensures
        r == (Effect::Damage { coef_num: percent, coef_den: 100 }),
{
    Effect::Damage { coef_num: percent, coef_den: 100 }
}

} // verus!
