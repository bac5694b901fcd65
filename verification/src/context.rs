//! What a skill sees while it is applied: the caster's and the targets' stats and effects.
use crate::base::BaseStats;
use crate::effect::{BuffKind, Effect};
use crate::skill::SkillType;
use vstd::prelude::*;

verus! {

/// The attack scale the effects give, in percent: 100 times the scale of every attack buff.
pub open spec fn atk_scale(effects: Seq<Effect>) -> int
    decreases effects.len(),
{
    if effects.len() == 0 {
        100
    } else {
        atk_scale(effects.drop_last()) * match effects.last() {
            Effect::Buff { ty: BuffKind::Atk, scale, .. } => scale as int,
            _ => 1,
        }
    }
}

/// The attack the effects add: the sum of the amounts of every attack buff.
pub open spec fn atk_inc(effects: Seq<Effect>) -> int
    decreases effects.len(),
{
    if effects.len() == 0 {
        0
    } else {
        atk_inc(effects.drop_last()) + match effects.last() {
            Effect::Buff { ty: BuffKind::Atk, amount, .. } => amount as int,
            _ => 0,
        }
    }
}

/// Attack under `effects`: the base and the added attack, times the scale.
pub open spec fn spec_buffed_atk(atk: u32, effects: Seq<Effect>) -> int {
    (atk + atk_inc(effects)) * atk_scale(effects)
}

/// Working through `effects` one by one, the scale stays a `u16`, the added attack a `u32`,
/// and so does the attack in the end.
pub open spec fn atk_fits(atk: u32, effects: Seq<Effect>) -> bool {
    &&& forall|k: int|
        0 <= k <= effects.len() ==> 0 <= #[trigger] atk_scale(effects.take(k)) <= u16::MAX
            && atk_inc(effects.take(k)) <= u32::MAX
    &&& atk + atk_inc(effects) <= u32::MAX
    &&& spec_buffed_atk(atk, effects) <= u32::MAX
}

/// Attack of a character with base attack `atk` under `effects`.
pub fn buffed_atk(atk: u32, effects: &[Effect]) -> (r: u32)
    requires
        atk_fits(atk, effects@),
    ensures
        r == spec_buffed_atk(atk, effects@),
{
    let mut scale: u16 = 100;
    let mut inc: u32 = 0;
    let mut i: usize = 0;
    proof {
        assert(effects@.take(0) =~= Seq::<Effect>::empty());
    }
    while i < effects.len()
        invariant
            i <= effects@.len(),
            atk_fits(atk, effects@),
            scale == atk_scale(effects@.take(i as int)),
            inc == atk_inc(effects@.take(i as int)),
        decreases effects.len() - i,
    {
        let ghost prefix = effects@.take(i + 1);
        assert(prefix.drop_last() =~= effects@.take(i as int));
        assert(prefix.last() == effects@[i as int]);
        assert(0 <= atk_scale(prefix) <= u16::MAX && atk_inc(prefix) <= u32::MAX);
        match effects[i] {
            Effect::Buff { ty: BuffKind::Atk, scale: s, amount: a } => {
                scale = scale * s;
                inc = inc + a;
            },
            _ => {},
        }
        i = i + 1;
    }
    assert(effects@.take(i as int) =~= effects@);
    assert(0 <= atk_scale(effects@));
    assert((atk + inc) * (scale as u32) <= u32::MAX);
    (atk + inc) * (scale as u32)
}

/// The caster of a skill being applied.
pub struct CasterContext {
    pub stats: BaseStats,
    pub effects: Vec<Effect>,
    pub skill_type: SkillType,
}

/// A target of a skill being applied.
pub struct TargetContext {
    pub stats: BaseStats,
    pub effects: Vec<Effect>,
}

/// A skill being applied: its name, its caster and its targets.
pub struct SkillContext {
    pub name: String,
    pub caster: CasterContext,
    pub targets: Vec<TargetContext>,
}

impl CasterContext {
    /// Attack under the caster's effects.
    pub fn atk(&self) -> (r: u32)
        requires
            atk_fits(self.stats.atk, self.effects@),
        ensures
            r == spec_buffed_atk(self.stats.atk, self.effects@),
    {
        buffed_atk(self.stats.atk, self.effects.as_slice())
    }

    pub fn hp(&self) -> (r: u64)
        ensures
            r == self.stats.hp,
    {
        self.stats.hp
    }

    /// Takes `amount` off the hp, down to 0.
    pub fn decrease_hp(&mut self, amount: u64)
        ensures
            final(self).stats.hp == if old(self).stats.hp > amount {
                (old(self).stats.hp - amount) as u64
            } else {
                0
            },
            final(self).stats == (BaseStats { hp: final(self).stats.hp, ..old(self).stats }),
            final(self).effects@ == old(self).effects@,
            final(self).skill_type == old(self).skill_type,
    {
        self.stats.hp = self.stats.hp.saturating_sub(amount);
    }
}

impl TargetContext {
    /// Attack under the target's effects.
    pub fn atk(&self) -> (r: u32)
        requires
            atk_fits(self.stats.atk, self.effects@),
        ensures
            r == spec_buffed_atk(self.stats.atk, self.effects@),
    {
        buffed_atk(self.stats.atk, self.effects.as_slice())
    }

    pub fn hp(&self) -> (r: u64)
        ensures
            r == self.stats.hp,
    {
        self.stats.hp
    }

    /// Leaves the target as it is: a target's hp is not lowered through its context.
    pub fn decrease_hp(&mut self, amount: u64)
        ensures
            final(self).stats == old(self).stats,
            final(self).effects@ == old(self).effects@,
    {
    }
}

} // verus!
