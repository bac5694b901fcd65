//! Kei's skills: a basic hit keyed by the applied skills, and a sub skill that stores a share
//! of the damage dealt and releases it later.
use crate::damage::{expected_value_defined, spec_expected_value, Damage, DamageMap, Uniform};
use crate::effect::{Effect, RemainedEffects};
use crate::key::{bit, SkillsBitMask};
use crate::skill::SkillParams;
use crate::states::KeiState;
use vstd::prelude::*;

verus! {

/// Coefficients are all percentages, so the denominator is fixed.
pub const PERCENT_DEN: u16 = 100;

/// The stored damage is capped at this percentage of Kei's attack.
pub const ACC_DAMAGE_CAP_PERCENT: u16 = 5000;

/// The numbers of Kei's ex skill, with the area of the amplifier, of whatever shape `R` gives
/// an area.
#[derive(Debug, Clone, Copy)]
pub struct ExParams<R> {
    pub cost: u8,
    pub duration: u16,
    pub frames: u16,
    pub region: R,
    /// Allies buffed besides Kei.
    pub ally_count: u8,
    pub atk_buff_scale: u16,
    pub effective_buff_scale: u16,
}

#[derive(Debug, Clone, Copy)]
pub struct BasicParams {
    pub frames: u16,
    pub coef_percent: u16,
}

#[derive(Debug, Clone, Copy)]
pub struct SubParams {
    pub duration: u16,
}

impl<R> SkillParams for ExParams<R> {
    fn cost(&self) -> (r: u8)
        ensures
            r == self.cost,
    {
        self.cost
    }

    fn duration(&self) -> (r: u16)
        ensures
            r == self.duration,
    {
        self.duration
    }

    fn frames(&self) -> (r: u16)
        ensures
            r == self.frames,
    {
        self.frames
    }
}

impl SkillParams for BasicParams {
    fn frames(&self) -> (r: u16)
        ensures
            r == self.frames,
    {
        self.frames
    }
}

impl SkillParams for SubParams {
    fn duration(&self) -> (r: u16)
        ensures
            r == self.duration,
    {
        self.duration
    }
}

/// Installs an amplifier that raises the attack and mystic effectiveness of allies in range.
#[derive(Debug)]
pub struct KeiExSkill;

/// Hits one enemy when the amplifier stops.
#[derive(Debug)]
pub struct KeiBasicSkill;

/// Stores a share of the damage allies deal while the amplifier runs, then releases it.
#[derive(Debug)]
pub struct KeiSubSkill;

/// The expected damage of the records in `from..to`, empty ones counting 0.
pub open spec fn stored_sum(records: Seq<Option<Damage>>, from: int, to: int) -> int
    decreases to - from,
{
    if from >= to {
        0
    } else {
        stored_sum(records, from, to - 1) + match records[to - 1] {
            Some(d) => spec_expected_value(d),
            None => 0,
        }
    }
}

/// Every record can have its expected value taken.
pub open spec fn records_defined(records: Seq<Option<Damage>>) -> bool {
    forall|i: int|
        0 <= i < records.len() ==> (#[trigger] records[i] matches Some(d) ==> expected_value_defined(
            d,
        ))
}

pub(crate) proof fn lemma_stored_sum_grows(records: Seq<Option<Damage>>, from: int, to: int)
    requires
        records_defined(records),
        0 <= from,
        to <= records.len(),
    ensures
        stored_sum(records, from, to) >= 0,
        from < to ==> stored_sum(records, from, to - 1) <= stored_sum(records, from, to),
    decreases to - from,
{
    if from < to {
        lemma_stored_sum_grows(records, from, to - 1);
        assert(records[to - 1] matches Some(d) ==> expected_value_defined(d));
        if let Some(d) = records[to - 1] {
            assert(spec_expected_value(d) >= 0) by (nonlinear_arith)
                requires
                    d.crit_den > 0,
                    d.crit_num <= d.crit_den,
                    spec_expected_value(d) == ((d.normal.max + d.normal.min) / 2 * (d.crit_den
                        - d.crit_num) + (d.crit.max + d.crit.min) / 2 * d.crit_num) / (
                    d.crit_den as int),
            ;
        }
    }
}

impl KeiSubSkill {
    /// Adds the expected damage of the boss's records since the last call to the store, and
    /// marks where the next call begins.
    pub fn effect_apply(state: &mut KeiState, boss_records: &[Option<Damage>])
        requires
            records_defined(boss_records@),
            old(state).acc_damage + stored_sum(
                boss_records@,
                old(state).recording_start_len as int,
                boss_records@.len() as int,
            ) <= u64::MAX,
        ensures
            final(state).acc_damage == old(state).acc_damage + stored_sum(
                boss_records@,
                old(state).recording_start_len as int,
                boss_records@.len() as int,
            ),
            final(state).recording_start_len == boss_records@.len(),
    {
        let len = boss_records.len();
        let prior_idx = state.recording_start_len;
        let mut acc: u64 = 0;
        let mut i = prior_idx;
        proof {
            if prior_idx <= len {
                lemma_stored_sum_grows(boss_records@, prior_idx as int, len as int);
            }
        }
        if prior_idx > len {
            i = len;
        }
        while i < len
            invariant
                i <= len,
                prior_idx > len ==> i == len,
                len == boss_records@.len(),
                records_defined(boss_records@),
                prior_idx <= len ==> acc == stored_sum(boss_records@, prior_idx as int, i as int),
                prior_idx > len ==> acc == 0,
                prior_idx <= len ==> prior_idx <= i,
                state.acc_damage + stored_sum(boss_records@, prior_idx as int, len as int)
                    <= u64::MAX,
            decreases len - i,
        {
            proof {
                lemma_stored_sum_mono(boss_records@, prior_idx as int, i + 1, len as int);
                lemma_stored_sum_grows(boss_records@, prior_idx as int, i + 1);
            }
            if let Some(d) = boss_records[i] {
                assert(expected_value_defined(boss_records@[i as int]->0));
                acc = acc + d.expected_value();
            }
            i = i + 1;
        }
        if prior_idx > len {
            assert(stored_sum(boss_records@, prior_idx as int, len as int) == 0);
        }
        state.acc_damage = state.acc_damage + acc;
        state.recording_start_len = len;
    }

    /// Releases the store, capped at 5000% of `atk`, as a hit that is never critical; the store
    /// empties.
    pub fn apply(state: &mut KeiState, atk: u32) -> (r: Damage)
        ensures
            ({
                let cap = atk * 5000 / 100;
                let v = if old(state).acc_damage < cap {
                    old(state).acc_damage as int
                } else {
                    cap
                };
                r == (Damage {
                    normal: Uniform { min: v as u64, max: v as u64 },
                    crit: Uniform { min: v as u64, max: v as u64 },
                    crit_num: 0,
                    crit_den: 1,
                })
            }),
            final(state).acc_damage == 0,
            final(state).recording_start_len == old(state).recording_start_len,
    {
        let cap = atk as u64 * ACC_DAMAGE_CAP_PERCENT as u64 / PERCENT_DEN as u64;
        let acc_damage = if state.acc_damage < cap {
            state.acc_damage
        } else {
            cap
        };
        let damage = Damage::new(acc_damage, acc_damage, acc_damage, acc_damage, 0, 1);
        state.acc_damage = 0;
        damage
    }
}

/// A character's applied skills and the effects running on it.
pub struct Marked {
    pub effects: SkillsBitMask,
    pub remained: Vec<RemainedEffects>,
}

/// The character after the amplifier's buff is started on it once: when the skill's bit is
/// not yet set, the buff runs for `duration` ticks and the bit is set; when it is, nothing
/// changes.
pub open spec fn marked_once(
    effects: u64,
    remained: Seq<RemainedEffects>,
    offset: u64,
    duration: u16,
    effect: Effect,
) -> (u64, Seq<RemainedEffects>) {
    if bit(effects, offset) {
        (effects, remained)
    } else {
        (
            effects | (1u64 << offset),
            remained.push(RemainedEffects { ticks: duration, effect, source: offset as u8 }),
        )
    }
}

/// Starts the buff on one character, once.
pub fn apply_once(target: &mut Marked, offset: u32, duration: u16, effect: Effect)
    requires
        offset < 64,
    ensures
        (final(target).effects.0, final(target).remained@) == marked_once(
            old(target).effects.0,
            old(target).remained@,
            offset as u64,
            duration,
            effect,
        ),
{
    let v = target.effects.0;
    let o = offset as u64;
    assert(((v & (1u64 << o)) != 0) == ((v >> o) & 1u64 == 1u64)) by (bit_vector)
        requires
            o < 64,
    ;
    if (target.effects.0 & (1u64 << offset)) != 0 {
        return;
    }
    target.remained.push(RemainedEffects { ticks: duration, effect, source: offset as u8 });
    target.effects = SkillsBitMask(target.effects.0 | (1u64 << offset));
}

/// Starting the buff a second time changes nothing: the first start set the skill's bit.
pub proof fn lemma_apply_once_idempotent(
    effects: u64,
    remained: Seq<RemainedEffects>,
    offset: u64,
    duration: u16,
    effect: Effect,
)
    requires
        offset < 64,
    ensures
        ({
            let once = marked_once(effects, remained, offset, duration, effect);
            marked_once(once.0, once.1, offset, duration, effect) == once
        }),
{
    assert(bit(effects | (1u64 << offset), offset)) by (bit_vector)
        requires
            offset < 64,
    ;
}

impl KeiExSkill {
    /// Starts the amplifier's buff, once each, on the targets standing inside its area and on
    /// Kei. Which targets stand inside is geometry, given as `inside`.
    pub fn apply(
        caster: &mut Marked,
        targets: &mut Vec<Marked>,
        inside: &[bool],
        skill_mask_offset: u32,
        duration: u16,
        effect: Effect,
    )
        requires
            skill_mask_offset < 64,
            inside@.len() == old(targets)@.len(),
        ensures
            final(targets)@.len() == old(targets)@.len(),
            forall|i: int|
                0 <= i < inside@.len() ==> (
                #[trigger] final(targets)@[i]).effects.0 == (if inside@[i] {
                    marked_once(
                        old(targets)@[i].effects.0,
                        old(targets)@[i].remained@,
                        skill_mask_offset as u64,
                        duration,
                        effect,
                    ).0
                } else {
                    old(targets)@[i].effects.0
                }) && final(targets)@[i].remained@ == (if inside@[i] {
                    marked_once(
                        old(targets)@[i].effects.0,
                        old(targets)@[i].remained@,
                        skill_mask_offset as u64,
                        duration,
                        effect,
                    ).1
                } else {
                    old(targets)@[i].remained@
                }),
            (final(caster).effects.0, final(caster).remained@) == marked_once(
                old(caster).effects.0,
                old(caster).remained@,
                skill_mask_offset as u64,
                duration,
                effect,
            ),
    {
        let ghost before = targets@;
        let mut i: usize = 0;
        while i < inside.len()
            invariant
                skill_mask_offset < 64,
                inside@.len() == before.len(),
                targets@.len() == before.len(),
                i <= before.len(),
                forall|j: int|
                    0 <= j < i ==> (#[trigger] targets@[j]).effects.0 == (if inside@[j] {
                        marked_once(
                            before[j].effects.0,
                            before[j].remained@,
                            skill_mask_offset as u64,
                            duration,
                            effect,
                        ).0
                    } else {
                        before[j].effects.0
                    }) && targets@[j].remained@ == (if inside@[j] {
                        marked_once(
                            before[j].effects.0,
                            before[j].remained@,
                            skill_mask_offset as u64,
                            duration,
                            effect,
                        ).1
                    } else {
                        before[j].remained@
                    }),
                forall|j: int| i <= j < before.len() ==> #[trigger] targets@[j] == before[j],
            decreases inside.len() - i,
        {
            if inside[i] {
                let mut t = targets.remove(i);
                apply_once(&mut t, skill_mask_offset, duration, effect);
                targets.insert(i, t);
            }
            i = i + 1;
        }
        apply_once(caster, skill_mask_offset, duration, effect);
    }
}

pub(crate) proof fn lemma_stored_sum_mono(records: Seq<Option<Damage>>, from: int, mid: int, to: int)
    requires
        records_defined(records),
        0 <= from <= mid <= to <= records.len(),
    ensures
        stored_sum(records, from, mid) <= stored_sum(records, from, to),
    decreases to - mid,
{
    if mid < to {
        lemma_stored_sum_mono(records, from, mid, to - 1);
        lemma_stored_sum_grows(records, from, to);
    }
}

impl KeiBasicSkill {
    /// The key of the hit: the caster's applied skills seen as a boss hit by an enemy, plus this
    /// skill's own bit.
    pub fn damage_key(effects: SkillsBitMask, skill_mask_offset: u32) -> (r: SkillsBitMask)
        requires
            skill_mask_offset < 64,
        ensures
            r.0 == (effects.0 & !SkillsBitMask::cleared_tags(true, false, true)) | ((1u64
                << skill_mask_offset) & SkillsBitMask::DATA_MASK),
    {
        effects.clone_with_tag(true, false, true) | (1u64 << skill_mask_offset)
    }

    /// The damage of the hit, looked up under its key.
    pub fn apply(effects: SkillsBitMask, skill_mask_offset: u32, damage_map: &DamageMap) -> (r:
        Option<Damage>)
        requires
            skill_mask_offset < 64,
        ensures
            ({
                let k = (effects.0 & !SkillsBitMask::cleared_tags(true, false, true)) | ((1u64
                    << skill_mask_offset) & SkillsBitMask::DATA_MASK);
                r == if damage_map.view().dom().contains(k) {
                    Some(damage_map.view()[k])
                } else {
                    None::<Damage>
                }
            }),
    {
        let key = Self::damage_key(effects, skill_mask_offset);
        damage_map.get(key)
    }
}

} // verus!
