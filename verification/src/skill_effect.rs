//! What each skill declares it does, and to whom. Aiming a skill measures the field in floating
//! point, so the shape of an area is a type parameter `R` here: the lists are built the same
//! way whatever an area is.
use crate::binah_params::{AtsilutsLightParams, FiresOfSeverityParams, PurifyingStormParams, ON_FIELD_COUNT};
use crate::constants::MAX_STUDENT_COUNT;
use crate::effect::{damage_effect, BuffKind, DebuffKind, Effect, EffectKindOther, EffectTiming};
use crate::kei::{BasicParams, ExParams, PERCENT_DEN};
use crate::perorodzilla::Params;
use crate::uid::Uid;
use vstd::prelude::*;

verus! {

/// Whom an effect of a skill reaches.
#[derive(Debug, Clone, Copy, PartialEq, Eq, Hash)]
pub enum SkillEffectTarget<R> {
    Boss { kind: Effect },
    Student { kind: Effect, count: u8 },
    Land { kind: Effect, region: R },
    Oneself { kind: Effect },
}

/// One effect of a skill: which skill it belongs to, when it acts and whom it reaches.
#[derive(Debug, PartialEq, Eq, Hash)]
pub struct SkillEffect<R> {
    pub id: (Uid, usize),
    pub timing: EffectTiming,
    pub targets: SkillEffectTarget<R>,
}

/// The effect of skill `id` acting at `timing` on `targets`.
pub open spec fn effect_of<R>(id: (Uid, usize), timing: EffectTiming, targets: SkillEffectTarget<R>) -> SkillEffect<R> {
    SkillEffect { id, timing, targets }
}

impl<R> SkillEffect<R> {
    pub fn new(id: (Uid, usize), timing: EffectTiming, targets: SkillEffectTarget<R>) -> (r: Self)
        ensures
            r == effect_of::<R>(id, timing, targets),
    {
        SkillEffect { id, timing, targets }
    }
}

/// A timing that acts every `interval` ticks for `duration` ticks.
pub open spec fn persistent(interval: u16, duration: u16) -> EffectTiming {
    EffectTiming::Persistent { interval_frames: interval, duration_frames: duration }
}

/// A hit of `percent` percent of attack.
pub open spec fn spec_damage(percent: u16) -> Effect {
    Effect::Damage { coef_num: percent, coef_den: 100 }
}

/// Atsilut's Light: a hit on everything in its area at once, then a damage over time there.
pub fn atsiluts_light_effects<R: Copy>(id: (Uid, usize), params: &AtsilutsLightParams, region: R) -> (r: Vec<SkillEffect<R>>)
    ensures
        r@ == seq![
            effect_of::<R>(id, EffectTiming::Instant, SkillEffectTarget::Land { kind: spec_damage(params.instant_percent), region }),
            effect_of::<R>(
                id,
                persistent(params.dot_interval, params.dot_duration),
                SkillEffectTarget::Land { kind: spec_damage(params.dot_percent), region },
            ),
        ],
{
    let timing = EffectTiming::Persistent { interval_frames: params.dot_interval, duration_frames: params.dot_duration };
    let mut effects: Vec<SkillEffect<R>> = Vec::new();
    effects.push(SkillEffect::new(id, EffectTiming::Instant, SkillEffectTarget::Land { kind: damage_effect(params.instant_percent), region }));
    effects.push(SkillEffect::new(id, timing, SkillEffectTarget::Land { kind: damage_effect(params.dot_percent), region }));
    effects
}


/// Fires of Severity: one hit on every student on the field, and one more on each of the four
/// nearest, in order of distance.
pub fn fires_of_severity_effects<R>(id: (Uid, usize), params: &FiresOfSeverityParams) -> (r: Vec<SkillEffect<R>>)
    ensures
        r@ == seq![
            effect_of::<R>(id, EffectTiming::Instant, SkillEffectTarget::Student { kind: spec_damage(params.all_percent), count: ON_FIELD_COUNT }),
        ] + Seq::new(
            4,
            |i: int|
                effect_of::<R>(
                    id,
                    EffectTiming::Instant,
                    SkillEffectTarget::<R>::Student { kind: spec_damage(params.nearest_percents[i]), count: 1 },
                ),
        ),
{
    let mut effects: Vec<SkillEffect<R>> = Vec::new();
    effects.push(SkillEffect::new(
        id,
        EffectTiming::Instant,
        SkillEffectTarget::Student { kind: damage_effect(params.all_percent), count: ON_FIELD_COUNT },
    ));
    let mut k: usize = 0;
    while k < 4
        invariant
            k <= 4,
            effects.len() == k + 1,
            effects@[0] == effect_of::<R>(
                id,
                EffectTiming::Instant,
                SkillEffectTarget::<R>::Student { kind: spec_damage(params.all_percent), count: ON_FIELD_COUNT },
            ),
            forall|i: int|
                0 <= i < k ==> #[trigger] effects@[i + 1] == effect_of::<R>(
                    id,
                    EffectTiming::Instant,
                    SkillEffectTarget::<R>::Student { kind: spec_damage(params.nearest_percents[i]), count: 1 },
                ),
        decreases 4 - k,
    {
        effects.push(SkillEffect::new(
            id,
            EffectTiming::Instant,
            SkillEffectTarget::Student { kind: damage_effect(params.nearest_percents[k]), count: 1 },
        ));
        k = k + 1;
    }
    proof {
        let want = seq![
            effect_of::<R>(
                id,
                EffectTiming::Instant,
                SkillEffectTarget::<R>::Student { kind: spec_damage(params.all_percent), count: ON_FIELD_COUNT },
            ),
        ] + Seq::new(
            4,
            |i: int|
                effect_of::<R>(
                    id,
                    EffectTiming::Instant,
                    SkillEffectTarget::<R>::Student { kind: spec_damage(params.nearest_percents[i]), count: 1 },
                ),
        );
        assert forall|j: int| 0 <= j < 5 implies effects@[j] == want[j] by {
            if j > 0 {
                assert(effects@[(j - 1) + 1] == want[j]);
            }
        }
        assert(effects@ =~= want);
    }
    effects
}

/// Purifying Storm: a defense down and a hit on `count` students.
pub fn purifying_storm_effects<R>(id: (Uid, usize), params: &PurifyingStormParams) -> (r: Vec<SkillEffect<R>>)
    ensures
        r@ == seq![
            effect_of::<R>(
                id,
                EffectTiming::Instant,
                SkillEffectTarget::Student {
                    kind: Effect::Debuff { ty: DebuffKind::Def, scale: params.def_down_scale, amount: 0 },
                    count: params.count,
                },
            ),
            effect_of::<R>(id, EffectTiming::Instant, SkillEffectTarget::Student { kind: spec_damage(params.percent), count: params.count }),
        ],
{
    let mut effects: Vec<SkillEffect<R>> = Vec::new();
    effects.push(SkillEffect::new(
        id,
        EffectTiming::Instant,
        SkillEffectTarget::Student {
            kind: Effect::Debuff { ty: DebuffKind::Def, scale: params.def_down_scale, amount: 0 },
            count: params.count,
        },
    ));
    effects.push(SkillEffect::new(
        id,
        EffectTiming::Instant,
        SkillEffectTarget::Student { kind: damage_effect(params.percent), count: params.count },
    ));
    effects
}

/// A raise of `scale` percent of the stat `ty`.
pub open spec fn buff_of(ty: BuffKind, scale: u16) -> Effect {
    Effect::Buff { ty, scale, amount: 0 }
}

/// Kei's ex skill: attack and mystic effectiveness up, on Kei and on the allies in range, for
/// the skill's duration.
pub fn kei_ex_effects<R, Q>(id: (Uid, usize), params: &ExParams<Q>) -> (r: Vec<SkillEffect<R>>)
    ensures
        r@ == seq![
            effect_of::<R>(
                id,
                persistent(0, params.duration),
                SkillEffectTarget::Oneself { kind: buff_of(BuffKind::MysticEffectiveness, params.effective_buff_scale) },
            ),
            effect_of::<R>(id, persistent(0, params.duration), SkillEffectTarget::Oneself { kind: buff_of(BuffKind::Atk, params.atk_buff_scale) }),
            effect_of::<R>(
                id,
                persistent(0, params.duration),
                SkillEffectTarget::Student {
                    kind: buff_of(BuffKind::MysticEffectiveness, params.effective_buff_scale),
                    count: params.ally_count,
                },
            ),
            effect_of::<R>(
                id,
                persistent(0, params.duration),
                SkillEffectTarget::Student { kind: buff_of(BuffKind::Atk, params.atk_buff_scale), count: params.ally_count },
            ),
        ],
{
    let effective_buff = Effect::Buff { ty: BuffKind::MysticEffectiveness, scale: params.effective_buff_scale, amount: 0 };
    let atk_buff = Effect::Buff { ty: BuffKind::Atk, scale: params.atk_buff_scale, amount: 0 };
    let timing = EffectTiming::Persistent { interval_frames: 0, duration_frames: params.duration };
    let mut effects: Vec<SkillEffect<R>> = Vec::new();
    effects.push(SkillEffect::new(id, timing, SkillEffectTarget::Oneself { kind: effective_buff }));
    effects.push(SkillEffect::new(id, timing, SkillEffectTarget::Oneself { kind: atk_buff }));
    effects.push(SkillEffect::new(id, timing, SkillEffectTarget::Student { kind: effective_buff, count: params.ally_count }));
    effects.push(SkillEffect::new(id, timing, SkillEffectTarget::Student { kind: atk_buff, count: params.ally_count }));
    effects
}

/// Kei's basic skill: one hit on the boss.
pub fn kei_basic_effects<R>(id: (Uid, usize), params: &BasicParams) -> (r: Vec<SkillEffect<R>>)
    ensures
        r@ == seq![
            effect_of::<R>(
                id,
                EffectTiming::Instant,
                SkillEffectTarget::Boss { kind: Effect::Damage { coef_num: params.coef_percent, coef_den: PERCENT_DEN } },
            ),
        ],
{
    let mut effects: Vec<SkillEffect<R>> = Vec::new();
    effects.push(SkillEffect::new(
        id,
        EffectTiming::Instant,
        SkillEffectTarget::Boss { kind: Effect::Damage { coef_num: params.coef_percent, coef_den: PERCENT_DEN } },
    ));
    effects
}

/// Kei's sub skill: for `duration` ticks, the boss carries the effect `other` that stores the
/// damage it takes.
pub fn kei_sub_effects<R>(id: (Uid, usize), duration: u16, other: EffectKindOther) -> (r: Vec<SkillEffect<R>>)
    ensures
        r@ == seq![effect_of::<R>(id, persistent(0, duration), SkillEffectTarget::Boss { kind: Effect::Other(other) })],
{
    let mut effects: Vec<SkillEffect<R>> = Vec::new();
    effects.push(SkillEffect::new(
        id,
        EffectTiming::Persistent { interval_frames: 0, duration_frames: duration },
        SkillEffectTarget::Boss { kind: Effect::Other(other) },
    ));
    effects
}


/// Summon Minion: the boss carries out the effect `other`, which sends the wave.
pub fn summon_minion_effects<R>(id: (Uid, usize), other: EffectKindOther) -> (r: Vec<SkillEffect<R>>)
    ensures
        r@ == seq![effect_of::<R>(id, EffectTiming::Instant, SkillEffectTarget::Oneself { kind: Effect::Other(other) })],
{
    let mut effects: Vec<SkillEffect<R>> = Vec::new();
    effects.push(SkillEffect::new(id, EffectTiming::Instant, SkillEffectTarget::Oneself { kind: Effect::Other(other) }));
    effects
}

/// Absorb Minion: the boss carries out the effect `other`, which takes the wave in; where the
/// difficulty knocks the party back on a groggy, every student is moved too.
pub fn absorb_minion_effects<R>(id: (Uid, usize), params: &Params, other: EffectKindOther) -> (r: Vec<SkillEffect<R>>)
    ensures
        r@ == seq![effect_of::<R>(id, EffectTiming::Instant, SkillEffectTarget::Oneself { kind: Effect::Other(other) })] + if params.knockback_on_groggy {
            seq![
                effect_of::<R>(
                    id,
                    EffectTiming::Instant,
                    SkillEffectTarget::Student { kind: Effect::Move, count: MAX_STUDENT_COUNT as u8 },
                ),
            ]
        } else {
            Seq::empty()
        },
{
    let mut effects: Vec<SkillEffect<R>> = Vec::new();
    effects.push(SkillEffect::new(id, EffectTiming::Instant, SkillEffectTarget::Oneself { kind: Effect::Other(other) }));
    if params.knockback_on_groggy {
        effects.push(SkillEffect::new(
            id,
            EffectTiming::Instant,
            SkillEffectTarget::Student { kind: Effect::Move, count: MAX_STUDENT_COUNT as u8 },
        ));
    }
    proof {
        if !params.knockback_on_groggy {
            assert(effects@ =~= seq![
                effect_of::<R>(id, EffectTiming::Instant, SkillEffectTarget::Oneself { kind: Effect::Other(other) }),
            ] + Seq::<SkillEffect<R>>::empty());
        }
    }
    effects
}

/// The chain of White-hot Heat Vision over time: one target at the first value, then the
/// remaining ones at the second, as far as the difficulty's chain reaches.
pub open spec fn heat_vision_chain<R>(id: (Uid, usize), p: Params) -> Seq<SkillEffect<R>> {
    let t = persistent(p.dot_interval, p.dot_duration);
    let first = effect_of::<R>(id, t, SkillEffectTarget::Student { kind: spec_damage(p.chain_percents[0]), count: 1 });
    if p.chain_count == 0 {
        Seq::empty()
    } else if p.chain_count == 1 {
        seq![first]
    } else {
        seq![
            first,
            effect_of::<R>(
                id,
                t,
                SkillEffectTarget::Student { kind: spec_damage(p.chain_percents[1]), count: (p.chain_count - 1) as u8 },
            ),
        ]
    }
}

/// The blast of White-hot Heat Vision, where the difficulty has one and its area is known: a
/// hit there, with an attack down where the difficulty has one.
pub open spec fn heat_vision_blast<R>(id: (Uid, usize), p: Params, region: Option<R>) -> Seq<SkillEffect<R>> {
    if p.blast_percent > 0 && region is Some {
        let hit = effect_of::<R>(
            id,
            EffectTiming::Instant,
            SkillEffectTarget::Land { kind: spec_damage(p.blast_percent), region: region->0 },
        );
        if p.blast_atk_down_scale > 0 {
            seq![
                hit,
                effect_of::<R>(
                    id,
                    EffectTiming::Instant,
                    SkillEffectTarget::Land {
                        kind: Effect::Debuff { ty: DebuffKind::Atk, scale: p.blast_atk_down_scale, amount: 0 },
                        region: region->0,
                    },
                ),
            ]
        } else {
            seq![hit]
        }
    } else {
        Seq::empty()
    }
}

/// White-hot Heat Vision: a defense down and a damage over time on one student, then the
/// chain, then the blast.
pub open spec fn heat_vision_effects<R>(id: (Uid, usize), p: Params, blast_region: Option<R>) -> Seq<SkillEffect<R>> {
    seq![
        effect_of::<R>(
            id,
            EffectTiming::Instant,
            SkillEffectTarget::Student { kind: Effect::Debuff { ty: DebuffKind::Def, scale: 0, amount: p.def_down_amount }, count: 1 },
        ),
        effect_of::<R>(
            id,
            persistent(p.dot_interval, p.dot_duration),
            SkillEffectTarget::Student { kind: spec_damage(p.heat_vision_percent), count: 1 },
        ),
    ] + heat_vision_chain(id, p) + heat_vision_blast(id, p, blast_region)
}

pub fn white_hot_heat_vision_effects<R: Copy>(id: (Uid, usize), params: &Params, blast_region: Option<R>) -> (r: Vec<SkillEffect<R>>)
    ensures
        r@ == heat_vision_effects(id, *params, blast_region),
{
    let dot_timing = EffectTiming::Persistent { interval_frames: params.dot_interval, duration_frames: params.dot_duration };
    let mut effects: Vec<SkillEffect<R>> = Vec::new();
    effects.push(SkillEffect::new(
        id,
        EffectTiming::Instant,
        SkillEffectTarget::Student {
            kind: Effect::Debuff { ty: DebuffKind::Def, scale: 0, amount: params.def_down_amount },
            count: 1,
        },
    ));
    effects.push(SkillEffect::new(
        id,
        dot_timing,
        SkillEffectTarget::Student { kind: damage_effect(params.heat_vision_percent), count: 1 },
    ));
    let ghost head = effects@;
    if params.chain_count > 0 {
        effects.push(SkillEffect::new(
            id,
            dot_timing,
            SkillEffectTarget::Student { kind: damage_effect(params.chain_percents[0]), count: 1 },
        ));
        if params.chain_count > 1 {
            effects.push(SkillEffect::new(
                id,
                dot_timing,
                SkillEffectTarget::Student { kind: damage_effect(params.chain_percents[1]), count: params.chain_count - 1 },
            ));
        }
    }
    assert(effects@ =~= head + heat_vision_chain::<R>(id, *params));
    let ghost chained = effects@;
    if params.blast_percent > 0 {
        if let Some(region) = blast_region {
            effects.push(SkillEffect::new(
                id,
                EffectTiming::Instant,
                SkillEffectTarget::Land { kind: damage_effect(params.blast_percent), region },
            ));
            if params.blast_atk_down_scale > 0 {
                effects.push(SkillEffect::new(
                    id,
                    EffectTiming::Instant,
                    SkillEffectTarget::Land {
                        kind: Effect::Debuff { ty: DebuffKind::Atk, scale: params.blast_atk_down_scale, amount: 0 },
                        region,
                    },
                ));
            }
        }
    }
    assert(effects@ =~= chained + heat_vision_blast(id, *params, blast_region));
    effects
}

/// Aqua Ball: a hit in its area, with a defense down where the difficulty has one. Without a
/// known area it declares nothing.
pub fn aqua_ball_effects<R: Copy>(id: (Uid, usize), params: &Params, region: Option<R>) -> (r: Vec<SkillEffect<R>>)
    ensures
        region is None ==> r@.len() == 0,
        region is Some ==> r@ == seq![
            effect_of::<R>(id, EffectTiming::Instant, SkillEffectTarget::Land { kind: spec_damage(params.aqua_ball_percent), region: region->0 }),
        ] + if params.aqua_ball_def_down {
            seq![
                effect_of::<R>(
                    id,
                    EffectTiming::Instant,
                    SkillEffectTarget::Land {
                        kind: Effect::Debuff { ty: DebuffKind::Def, scale: 0, amount: params.def_down_amount },
                        region: region->0,
                    },
                ),
            ]
        } else {
            Seq::empty()
        },
{
    let mut effects: Vec<SkillEffect<R>> = Vec::new();
    if let Some(region) = region {
        effects.push(SkillEffect::new(
            id,
            EffectTiming::Instant,
            SkillEffectTarget::Land { kind: damage_effect(params.aqua_ball_percent), region },
        ));
        if params.aqua_ball_def_down {
            effects.push(SkillEffect::new(
                id,
                EffectTiming::Instant,
                SkillEffectTarget::Land {
                    kind: Effect::Debuff { ty: DebuffKind::Def, scale: 0, amount: params.def_down_amount },
                    region,
                },
            ));
        } else {
            assert(effects@ =~= effects@ + Seq::<SkillEffect<R>>::empty());
        }
    }
    effects
}

/// Hyper Spiral Glare Beam: a hit on every student.
pub fn hyper_spiral_effects<R>(id: (Uid, usize), params: &Params) -> (r: Vec<SkillEffect<R>>)
    ensures
        r@ == seq![
            effect_of::<R>(
                id,
                EffectTiming::Instant,
                SkillEffectTarget::Student { kind: spec_damage(params.hyper_spiral_percent), count: MAX_STUDENT_COUNT as u8 },
            ),
        ],
{
    let mut effects: Vec<SkillEffect<R>> = Vec::new();
    effects.push(SkillEffect::new(
        id,
        EffectTiming::Instant,
        SkillEffectTarget::Student { kind: damage_effect(params.hyper_spiral_percent), count: MAX_STUDENT_COUNT as u8 },
    ));
    effects
}

/// Burning Perorodzilla: the boss's mystic effectiveness up for the whole fight, where the
/// difficulty has it.
pub fn burning_perorodzilla_effects<R>(id: (Uid, usize), params: &Params) -> (r: Vec<SkillEffect<R>>)
    ensures
        params.mystic_up_percent == 0 ==> r@.len() == 0,
        params.mystic_up_percent != 0 ==> r@ == seq![
            effect_of::<R>(
                id,
                EffectTiming::Instant,
                SkillEffectTarget::Oneself { kind: buff_of(BuffKind::MysticEffectiveness, params.mystic_up_percent) },
            ),
        ],
{
    let mut effects: Vec<SkillEffect<R>> = Vec::new();
    if params.mystic_up_percent != 0 {
        effects.push(SkillEffect::new(
            id,
            EffectTiming::Instant,
            SkillEffectTarget::Oneself {
                kind: Effect::Buff { ty: BuffKind::MysticEffectiveness, scale: params.mystic_up_percent, amount: 0 },
            },
        ));
    }
    effects
}

} // verus!
