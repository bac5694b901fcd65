use raidsim::binah_params::{AtsilutsLightParams, FiresOfSeverityParams, PurifyingStormParams};
use raidsim::difficulty::Difficulty;
use raidsim::effect::{BuffKind, DebuffKind, Effect, EffectKindOther, EffectTiming};
use raidsim::kei::{BasicParams, ExParams};
use raidsim::perorodzilla::Params;
use raidsim::skill_effect::{
    absorb_minion_effects, aqua_ball_effects, atsiluts_light_effects, burning_perorodzilla_effects,
    fires_of_severity_effects, hyper_spiral_effects, kei_basic_effects, kei_ex_effects, kei_sub_effects,
    purifying_storm_effects, summon_minion_effects, white_hot_heat_vision_effects, SkillEffect,
    SkillEffectTarget,
};
use raidsim::uid::Uid;

/// A stand-in for an area of the field: its index in a table.
type Area = u8;

const ID: (Uid, usize) = (Uid(7), 2);

fn damage(percent: u16) -> Effect {
    Effect::Damage { coef_num: percent, coef_den: 100 }
}

fn targets(effects: &[SkillEffect<Area>]) -> Vec<SkillEffectTarget<Area>> {
    effects.iter().map(|e| e.targets).collect()
}

#[test]
fn heat_vision_on_normal_is_a_debuff_and_a_dot() {
    let p = Params::of(Difficulty::Normal);
    let effects = white_hot_heat_vision_effects::<Area>(ID, &p, Some(3));
    assert_eq!(effects.len(), 2);
    assert!(effects.iter().all(|e| e.id == ID));
    assert_eq!(effects[0].timing, EffectTiming::Instant);
    assert_eq!(
        effects[0].targets,
        SkillEffectTarget::Student { kind: Effect::Debuff { ty: DebuffKind::Def, scale: 0, amount: 9_999 }, count: 1 }
    );
    assert_eq!(effects[1].timing, EffectTiming::Persistent { interval_frames: 30, duration_frames: 300 });
    assert_eq!(effects[1].targets, SkillEffectTarget::Student { kind: damage(90), count: 1 });
}

#[test]
fn heat_vision_on_lunatic_chains_and_blasts() {
    let p = Params::of(Difficulty::Lunatic);
    let effects = white_hot_heat_vision_effects::<Area>(ID, &p, Some(5));
    assert_eq!(
        targets(&effects),
        vec![
            SkillEffectTarget::Student { kind: Effect::Debuff { ty: DebuffKind::Def, scale: 0, amount: 9_999 }, count: 1 },
            SkillEffectTarget::Student { kind: damage(100), count: 1 },
            SkillEffectTarget::Student { kind: damage(40), count: 1 },
            SkillEffectTarget::Student { kind: damage(40), count: 8 },
            SkillEffectTarget::Land { kind: damage(250), region: 5 },
            SkillEffectTarget::Land { kind: Effect::Debuff { ty: DebuffKind::Atk, scale: 50, amount: 0 }, region: 5 },
        ]
    );
    assert_eq!(effects[4].timing, EffectTiming::Instant);
    assert_eq!(effects[3].timing, EffectTiming::Persistent { interval_frames: 30, duration_frames: 300 });
}

#[test]
fn heat_vision_without_an_area_has_no_blast() {
    let p = Params::of(Difficulty::Insane);
    assert_eq!(white_hot_heat_vision_effects::<Area>(ID, &p, None).len(), 2);
    let with_area = white_hot_heat_vision_effects::<Area>(ID, &p, Some(1));
    assert_eq!(with_area.len(), 3);
    assert_eq!(with_area[2].targets, SkillEffectTarget::Land { kind: damage(250), region: 1 });
}

#[test]
fn heat_vision_on_torment_chains_twice() {
    let p = Params::of(Difficulty::Torment);
    let effects = white_hot_heat_vision_effects::<Area>(ID, &p, None);
    assert_eq!(
        targets(&effects)[2..],
        [
            SkillEffectTarget::Student { kind: damage(20), count: 1 },
            SkillEffectTarget::Student { kind: damage(10), count: 1 },
        ]
    );
}

#[test]
fn aqua_ball_needs_an_area() {
    let p = Params::of(Difficulty::Lunatic);
    assert!(aqua_ball_effects::<Area>(ID, &p, None).is_empty());
    assert_eq!(
        targets(&aqua_ball_effects(ID, &p, Some(2))),
        vec![
            SkillEffectTarget::Land { kind: damage(400), region: 2 },
            SkillEffectTarget::Land { kind: Effect::Debuff { ty: DebuffKind::Def, scale: 0, amount: 9_999 }, region: 2 },
        ]
    );
    let hard = Params::of(Difficulty::Torment);
    assert_eq!(targets(&aqua_ball_effects(ID, &hard, Some(2))), vec![SkillEffectTarget::Land { kind: damage(400), region: 2 }]);
}

#[test]
fn hyper_spiral_hits_every_student() {
    let effects = hyper_spiral_effects::<Area>(ID, &Params::of(Difficulty::Hard));
    assert_eq!(targets(&effects), vec![SkillEffectTarget::Student { kind: damage(300), count: 10 }]);
}

#[test]
fn burning_perorodzilla_only_where_it_raises_anything() {
    assert!(burning_perorodzilla_effects::<Area>(ID, &Params::of(Difficulty::Insane)).is_empty());
    assert_eq!(
        targets(&burning_perorodzilla_effects(ID, &Params::of(Difficulty::Lunatic))),
        vec![SkillEffectTarget::Oneself { kind: Effect::Buff { ty: BuffKind::MysticEffectiveness, scale: 200, amount: 0 } }]
    );
}

#[test]
fn minion_waves_carry_their_own_effect() {
    let other = EffectKindOther(0x1234);
    assert_eq!(
        targets(&summon_minion_effects(ID, other)),
        vec![SkillEffectTarget::Oneself { kind: Effect::Other(other) }]
    );
    assert_eq!(absorb_minion_effects::<Area>(ID, &Params::of(Difficulty::Torment), other).len(), 1);
    assert_eq!(
        targets(&absorb_minion_effects(ID, &Params::of(Difficulty::Lunatic), other)),
        vec![
            SkillEffectTarget::Oneself { kind: Effect::Other(other) },
            SkillEffectTarget::Student { kind: Effect::Move, count: 10 },
        ]
    );
}

#[test]
fn binah_effect_lists() {
    let light = AtsilutsLightParams {
        cost: 0,
        duration: 0,
        frames: 1,
        instant_percent: 120,
        dot_percent: 30,
        dot_interval: 180,
        dot_duration: 900,
    };
    let effects = atsiluts_light_effects::<Area>(ID, &light, 9);
    assert_eq!(
        targets(&effects),
        vec![SkillEffectTarget::Land { kind: damage(120), region: 9 }, SkillEffectTarget::Land { kind: damage(30), region: 9 }]
    );
    assert_eq!(effects[1].timing, EffectTiming::Persistent { interval_frames: 180, duration_frames: 900 });

    let fires = FiresOfSeverityParams { cost: 0, duration: 0, frames: 1, all_percent: 75, nearest_percents: [40, 30, 20, 10] };
    assert_eq!(
        targets(&fires_of_severity_effects::<Area>(ID, &fires)),
        vec![
            SkillEffectTarget::Student { kind: damage(75), count: 4 },
            SkillEffectTarget::Student { kind: damage(40), count: 1 },
            SkillEffectTarget::Student { kind: damage(30), count: 1 },
            SkillEffectTarget::Student { kind: damage(20), count: 1 },
            SkillEffectTarget::Student { kind: damage(10), count: 1 },
        ]
    );

    let storm = PurifyingStormParams { cost: 3, duration: 0, frames: 1, percent: 300, def_down_scale: 50, def_down_duration: 3000, count: 4 };
    assert_eq!(
        targets(&purifying_storm_effects::<Area>(ID, &storm)),
        vec![
            SkillEffectTarget::Student { kind: Effect::Debuff { ty: DebuffKind::Def, scale: 50, amount: 0 }, count: 4 },
            SkillEffectTarget::Student { kind: damage(300), count: 4 },
        ]
    );
}

#[test]
fn kei_effect_lists() {
    let ex = ExParams { cost: 4, duration: 750, frames: 40, region: 1u8, ally_count: 3, atk_buff_scale: 51, effective_buff_scale: 84 };
    let effects = kei_ex_effects::<Area, Area>(ID, &ex);
    assert!(effects.iter().all(|e| e.timing == EffectTiming::Persistent { interval_frames: 0, duration_frames: 750 }));
    let effective = Effect::Buff { ty: BuffKind::MysticEffectiveness, scale: 84, amount: 0 };
    let atk = Effect::Buff { ty: BuffKind::Atk, scale: 51, amount: 0 };
    assert_eq!(
        targets(&effects),
        vec![
            SkillEffectTarget::Oneself { kind: effective },
            SkillEffectTarget::Oneself { kind: atk },
            SkillEffectTarget::Student { kind: effective, count: 3 },
            SkillEffectTarget::Student { kind: atk, count: 3 },
        ]
    );
    let basic = kei_basic_effects::<Area>(ID, &BasicParams { frames: 30, coef_percent: 281 });
    assert_eq!(targets(&basic), vec![SkillEffectTarget::Boss { kind: damage(281) }]);
    let sub = kei_sub_effects::<Area>(ID, 750, EffectKindOther(5));
    assert_eq!(sub[0].timing, EffectTiming::Persistent { interval_frames: 0, duration_frames: 750 });
    assert_eq!(targets(&sub), vec![SkillEffectTarget::Boss { kind: Effect::Other(EffectKindOther(5)) }]);
}
