use raidsim::binah_skills::{AtsilutsLight, FiresOfSeverityHit, FiresofSeverity, PurifyingStorm};
use raidsim::damage::{Damage, DamageMap};
use raidsim::difficulty::Difficulty;
use raidsim::effect::{BuffKind, Effect, EffectTiming, RemainedEffects};
use raidsim::kei::{apply_once, KeiBasicSkill, KeiExSkill, KeiSubSkill, Marked};
use raidsim::key::SkillsBitMask;
use raidsim::perorodzilla::{
    absorb_minion_wave, append_damage, append_damage_over_time, apply_shiny_minion_blast,
    damage_since_wave_start, heat_vision_percent, hyper_spiral_fire, init_big_minion_hp,
    knockdown_count, shiny_blast_minion_share, summon_minion_wave, AccumulatedDamage, Params,
    aqua_ball_apply, heat_vision_apply, hit_each, hyper_spiral_apply, HitTarget,
};
use raidsim::states::{KeiState, PerorodzillaState};

fn flat(v: u64) -> Damage {
    Damage::new(v, v, v, v, 0, 1)
}

#[test]
fn atsiluts_light_lingers_only_on_the_hardest() {
    let timing = |d| AtsilutsLight::new(d).dot_timing();
    assert_eq!(timing(Difficulty::Lunatic), EffectTiming::Persistent { interval_frames: 180, duration_frames: 7200 });
    assert_eq!(timing(Difficulty::Torment), EffectTiming::Persistent { interval_frames: 180, duration_frames: 900 });
    assert_eq!(timing(Difficulty::Insane), EffectTiming::Persistent { interval_frames: 180, duration_frames: 0 });
    assert_eq!(AtsilutsLight::new(Difficulty::Normal).cost(), 0);
    assert_eq!(AtsilutsLight::new(Difficulty::Normal).frames(), 1);
}

#[test]
fn fires_of_severity_coefficients() {
    let hard = FiresofSeverity::new(Difficulty::Insane);
    assert_eq!(hard.hit_fractions(FiresOfSeverityHit::First, 3), vec![(3, 2), (3, 2), (3, 2)]);
    assert_eq!(hard.hit_fractions(FiresOfSeverityHit::Second, 4), vec![(15, 2), (15, 4), (15, 4), (15, 8)]);
    let easy = FiresofSeverity::new(Difficulty::Hard);
    assert_eq!(easy.hit_fractions(FiresOfSeverityHit::First, 2), vec![(3, 4), (3, 4)]);
    assert_eq!(easy.hit_fractions(FiresOfSeverityHit::Second, 4), vec![(15, 4), (15, 8), (15, 8), (15, 16)]);
    assert!(easy.hit_fractions(FiresOfSeverityHit::First, 0).is_empty());
}

#[test]
fn fires_of_severity_adds_one_hit_to_each_record() {
    let skill = FiresofSeverity::new(Difficulty::Lunatic);
    let mut records = vec![vec![flat(1)], vec![], vec![], vec![flat(2), flat(3)]];
    skill.apply(FiresOfSeverityHit::Second, |i, num, den| flat(1_000 * num / den + i as u64), &mut records);
    assert_eq!(records[0], vec![flat(1), flat(7_500)]);
    assert_eq!(records[1], vec![flat(3_751)]);
    assert_eq!(records[2], vec![flat(3_752)]);
    assert_eq!(records[3], vec![flat(2), flat(3), flat(1_878)]);
    let mut few = vec![vec![], vec![]];
    skill.apply(FiresOfSeverityHit::First, |_, num, den| flat(num * 100 / den), &mut few);
    assert_eq!(few, vec![vec![flat(150)], vec![flat(150)]]);
}

#[test]
fn purifying_storm_hits_everyone_at_three_hundred_times() {
    let skill = PurifyingStorm::new(Difficulty::Normal);
    assert_eq!(skill.cost(), 3);
    assert_eq!(skill.hit_fraction(), (300, 1));
    let mut records = vec![vec![], vec![flat(5)]];
    skill.apply(|i, num, den| flat(num / den + i as u64), &mut records);
    assert_eq!(records, vec![vec![flat(300)], vec![flat(5), flat(301)]]);
}

#[test]
fn perorodzilla_numbers_per_difficulty() {
    let normal = Params::of(Difficulty::Normal);
    assert_eq!((normal.blast_percent, normal.shiny_minion_count, normal.groggy_denominator), (0, 0, 7));
    assert_eq!(normal.heat_vision_percent, 90);
    let insane = Params::of(Difficulty::Insane);
    assert_eq!((insane.blast_percent, insane.shiny_minion_count, insane.groggy_denominator), (250, 1, 10));
    let torment = Params::of(Difficulty::Torment);
    assert_eq!((torment.chain_count, torment.chain_percents, torment.groggy_denominator), (2, [20, 10], 12));
    assert_eq!((torment.mystic_up_percent, torment.blast_atk_down_duration), (50, 1200));
    let lunatic = Params::of(Difficulty::Lunatic);
    assert_eq!((lunatic.chain_count, lunatic.chain_percents), (9, [40, 40]));
    assert!(lunatic.aqua_ball_def_down && lunatic.knockback_on_groggy);
    assert_eq!(lunatic.mystic_up_percent, 200);
    assert_eq!((lunatic.def_down_duration, lunatic.dot_interval, lunatic.dot_duration), (1800, 30, 300));
}

#[test]
fn a_wave_is_summoned_and_knocked_down() {
    let params = Params::of(Difficulty::Normal);
    let mut boss = PerorodzillaState { groggy_numerator: 3, knocked_down: 4, minion_damage: 9, ..PerorodzillaState::default() };
    init_big_minion_hp(&mut boss, 1_000);
    summon_minion_wave(&mut boss, &params, 12);
    assert_eq!((boss.big_minions, boss.shiny_minions, boss.knocked_down), (7, 0, 0));
    assert_eq!((boss.minion_damage, boss.damage_record_start, boss.big_minion_hp), (0, 12, 1_000));
    boss.minion_damage = 1_499;
    assert_eq!(knockdown_count(&boss), 2);
    boss.minion_damage = 100_000;
    assert_eq!(knockdown_count(&boss), 7);
    boss.big_minion_hp = 1;
    assert_eq!(knockdown_count(&boss), 0);
}

#[test]
fn the_wave_damage_is_read_from_the_boss_record() {
    let boss = PerorodzillaState { damage_record_start: 1, ..PerorodzillaState::default() };
    let records = vec![Some(flat(1_000)), None, Some(flat(200)), Some(Damage::new(20, 10, 40, 30, 1, 2))];
    assert_eq!(damage_since_wave_start(&boss, &records), 200 + 25);
    let late = PerorodzillaState { damage_record_start: 9, ..PerorodzillaState::default() };
    assert_eq!(damage_since_wave_start(&late, &records), 0);
}

#[test]
fn absorbing_a_wave_fills_the_groggy_gauge() {
    let params = Params::of(Difficulty::Normal);
    let mut boss = PerorodzillaState { big_minion_hp: 1_000, big_minions: 7, groggy_numerator: 3, atg_percent: 30, ..PerorodzillaState::default() };
    let groggy = absorb_minion_wave(&mut boss, &params, 1_000, false);
    assert!(!groggy);
    assert_eq!((boss.knocked_down, boss.groggy_numerator, boss.big_minions), (2, 5, 0));
    assert_eq!(boss.atg_percent, 80);
    boss.big_minions = 7;
    let groggy = absorb_minion_wave(&mut boss, &params, 1_000, false);
    assert!(groggy);
    assert_eq!((boss.groggy_numerator, boss.small_minions, boss.atg_percent), (0, 5, 100));
}

#[test]
fn the_shiny_blast_adds_to_the_knockdowns() {
    let params = Params::of(Difficulty::Insane);
    let mut boss = PerorodzillaState { big_minion_hp: 800_000, big_minions: 7, shiny_minions: 1, ..PerorodzillaState::default() };
    // 400000 knocks one down; the blast then hits the six still standing for 200000 each.
    let groggy = absorb_minion_wave(&mut boss, &params, 400_000, true);
    assert!(!groggy);
    assert_eq!(boss.knocked_down, 4);
    assert_eq!(boss.groggy_numerator, 4);
}

#[test]
fn the_blast_hits_students_inside_and_the_boss_takes_the_sum() {
    let params = Params::of(Difficulty::Insane);
    let boss = PerorodzillaState { big_minions: 7, knocked_down: 3, ..PerorodzillaState::default() };
    assert_eq!(shiny_blast_minion_share(&boss, &params), 800_000);
    let mut students = vec![vec![], vec![Some(flat(9))], vec![]];
    let mut boss_records = vec![];
    let share = apply_shiny_minion_blast(&boss, &params, &[true, false, true], &mut students, &mut boss_records);
    assert_eq!(share, 800_000);
    assert_eq!(students[0], vec![Some(flat(200_000))]);
    assert_eq!(students[1], vec![Some(flat(9))]);
    assert_eq!(students[2], vec![Some(flat(200_000))]);
    assert_eq!(boss_records, vec![Some(flat(1_200_000))]);
    let quiet = Params::of(Difficulty::Normal);
    let mut none = vec![vec![]];
    let mut boss_records = vec![];
    assert_eq!(apply_shiny_minion_blast(&boss, &quiet, &[true], &mut none, &mut boss_records), 0);
    assert!(none[0].is_empty() && boss_records.is_empty());
}

#[test]
fn hyper_spiral_fires_on_a_full_gauge() {
    let mut boss = PerorodzillaState { atg_percent: 99, ..PerorodzillaState::default() };
    assert!(!hyper_spiral_fire(&mut boss));
    assert_eq!(boss.atg_percent, 99);
    boss.atg_percent = 100;
    assert!(hyper_spiral_fire(&mut boss));
    assert_eq!(boss.atg_percent, 0);
}

#[test]
fn kei_stores_and_releases_damage() {
    let mut kei = KeiState { acc_damage: 10, recording_start_len: 1 };
    let records = vec![Some(flat(1_000)), Some(flat(30)), None, Some(flat(12))];
    KeiSubSkill::effect_apply(&mut kei, &records);
    assert_eq!((kei.acc_damage, kei.recording_start_len), (52, 4));
    KeiSubSkill::effect_apply(&mut kei, &records);
    assert_eq!((kei.acc_damage, kei.recording_start_len), (52, 4));
    let hit = KeiSubSkill::apply(&mut kei, 1_000);
    assert_eq!(hit, flat(52));
    assert_eq!(kei.acc_damage, 0);
    let mut big = KeiState { acc_damage: 1_000_000, recording_start_len: 0 };
    assert_eq!(KeiSubSkill::apply(&mut big, 100), flat(5_000));
}

#[test]
fn kei_basic_hit_is_keyed_by_the_applied_skills() {
    let effects = SkillsBitMask(0b1_0110);
    let key = KeiBasicSkill::damage_key(effects, 5);
    assert_eq!(key.0, 0b11_0100);
    let map = DamageMap::from_entries(vec![(SkillsBitMask(0b11_0100), flat(77))]);
    assert_eq!(KeiBasicSkill::apply(effects, 5, &map), Some(flat(77)));
    assert_eq!(KeiBasicSkill::apply(effects, 6, &map), None);
}

#[test]
fn a_hit_lands_at_its_share_of_the_caster_damage() {
    let mut hits = vec![];
    let mut records = vec![];
    append_damage(Some(flat(1_000)), 250, 30, Some(flat(7)), &mut hits, &mut records);
    assert_eq!(hits, vec![flat(2_500)]);
    assert_eq!(records, vec![AccumulatedDamage { ticks: 30, damage: Some(flat(7)) }]);
    append_damage(None, 250, 30, Some(flat(7)), &mut hits, &mut records);
    assert_eq!(hits.len(), 1);
    assert_eq!(records.len(), 1);
}

#[test]
fn damage_over_time_lands_every_interval() {
    let mut hits = vec![];
    let mut records = vec![];
    append_damage_over_time(Some(flat(300)), 90, 30, 100, None, &mut hits, &mut records);
    assert_eq!(hits, vec![flat(270); 3]);
    let ticks: Vec<u16> = records.iter().map(|r: &AccumulatedDamage| r.ticks).collect();
    assert_eq!(ticks, vec![30, 60, 90]);
    append_damage_over_time(Some(flat(300)), 90, 30, 29, None, &mut hits, &mut records);
    assert_eq!(hits.len(), 3);
    append_damage_over_time(None, 90, 30, 300, None, &mut hits, &mut records);
    assert_eq!(records.len(), 3);
}

#[test]
fn heat_vision_coefficients_by_target() {
    let torment = Params::of(Difficulty::Torment);
    assert_eq!(heat_vision_percent(&torment, 0), Some(100));
    assert_eq!(heat_vision_percent(&torment, 1), Some(20));
    assert_eq!(heat_vision_percent(&torment, 2), Some(10));
    assert_eq!(heat_vision_percent(&torment, 3), None);
    let lunatic = Params::of(Difficulty::Lunatic);
    assert_eq!(heat_vision_percent(&lunatic, 9), Some(40));
    assert_eq!(heat_vision_percent(&lunatic, 10), None);
    let normal = Params::of(Difficulty::Normal);
    assert_eq!(heat_vision_percent(&normal, 0), Some(90));
    assert_eq!(heat_vision_percent(&normal, 1), None);
}

#[test]
fn the_amplifier_buff_starts_once() {
    let buff = Effect::Buff { ty: BuffKind::Atk, scale: 51, amount: 0 };
    let mut kei = Marked { effects: SkillsBitMask(0b100), remained: vec![] };
    apply_once(&mut kei, 7, 750, buff);
    assert_eq!(kei.effects.0, 0b1000_0100);
    assert_eq!(kei.remained, vec![RemainedEffects { ticks: 750, effect: buff, source: 7 }]);
    apply_once(&mut kei, 7, 750, buff);
    assert_eq!(kei.remained.len(), 1);
    let mut caster = Marked { effects: SkillsBitMask(0), remained: vec![] };
    let mut targets = vec![
        Marked { effects: SkillsBitMask(0), remained: vec![] },
        Marked { effects: SkillsBitMask(0), remained: vec![] },
        Marked { effects: SkillsBitMask(1 << 7), remained: vec![] },
    ];
    KeiExSkill::apply(&mut caster, &mut targets, &[true, false, true], 7, 750, buff);
    assert_eq!(targets[0].remained.len(), 1);
    assert_eq!(targets[0].effects.0, 1 << 7);
    assert!(targets[1].remained.is_empty());
    assert!(targets[2].remained.is_empty());
    assert_eq!(caster.effects.0, 1 << 7);
    assert_eq!(caster.remained.len(), 1);
}

fn target(looked_up: u64) -> HitTarget {
    HitTarget { hits: vec![], records: vec![], looked_up: Some(flat(looked_up)) }
}

#[test]
fn every_target_takes_one_hit() {
    let mut targets = vec![target(1), target(2)];
    hit_each(Some(flat(1_000)), 250, 4, &mut targets);
    for (i, t) in targets.iter().enumerate() {
        assert_eq!(t.hits, vec![flat(2_500)]);
        assert_eq!(t.records, vec![AccumulatedDamage { ticks: 4, damage: Some(flat(i as u64 + 1)) }]);
    }
    let mut none = vec![target(1)];
    hit_each(None, 250, 4, &mut none);
    assert!(none[0].hits.is_empty() && none[0].records.is_empty());
    let p = Params::of(Difficulty::Normal);
    let mut wet = vec![target(3)];
    aqua_ball_apply(Some(flat(100)), &p, 0, &mut wet);
    assert_eq!(wet[0].hits, vec![flat(400)]);
}

#[test]
fn hyper_spiral_hits_only_on_a_full_gauge() {
    let p = Params::of(Difficulty::Normal);
    let mut boss = PerorodzillaState { atg_percent: 90, ..PerorodzillaState::default() };
    let mut targets = vec![target(1)];
    assert!(!hyper_spiral_apply(&mut boss, Some(flat(100)), &p, 0, &mut targets));
    assert!(targets[0].hits.is_empty());
    assert_eq!(boss.atg_percent, 90);
    boss.atg_percent = 100;
    assert!(hyper_spiral_apply(&mut boss, Some(flat(100)), &p, 0, &mut targets));
    assert_eq!(targets[0].hits, vec![flat(300)]);
    assert_eq!(boss.atg_percent, 0);
}

#[test]
fn heat_vision_burns_along_its_chain() {
    let p = Params::of(Difficulty::Torment);
    let mut targets: Vec<HitTarget> = (0..5).map(target).collect();
    heat_vision_apply(Some(flat(1_000)), &p, &mut targets);
    let ticks = (p.dot_duration / p.dot_interval) as usize;
    assert_eq!(targets[0].hits, vec![flat(1_000); ticks]);
    assert_eq!(targets[1].hits, vec![flat(200); ticks]);
    assert_eq!(targets[2].hits, vec![flat(100); ticks]);
    assert!(targets[3].hits.is_empty() && targets[4].records.is_empty());
    assert_eq!(targets[1].records[0], AccumulatedDamage { ticks: p.dot_interval, damage: Some(flat(1)) });
    assert_eq!(targets[1].records.len(), ticks);
}
