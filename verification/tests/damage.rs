use raidsim::base::BaseStats;
use raidsim::damage::{
    apply_def, attack_max_damage, checked_attack_max_damage, crit_rate_fraction, Damage,
    DamageMap, Uniform,
};
use raidsim::key::SkillsBitMask;
use raidsim::types::{ArmorType, AttackType};

fn damage(normal: (u64, u64), crit: (u64, u64), num: u32, den: u32) -> Damage {
    Damage::new(normal.1, normal.0, crit.1, crit.0, num, den)
}

#[test]
fn new_keeps_each_bound() {
    let d = Damage::new(200, 100, 400, 300, 1, 4);
    assert_eq!(d.normal, Uniform { min: 100, max: 200 });
    assert_eq!(d.crit, Uniform { min: 300, max: 400 });
    assert_eq!((d.crit_num, d.crit_den), (1, 4));
    let z = Damage::default();
    assert_eq!((z.normal.max, z.crit.max, z.crit_num, z.crit_den), (0, 0, 0, 1));
}

#[test]
fn expected_value_weights_the_two_ranges() {
    assert_eq!(damage((100, 200), (300, 400), 1, 4).expected_value(), 200);
    assert_eq!(damage((100, 200), (300, 400), 0, 1).expected_value(), 150);
    assert_eq!(damage((100, 200), (300, 400), 1, 1).expected_value(), 350);
    assert_eq!(damage((1, 2), (3, 4), 1, 2).expected_value(), 2);
}

#[test]
fn scaling_up_and_down() {
    let d = damage((100, 200), (300, 401), 1, 4);
    let up = d * 3;
    assert_eq!((up.normal.min, up.normal.max, up.crit.min, up.crit.max), (300, 600, 900, 1203));
    assert_eq!((up.crit_num, up.crit_den), (1, 4));
    let down = d / 2;
    assert_eq!((down.normal.min, down.normal.max, down.crit.min, down.crit.max), (50, 100, 150, 200));
    assert_eq!((d * 7) / 7, d);
}

#[test]
fn defense_and_critical_formulas() {
    assert_eq!(apply_def(10_000, 334, 0), 8_330);
    assert_eq!(apply_def(10_000, 1_334, 1_000), 8_330);
    assert_eq!(apply_def(1_000, 0, 0), 0);
    assert_eq!(crit_rate_fraction(300, 100), (200, 866));
    assert_eq!(crit_rate_fraction(100, 100), (0, 666));
}

fn attacker() -> BaseStats {
    BaseStats {
        atk: 1_000,
        attack_type: AttackType::Explosive,
        explosive_effectiveness: 20_000,
        dmg_dealt: 20_000,
        ..BaseStats::default()
    }
}

fn defender(armor: ArmorType) -> BaseStats {
    BaseStats { def: 334, dmg_resist: 10_000, armor_type: armor, ..BaseStats::default() }
}

#[test]
fn max_damage_step_by_step() {
    // 1000 * (2 + 200) = 202000; through defense 202000 / 2000 * 1666 = 168266; twice dealt;
    // nothing resisted; then 150 / 100.
    assert_eq!(attack_max_damage(&attacker(), &defender(ArmorType::Light), 150, 100), 504_798);
    // Not weak-hitting: the effectiveness bonus is left out and the scale is 100.
    // 1000 * 100 = 100000; 100000 / 2000 * 1666 = 83300; twice dealt = 166600.
    assert_eq!(attack_max_damage(&attacker(), &defender(ArmorType::Normal), 1, 1), 166_600);
}

#[test]
fn resistance_takes_its_share() {
    let mut tgt = defender(ArmorType::Normal);
    tgt.dmg_resist = 12_500;
    // 166600 less a quarter of it.
    assert_eq!(attack_max_damage(&attacker(), &tgt, 1, 1), 124_950);
}

#[test]
fn damage_map_keeps_the_last_entry_per_mask() {
    let a = damage((1, 2), (3, 4), 0, 1);
    let b = damage((5, 6), (7, 8), 0, 1);
    let c = damage((9, 10), (11, 12), 0, 1);
    let map = DamageMap::from_entries(vec![
        (SkillsBitMask(8), a),
        (SkillsBitMask(16), b),
        (SkillsBitMask(8), c),
    ]);
    assert_eq!(map.get(SkillsBitMask(8)), Some(c));
    assert_eq!(map.get(SkillsBitMask(16)), Some(b));
    assert_eq!(map.get(SkillsBitMask(32)), None);
}

#[test]
fn checked_max_damage_refuses_what_overflows() {
    assert_eq!(checked_attack_max_damage(&attacker(), &defender(ArmorType::Light), 150, 100), Some(504_798));
    assert_eq!(checked_attack_max_damage(&attacker(), &defender(ArmorType::Light), 1, 0), None);
    let mut tgt = defender(ArmorType::Normal);
    tgt.dmg_resist = 9_999;
    assert_eq!(checked_attack_max_damage(&attacker(), &tgt, 1, 1), None);
    let mut piercing = attacker();
    piercing.defense_piercing = 335;
    assert_eq!(checked_attack_max_damage(&piercing, &defender(ArmorType::Normal), 1, 1), None);
    assert_eq!(checked_attack_max_damage(&attacker(), &defender(ArmorType::Normal), u64::MAX, 1), None);
}
