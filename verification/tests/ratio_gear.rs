use std::cmp::Ordering;

use raidsim::gear::{check_slot, GearKind, GearSlotTable, GearStat, GearTable, GearTableError, SlotFault};
use raidsim::ratio::{fraction_length, parse_i64, strip_points, Ratio, RatioTextError};
use raidsim::stat::{StatKind, StatValueKind};

fn ratio(num: i64, exp: u8) -> Ratio {
    Ratio::new(num, exp)
}

#[test]
fn ratio_drops_trailing_zeros() {
    let r = ratio(250, 2);
    assert_eq!(r.num(), 25);
    assert_eq!(r.den(), 10);
    assert_eq!(r, ratio(25, 1));
    assert_eq!(ratio(700, 0).num(), 700);
    assert_eq!(ratio(700, 0).den(), 1);
    assert_eq!(ratio(0, 5), Ratio::default());
}

#[test]
fn ratio_caps_the_places() {
    let r = ratio(1, 30);
    assert_eq!(r.den(), 1_000_000_000_000_000_000);
    assert_eq!(r.num(), 1);
}

#[test]
fn ratio_multiplies_before_dividing() {
    assert_eq!(ratio(25, 1).apply(100), 250);
    assert_eq!(ratio(15, 1).apply(3), 4);
    assert_eq!(ratio(-15, 1).apply(3), -4);
    assert_eq!(ratio(333, 3).apply(1000), 333);
    assert_eq!(ratio(5, 1).apply(i64::MAX), i64::MAX / 2);
}

#[test]
fn ratio_compares_by_value() {
    assert!(ratio(25, 1) < ratio(4, 0));
    assert!(ratio(64, 1) > ratio(6, 0));
    assert_eq!(ratio(5, 1).partial_cmp(&ratio(50, 2)), Some(Ordering::Equal));
    assert!(ratio(-1, 0) < ratio(0, 0));
}

#[test]
fn decimal_text_reads_places_and_digits() {
    let r = Ratio::from_decimal_text(b"6.4").unwrap();
    assert_eq!((r.num(), r.den()), (64, 10));
    let r = Ratio::from_decimal_text(b"64").unwrap();
    assert_eq!((r.num(), r.den()), (64, 1));
    let r = Ratio::from_decimal_text(b"-2.50").unwrap();
    assert_eq!((r.num(), r.den()), (-25, 10));
    assert_eq!(fraction_length(b"1.25"), 2);
    assert_eq!(fraction_length(b"125"), 0);
    assert_eq!(strip_points(b"1.25"), b"125".to_vec());
    assert_eq!(parse_i64(b"-42"), Some(-42));
    assert_eq!(parse_i64(b"+7"), Some(7));
    assert_eq!(parse_i64(b"-"), None);
    assert_eq!(parse_i64(b"9223372036854775808"), None);
    assert_eq!(parse_i64(b"-9223372036854775808"), Some(i64::MIN));
}

#[test]
fn decimal_text_errors() {
    assert_eq!(
        Ratio::from_decimal_text(b"0.1234567890123456789"),
        Err(RatioTextError::TooManyDecimals)
    );
    assert_eq!(
        Ratio::from_decimal_text(b"99999999999999999999"),
        Err(RatioTextError::OutOfRange)
    );
    assert_eq!(Ratio::from_decimal_text(b"1x"), Err(RatioTextError::OutOfRange));
}

fn curve(step: i64) -> [[Ratio; 2]; 10] {
    let mut c = [[Ratio::default(); 2]; 10];
    for (i, tier) in c.iter_mut().enumerate() {
        let lo = (i as i64) * step;
        *tier = [ratio(lo, 0), ratio(lo + step / 2, 0)];
    }
    c
}

fn stat(s: StatKind, k: StatValueKind) -> GearStat {
    GearStat { stat: s, kind: k, curve: curve(10) }
}

fn table() -> GearTable {
    GearTable {
        max_level_with_tier: [10, 20, 30, 40, 45, 50, 55, 60, 65, 70],
        slots: GearSlotTable {
            hat: vec![stat(StatKind::Atk, StatValueKind::Scale), stat(StatKind::Crit, StatValueKind::Amount)],
            gloves: vec![stat(StatKind::Atk, StatValueKind::Scale)],
            shoes: vec![stat(StatKind::Atk, StatValueKind::Scale)],
            bag: vec![stat(StatKind::Hp, StatValueKind::Amount), stat(StatKind::Hp, StatValueKind::Scale)],
            badge: vec![stat(StatKind::Hp, StatValueKind::Amount)],
            hairpin: vec![stat(StatKind::Healing, StatValueKind::Amount)],
            amulet: vec![stat(StatKind::CritRes, StatValueKind::Amount)],
            wristwatch: vec![stat(StatKind::Crit, StatValueKind::Amount)],
            necklace: vec![stat(StatKind::Healing, StatValueKind::Scale)],
        },
    }
}

#[test]
fn a_sound_table_validates() {
    let t = table();
    assert_eq!(t.validate(), Ok(()));
    assert_eq!(t.gear_stats(GearKind::Bag).len(), 2);
    assert_eq!(t.gear_stats(GearKind::Amulet)[0].stat, StatKind::CritRes);
    assert_eq!(t.gear_stats(GearKind::Necklace)[0].kind, StatValueKind::Scale);
}

#[test]
fn validate_rejects_flat_max_level() {
    let mut t = table();
    t.max_level_with_tier[3] = t.max_level_with_tier[2];
    assert_eq!(t.validate(), Err(GearTableError::TierLevelNotIncreasing { tier: 2 }));
}

#[test]
fn validate_refuses_a_repeated_stat() {
    let mut t = table();
    t.slots.badge.push(stat(StatKind::Hp, StatValueKind::Amount));
    assert_eq!(t.validate(), Err(GearTableError::DuplicateStat { gear: GearKind::Badge, index: 1 }));
}

#[test]
fn validate_rejects_tier_regression() {
    let mut t = table();
    t.slots.hat[0].curve[3][1] = ratio(9999, 0);
    assert_eq!(
        t.validate(),
        Err(GearTableError::TierRegression { gear: GearKind::Hat, index: 0, tier: 3 })
    );
}

#[test]
fn validate_rejects_reversed_last_tier() {
    let mut t = table();
    t.slots.hat[0].curve[9].swap(0, 1);
    assert_eq!(
        t.validate(),
        Err(GearTableError::ReversedTier { gear: GearKind::Hat, index: 0, tier: 9 })
    );
}

#[test]
fn slot_faults_name_their_gear() {
    let mut s = vec![stat(StatKind::Atk, StatValueKind::Scale)];
    assert!(check_slot(&s).is_ok());
    s.push(stat(StatKind::Atk, StatValueKind::Scale));
    let fault = check_slot(&s).err().unwrap();
    assert_eq!(fault.at(GearKind::Shoes), GearTableError::DuplicateStat { gear: GearKind::Shoes, index: 1 });
    assert_eq!(
        SlotFault::Reversed { index: 2, tier: 4 }.at(GearKind::Bag),
        GearTableError::ReversedTier { gear: GearKind::Bag, index: 2, tier: 4 }
    );
}

/// A curve whose first tier is `first` and whose later tiers are whole numbers.
fn curve_from(first: [Ratio; 2]) -> [[Ratio; 2]; 10] {
    let mut c = [[Ratio::default(); 2]; 10];
    c[0] = first;
    for (i, tier) in c.iter_mut().enumerate().skip(1) {
        *tier = [ratio(1000 * i as i64, 0), ratio(1000 * i as i64 + 500, 0)];
    }
    c
}

fn row(s: StatKind, k: StatValueKind, first: [Ratio; 2]) -> GearStat {
    GearStat { stat: s, kind: k, curve: curve_from(first) }
}

fn text(t: &str) -> Ratio {
    Ratio::from_decimal_text(t.as_bytes()).unwrap()
}

/// A table shaped like the game's gear data: the rows of each slot and their first tiers.
fn data_shaped_table() -> GearTable {
    let one = [ratio(1, 0), ratio(2, 0)];
    GearTable {
        max_level_with_tier: [10, 20, 30, 40, 45, 50, 55, 60, 65, 70],
        slots: GearSlotTable {
            hat: vec![row(StatKind::Atk, StatValueKind::Scale, [text("5"), text("8")]), row(StatKind::CritDmg, StatValueKind::Amount, one)],
            gloves: vec![row(StatKind::Atk, StatValueKind::Scale, [text("4"), text("6.4")]), row(StatKind::Crit, StatValueKind::Amount, one), row(StatKind::Accuracy, StatValueKind::Amount, one)],
            shoes: vec![row(StatKind::Atk, StatValueKind::Scale, [text("2.5"), text("4")]), row(StatKind::Hp, StatValueKind::Amount, one)],
            bag: vec![row(StatKind::Hp, StatValueKind::Amount, [text("375"), text("600")]), row(StatKind::Hp, StatValueKind::Scale, one), row(StatKind::Def, StatValueKind::Amount, one)],
            badge: vec![row(StatKind::Hp, StatValueKind::Amount, one), row(StatKind::RecoveryBoost, StatValueKind::Amount, one), row(StatKind::Def, StatValueKind::Scale, one), row(StatKind::Evasion, StatValueKind::Amount, one)],
            hairpin: vec![row(StatKind::Healing, StatValueKind::Amount, one), row(StatKind::CcRes, StatValueKind::Amount, one), row(StatKind::Hp, StatValueKind::Amount, one)],
            amulet: vec![row(StatKind::CritRes, StatValueKind::Amount, one), row(StatKind::CritDmgRes, StatValueKind::Amount, one)],
            wristwatch: vec![row(StatKind::Crit, StatValueKind::Amount, one), row(StatKind::CritDmg, StatValueKind::Amount, one)],
            necklace: vec![row(StatKind::Healing, StatValueKind::Amount, one), row(StatKind::RecoveryBoost, StatValueKind::Scale, one)],
        },
    }
}

#[test]
fn gear_stats_maps_every_slot() {
    let table = data_shaped_table();

    assert_eq!(table.gear_stats(GearKind::Hat).len(), 2);
    assert_eq!(table.gear_stats(GearKind::Hat)[0].curve[0], [ratio(5, 0), ratio(8, 0)]);

    assert_eq!(table.gear_stats(GearKind::Gloves).len(), 3);
    assert_eq!(table.gear_stats(GearKind::Gloves)[0].curve[0], [ratio(4, 0), ratio(64, 1)]);

    assert_eq!(table.gear_stats(GearKind::Shoes).len(), 2);
    assert_eq!(table.gear_stats(GearKind::Shoes)[0].curve[0], [ratio(25, 1), ratio(4, 0)]);

    assert_eq!(table.gear_stats(GearKind::Bag).len(), 3);
    assert_eq!(table.gear_stats(GearKind::Bag)[0].stat, StatKind::Hp);
    assert_eq!(table.gear_stats(GearKind::Bag)[0].curve[0], [ratio(375, 0), ratio(600, 0)]);

    assert_eq!(table.gear_stats(GearKind::Badge).len(), 4);
    assert_eq!(table.gear_stats(GearKind::Badge)[1].stat, StatKind::RecoveryBoost);

    assert_eq!(table.gear_stats(GearKind::Hairpin).len(), 3);
    assert_eq!(table.gear_stats(GearKind::Hairpin)[1].stat, StatKind::CcRes);

    assert_eq!(table.gear_stats(GearKind::Amulet)[0].stat, StatKind::CritRes);
    assert_eq!(table.gear_stats(GearKind::Wristwatch)[0].stat, StatKind::Crit);
    assert_eq!(table.gear_stats(GearKind::Necklace)[0].stat, StatKind::Healing);
}

#[test]
fn stat_and_kind_pairs_are_unique_in_a_slot() {
    let table = data_shaped_table();
    for kind in GearKind::ALL {
        let stats = table.gear_stats(kind);
        let mut pairs: Vec<(StatKind, StatValueKind)> = stats.iter().map(|s| (s.stat, s.kind)).collect();
        pairs.sort_by_key(|p| format!("{p:?}"));
        pairs.dedup();
        assert_eq!(pairs.len(), stats.len(), "duplicated stat in {kind:?}");
    }
    assert_eq!(table.validate(), Ok(()));
}

#[test]
fn curve_keeps_decimals() {
    let table = data_shaped_table();

    let gloves_atk = &table.gear_stats(GearKind::Gloves)[0];
    assert_eq!(gloves_atk.curve[0][1].num(), 64);
    assert_eq!(gloves_atk.curve[0][1].den(), 10);
    assert_eq!(gloves_atk.curve[9][1].den(), 1);

    let shoes_atk = &table.gear_stats(GearKind::Shoes)[0];
    assert!(shoes_atk.curve[0][0] < shoes_atk.curve[0][1]);
}

#[test]
fn tiers_span_the_levels_between_their_caps() {
    let t = table();
    assert_eq!(t.tier_levels(0), None);
    assert_eq!(t.tier_levels(1), Some((1, 10)));
    assert_eq!(t.tier_levels(4), Some((31, 40)));
    assert_eq!(t.tier_levels(10), Some((66, 70)));
    assert_eq!(t.tier_levels(11), None);
}
