use raidsim::actions::BossKind;
use raidsim::base::BaseStats;
use raidsim::binah::{data_keys_are_unique, Binah, BinahDataError, DifficultyWrapper};
use raidsim::binah_params::{RawAtsilutsLight, RawFiresOfSeverity, RawPurifyingStorm, RawSkills};
use raidsim::boss::{Boss, BossDataError, BossFile, DifficultyEntry};
use raidsim::boss_skills::{build_skills, BossSkillKind, BossSkillParams, SkillHeader};
use raidsim::difficulty::{ByDifficulty, Difficulty};
use raidsim::effect::EffectTiming;
use raidsim::skill_effect::atsiluts_light_effects;
use raidsim::locale::{Language, LocalizedName};
use raidsim::skill::SkillType;
use raidsim::terrains::Terrain;
use raidsim::types::{ArmorType, AttackType};
use raidsim::uid::{SkillUid, Uid};

fn name(en: &str) -> LocalizedName {
    LocalizedName { ko: format!("ko {en}"), ja: format!("ja {en}"), en: en.to_string() }
}

fn entry(hp: u64) -> DifficultyEntry {
    DifficultyEntry {
        stats: BaseStats { hp, ..BaseStats::default() },
        groggy_gauge: 10_000,
        groggy_duration: 5,
        phase_switching_hp: [hp / 2, hp / 4, 0],
    }
}

fn file() -> BossFile {
    BossFile {
        id: 7,
        name: name("Binah"),
        by_armor: vec![
            (ArmorType::Heavy, vec![(Difficulty::Normal, entry(1_000)), (Difficulty::Lunatic, entry(50_000_000))]),
            (ArmorType::Special, vec![(Difficulty::Lunatic, entry(40_000_000))]),
        ],
    }
}

#[test]
fn boss_takes_the_stats_of_its_fight() {
    let boss = Boss::new(&file(), ArmorType::Heavy, Difficulty::Lunatic, Terrain::Outdoor, vec![], Language::En)
        .expect("the entry is there");
    assert_eq!(boss.stats.name, "Binah");
    assert_eq!(boss.stats.id, 7);
    assert_eq!(boss.stats.base_stats.hp, 50_000_000);
    assert_eq!(boss.stats.phase_switching_hp, [25_000_000, 12_500_000, 0]);
    assert_eq!(boss.stats.terrain, Terrain::Outdoor);
    assert_eq!(boss.stats.difficulty, Difficulty::Lunatic);
    assert_eq!(boss.stats.groggy_gauge, 10_000);
    assert_eq!(boss.id(), Uid(7));
    assert_eq!(boss.stats().hp, 50_000_000);
    assert!(boss.skills().is_empty());
    let ko = Boss::new(&file(), ArmorType::Special, Difficulty::Lunatic, Terrain::Street, vec![], Language::Ko)
        .unwrap();
    assert_eq!(ko.stats.name, "ko Binah");
    assert_eq!(ko.stats.base_stats.hp, 40_000_000);
}

#[test]
fn boss_refuses_a_missing_armor_or_difficulty() {
    let e = Boss::new(&file(), ArmorType::Light, Difficulty::Lunatic, Terrain::Street, vec![], Language::En).err();
    assert_eq!(e, Some(BossDataError::MissingArmor { armor: ArmorType::Light, boss: 7 }));
    let e = Boss::new(&file(), ArmorType::Special, Difficulty::Normal, Terrain::Street, vec![], Language::En).err();
    assert_eq!(e, Some(BossDataError::MissingDifficulty { difficulty: Difficulty::Normal, boss: 7 }));
}

fn table<T: Copy>(v: [T; 8]) -> ByDifficulty<T> {
    ByDifficulty(v)
}

fn raw_skills() -> RawSkills {
    RawSkills {
        atsiluts_light: RawAtsilutsLight {
            name: name("Atsilut's Light"),
            cost: table([0; 8]),
            duration: table([60, 60, 60, 60, 60, 60, 90, 90]),
            frames: table([30; 8]),
            instant_percent: table([100, 110, 120, 130, 140, 150, 160, 200]),
            dot_percent: table([10; 8]),
            dot_interval: table([180; 8]),
            dot_duration: table([0, 0, 0, 0, 0, 0, 900, 7200]),
        },
        fires_of_severity: RawFiresOfSeverity {
            name: name("Fires of Severity"),
            cost: table([1, 1, 1, 1, 1, 2, 2, 2]),
            duration: table([45; 8]),
            frames: table([15; 8]),
            all_percent: table([75, 75, 75, 75, 75, 150, 150, 150]),
            nearest_percents: table([[375, 188, 188, 94]; 8]),
        },
        purifying_storm: RawPurifyingStorm {
            name: name("Purifying Storm"),
            cost: table([3; 8]),
            duration: table([30; 8]),
            frames: table([20; 8]),
            percent: table([300; 8]),
            def_down_scale: table([50; 8]),
            def_down_duration: table([450, 450, 450, 450, 450, 450, 450, 3600]),
            count: table([4; 8]),
        },
    }
}

fn header_numbers(h: &SkillHeader) -> (u8, u16, u16) {
    (h.cost(), h.duration(), h.frames())
}

#[test]
fn binah_skills_take_their_numbers_from_the_data() {
    let f = file();
    let raw = raw_skills();
    let skills = build_skills(BossKind::Binah, &f, Some(&raw), Difficulty::Lunatic, 20, Language::En).unwrap();
    assert_eq!(skills.len(), 3);
    assert_eq!(skills[0].kind, BossSkillKind::BinahAtsilutsLight);
    assert_eq!(skills[1].kind, BossSkillKind::BinahFiresofSeverity);
    assert_eq!(skills[2].kind, BossSkillKind::BinahPurifyingStorm);
    assert_eq!(skills[0].header.name(), "Atsilut's Light");
    assert_eq!(skills[2].header.name(), "Purifying Storm");
    assert_eq!(header_numbers(&skills[0].header), (0, 90, 30));
    assert_eq!(header_numbers(&skills[1].header), (2, 45, 15));
    assert_eq!(header_numbers(&skills[2].header), (3, 30, 20));
    for (i, s) in skills.iter().enumerate() {
        assert_eq!(s.header.owner_uid(), Uid(7));
        assert_eq!(s.header.skill_offset(), 20 + i);
        assert_eq!(s.header.owner_offset, i);
        assert_eq!(s.header.skill_type(), SkillType::Ex);
        assert_eq!(s.header.uid(), SkillUid(Uid(7), 20 + i));
    }
    match skills[0].params {
        BossSkillParams::AtsilutsLight(p) => {
            assert_eq!((p.instant_percent, p.dot_duration), (200, 7200));
        },
        _ => panic!("Atsilut's Light takes its own numbers"),
    }
    match skills[1].params {
        BossSkillParams::FiresOfSeverity(p) => {
            assert_eq!(p.all_percent, 150);
            assert_eq!(p.nearest_percents, [375, 188, 188, 94]);
        },
        _ => panic!("Fires of Severity takes its own numbers"),
    }
    match skills[2].params {
        BossSkillParams::PurifyingStorm(p) => assert_eq!(p.def_down_duration, 3600),
        _ => panic!("Purifying Storm takes its own numbers"),
    }
}

#[test]
fn binah_skills_follow_the_difficulty() {
    let f = file();
    let raw = raw_skills();
    let normal = build_skills(BossKind::Binah, &f, Some(&raw), Difficulty::Normal, 0, Language::En).unwrap();
    match normal[2].params {
        BossSkillParams::PurifyingStorm(p) => assert_eq!(p.def_down_duration, 450),
        _ => panic!("Purifying Storm takes its own numbers"),
    }
    assert_eq!(header_numbers(&normal[1].header), (1, 45, 15));
}

#[test]
fn binah_without_its_numbers_has_no_skills() {
    let e = build_skills(BossKind::Binah, &file(), None, Difficulty::Lunatic, 0, Language::En).err();
    assert_eq!(e, Some(BossDataError::MissingSkills { boss: 7 }));
}

#[test]
fn goz_skills_carry_fixed_numbers() {
    let skills = build_skills(BossKind::Goz, &file(), None, Difficulty::Hard, 3, Language::Ja).unwrap();
    let kinds: Vec<BossSkillKind> = skills.iter().map(|s| s.kind).collect();
    assert_eq!(
        kinds,
        vec![BossSkillKind::GozMagicalCoinHat, BossSkillKind::GozNowYouSeeUs, BossSkillKind::GozThreeLightMonte]
    );
    assert_eq!(header_numbers(&skills[0].header), (0, 210, 150));
    assert_eq!(header_numbers(&skills[1].header), (0, 0, 0));
    assert_eq!(header_numbers(&skills[2].header), (3, 210, 48));
    assert_eq!(skills[0].header.owner_offset, 2);
    assert_eq!(skills[1].header.owner_offset, 0);
    assert_eq!(skills[2].header.skill_offset, 5);
    assert!(skills.iter().all(|s| s.header.name == "ja Binah"));
}

#[test]
fn perorodzilla_skills_end_with_a_passive() {
    let skills = build_skills(BossKind::Perorodzilla, &file(), None, Difficulty::Torment, 0, Language::En).unwrap();
    assert_eq!(skills.len(), 6);
    assert_eq!(header_numbers(&skills[0].header), (0, 300, 109));
    assert_eq!(skills[5].kind, BossSkillKind::PerorodzillaBurningPerorodzilla);
    assert_eq!(skills[5].header.skill_type, SkillType::Passive);
    assert!(skills[..5].iter().all(|s| s.header.skill_type == SkillType::Ex));
    for s in &skills {
        match s.params {
            BossSkillParams::Perorodzilla(p) => {
                assert_eq!(p.chain_count, 2);
                assert_eq!(p.groggy_denominator, 12);
            },
            _ => panic!("Perorodzilla's skills share its numbers"),
        }
    }
}

#[test]
fn skill_header_new_keeps_its_fields() {
    let h = SkillHeader::new(Uid(3), 1, "Ex", 9, SkillType::Basic, 4, 90, 12);
    assert_eq!(h.name(), "Ex");
    assert_eq!(h.uid(), SkillUid(Uid(3), 9));
    assert_eq!(header_numbers(&h), (4, 90, 12));
    assert_eq!(h.skill_type(), SkillType::Basic);
}

fn wrapper(hp: u64) -> DifficultyWrapper {
    DifficultyWrapper {
        stats: BaseStats { hp, ..BaseStats::default() },
        groggy_gauge: 3_000,
        groggy_duration: 8,
        phase_switching_hp: [hp / 3, hp / 6],
    }
}

#[test]
fn binah_reads_its_attack_type_and_difficulty() {
    let data = vec![
        (AttackType::Piercing, vec![(Difficulty::Insane, wrapper(9_000)), (Difficulty::Torment, wrapper(18_000))]),
        (AttackType::Mystic, vec![(Difficulty::Torment, wrapper(27_000))]),
    ];
    let b = Binah::from_file(&data, Difficulty::Torment, AttackType::Piercing, Terrain::Indoor).unwrap();
    assert_eq!(b.stats.name, "Binah");
    assert_eq!(b.hp(), 18_000);
    assert_eq!(b.phase_switching_hp, [6_000, 3_000]);
    assert_eq!(b.stats.groggy_duration, 8);
    assert_eq!(b.stats.terrain, Terrain::Indoor);
    assert_eq!(b.difficulty, Difficulty::Torment);
    assert_eq!(
        Binah::from_file(&data, Difficulty::Torment, AttackType::Sonic, Terrain::Indoor).err(),
        Some(BinahDataError::MissingAttackType { attack_type: AttackType::Sonic })
    );
    assert_eq!(
        Binah::from_file(&data, Difficulty::Insane, AttackType::Mystic, Terrain::Indoor).err(),
        Some(BinahDataError::MissingDifficulty { difficulty: Difficulty::Insane })
    );
}

/// Binah's file with the Heavy entry at Lunatic as the game's data has it.
fn binah_file() -> BossFile {
    let lunatic = DifficultyEntry {
        stats: BaseStats { hp: 50_000_000, ..BaseStats::default() },
        groggy_gauge: 10_000_000,
        groggy_duration: 10,
        phase_switching_hp: [25_000_000, 12_500_000, 0],
    };
    BossFile {
        id: 7,
        name: name("Binah"),
        by_armor: vec![(ArmorType::Heavy, vec![(Difficulty::Normal, entry(1_000)), (Difficulty::Lunatic, lunatic)])],
    }
}

#[test]
fn binah_lunatic_skills() {
    let f = binah_file();
    assert!(f.keys_are_unique());
    let skills = build_skills(BossKind::Binah, &f, Some(&raw_skills()), Difficulty::Lunatic, 0, Language::En).unwrap();
    let boss = Boss::new(&f, ArmorType::Heavy, Difficulty::Lunatic, Terrain::Outdoor, skills, Language::En)
        .expect("failed to load binah");

    assert_eq!(boss.skills().len(), 3);
    assert_eq!(boss.skills()[2].header.cost(), 3);
    assert_eq!(boss.skills()[2].header.duration(), 30);
}

#[test]
fn skill_params_follow_difficulty() {
    let f = binah_file();
    let mut raw = raw_skills();
    raw.atsiluts_light.dot_interval = table([90; 8]);
    raw.atsiluts_light.dot_duration = table([450, 450, 450, 450, 450, 450, 900, 3600]);
    let effects = |d: Difficulty| {
        let skills = build_skills(BossKind::Binah, &f, Some(&raw), d, 0, Language::En).unwrap();
        match skills[0].params {
            BossSkillParams::AtsilutsLight(p) => atsiluts_light_effects::<u8>((Uid(7), skills[0].header.skill_offset()), &p, 0),
            _ => panic!("Atsilut's Light takes its own numbers"),
        }
    };
    let normal = effects(Difficulty::Normal);
    let lunatic = effects(Difficulty::Lunatic);

    assert_ne!(normal[0].targets, lunatic[0].targets);
    assert_eq!(normal[1].timing, EffectTiming::Persistent { interval_frames: 90, duration_frames: 450 });
    assert_eq!(lunatic[1].timing, EffectTiming::Persistent { interval_frames: 90, duration_frames: 3600 });
}

#[test]
fn load_binah_lunatic() {
    let boss = Boss::new(&binah_file(), ArmorType::Heavy, Difficulty::Lunatic, Terrain::Outdoor, Vec::new(), Language::En)
        .expect("failed to load binah");

    assert_eq!(boss.stats().hp, 50_000_000);
    assert_eq!(boss.stats.groggy_gauge, 10_000_000);
}

#[test]
fn boss_files_with_a_repeated_key_are_caught() {
    let mut f = binah_file();
    assert!(f.keys_are_unique());
    f.by_armor[0].1.push((Difficulty::Normal, entry(5)));
    assert!(!f.keys_are_unique());
    let mut g = binah_file();
    g.by_armor.push((ArmorType::Heavy, vec![]));
    assert!(!g.keys_are_unique());
    let data = vec![(AttackType::Explosive, vec![(Difficulty::Normal, wrapper(1)), (Difficulty::Hard, wrapper(2))])];
    assert!(data_keys_are_unique(&data));
    let twice = vec![(AttackType::Explosive, vec![]), (AttackType::Explosive, vec![])];
    assert!(!data_keys_are_unique(&twice));
}
