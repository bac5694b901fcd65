use raidsim::actions::ActionContext;
use raidsim::base::BaseStats;
use raidsim::boss_skills::SkillHeader;
use raidsim::context::{buffed_atk, CasterContext, TargetContext};
use raidsim::effect::{BuffKind, DebuffKind, Effect, RemainedEffects};
use raidsim::simulator::{ActionRoute, Caster, Character, SimError, Simulator};
use raidsim::skill::SkillType;
use raidsim::perorodzilla::{absorb_minion_other_apply, summon_minion_other_apply};
use raidsim::state::{ExtraState, State, StateData, StudentState};
use raidsim::states::{KeiState, PerorodzillaState};
use raidsim::difficulty::Difficulty;
use raidsim::uid::{SkillUid, Uid};

fn skill(owner: u64, at: usize, cost: u8) -> SkillHeader {
    SkillHeader::new(Uid(owner), at % 3, "skill", at, SkillType::Ex, cost, 0, 0)
}

fn character(uid: u64, hp: u64, costs: &[u8], first_skill: usize) -> Character {
    Character {
        uid: Uid(uid),
        stats: BaseStats { hp, ..BaseStats::default() },
        skills: costs.iter().enumerate().map(|(i, c)| skill(uid, first_skill + i, *c)).collect(),
        extra: None,
    }
}

fn simulator(cost_per_second: u16) -> Simulator {
    let students: Vec<Character> = (0..6).map(|i| character(100 + i, 1_000 + i, &[3, 2, 5], 3 * i as usize)).collect();
    let boss = character(1, 50_000, &[4, 9], 18);
    let mut skills: Vec<SkillHeader> = students.iter().flat_map(|c| c.skills.clone()).collect();
    skills.extend(boss.skills.clone());
    Simulator::new(students, boss, skills, 3 * 60 * 30, cost_per_second)
}

fn effect(ticks: u16) -> RemainedEffects {
    RemainedEffects { ticks, effect: Effect::Move, source: 0 }
}

#[test]
fn a_fight_starts_fresh() {
    let sim = simulator(20);
    let state = sim.initial_state();
    assert!(matches!(state.students, StudentState::TotalAssault(_)));
    assert_eq!(state.students().len(), 6);
    assert_eq!((state.frames(), state.cost()), (0, 0));
    for (i, s) in state.students().iter().enumerate() {
        assert_eq!(s.uid(), Uid(100 + i as u64));
        assert_eq!(s.cooldowns(), &[0, 0, 0]);
        assert!(s.remained_effects().is_empty());
        assert_eq!(s.common.hp, 1_000 + i as u64);
    }
    assert_eq!(state.boss().cooldowns(), &[0, 0]);
    assert_eq!(state.boss().common.hp, 50_000);
}

#[test]
fn a_party_of_ten_is_a_final_restriction_release() {
    let students: Vec<StateData> = (0..10).map(|i| StateData::new(Uid(i), 1, 3, None)).collect();
    let state = State::new(&students, StateData::new(Uid(99), 1, 1, None), 5, 2);
    assert!(matches!(state.students, StudentState::FinalRestrictionRelease(_)));
    assert_eq!(state.students().len(), 10);
    assert_eq!(state.students()[9].uid(), Uid(9));
}

#[test]
fn advance_runs_cooldowns_and_effects_down() {
    let sim = simulator(20);
    let mut state = sim.initial_state();
    state.boss = StateData::from_parts(Uid(1), 50_000, 7, &[100, 3], vec![effect(10), effect(4), effect(30)], None);
    state.cost = 3;
    let next = sim.advance(&state, 10).unwrap();
    assert_eq!(next.boss().cooldowns(), &[90, 0]);
    assert_eq!(next.boss().remained_effects(), &[effect(20)]);
    assert_eq!(next.boss().common.shield, 7);
    assert_eq!(next.frames(), 10);
    // 10 ticks at 20 cost per second over 30 ticks per second give 6.
    assert_eq!(next.cost(), 9);
    let later = sim.advance(&next, 100).unwrap();
    assert_eq!(later.cost(), 10);
    assert_eq!(later.boss().cooldowns(), &[0, 0]);
    assert!(later.boss().remained_effects().is_empty());
    state.frames = u16::MAX - 1;
    assert_eq!(sim.advance(&state, 10).unwrap().frames(), u16::MAX);
}

#[test]
fn advancing_in_two_steps_is_advancing_once() {
    let sim = simulator(0);
    let mut state = sim.initial_state();
    state.boss = StateData::from_parts(Uid(1), 1, 0, &[100, 25], vec![effect(12), effect(40)], None);
    let two = sim.advance(&sim.advance(&state, 10).unwrap(), 15).unwrap();
    let one = sim.advance(&state, 25).unwrap();
    assert_eq!(two.boss().cooldowns(), one.boss().cooldowns());
    assert_eq!(two.boss().remained_effects(), one.boss().remained_effects());
    assert_eq!(two.frames(), one.frames());
}

#[test]
fn the_next_event_is_the_soonest() {
    let sim = simulator(10);
    let mut state = sim.initial_state();
    assert_eq!(sim.next_event_frames(&state), 0);
    let students: Vec<StateData> = (0..6)
        .map(|i| StateData::from_parts(Uid(100 + i), 1, 0, &[200, 60, 500], vec![], None))
        .collect();
    state = State::new(&students, StateData::from_parts(Uid(1), 1, 0, &[95, 80], vec![effect(70)], None), 0, 0);
    // Student skills cost 3, 2 and 5: 200 / 10 = 20 > 3, 60 / 10 = 6 > 2, 500 / 10 = 50 > 5.
    // The boss's 95 / 10 = 9 is over 4 but 80 / 10 = 8 is within 9; its effect ends at 70.
    assert_eq!(sim.next_event_frames(&state), 70);
    let mut quiet = state.clone();
    quiet.boss = StateData::from_parts(Uid(1), 1, 0, &[95], vec![], None);
    assert_eq!(sim.next_event_frames(&quiet), u16::MAX);
    let mut near = state.clone();
    near.boss = StateData::from_parts(Uid(1), 1, 0, &[30], vec![], None);
    assert_eq!(sim.next_event_frames(&near), 30);
}

#[test]
fn without_cost_only_effects_count() {
    let sim = simulator(0);
    let students: Vec<StateData> = (0..6)
        .map(|i| StateData::from_parts(Uid(100 + i), 1, 0, &[0, 0, 0], if i == 2 { vec![effect(44)] } else { vec![] }, None))
        .collect();
    let state = State::new(&students, StateData::from_parts(Uid(1), 1, 0, &[], vec![effect(5)], None), 0, 0);
    // The boss has no cooldown, so its effect is not looked at.
    assert_eq!(sim.next_event_frames(&state), 44);
}

#[test]
fn legal_actions_are_the_ready_affordable_skills() {
    let sim = simulator(20);
    let mut state = sim.initial_state();
    state.cost = 2;
    let actions = sim.legal_actions(&state, |s: &SkillHeader| vec![s.owner]);
    // Every student's second skill costs 2; the others cost more.
    assert_eq!(actions.len(), 6);
    for (i, a) in actions.iter().enumerate() {
        assert_eq!(a.caster, Uid(100 + i as u64));
        assert_eq!(a.skill, SkillUid(Uid(100 + i as u64), 3 * i + 1));
        assert_eq!(a.targets, vec![Uid(100 + i as u64)]);
    }
    state.cost = 10;
    let mut busy = state.clone();
    if let StudentState::TotalAssault(arr) = &mut busy.students {
        arr[0] = StateData::from_parts(Uid(100), 1, 0, &[0, 9, 0], vec![], None);
    }
    let actions = sim.legal_actions(&busy, |_: &SkillHeader| vec![]);
    assert_eq!(actions.len(), 17);
    assert_eq!(actions[0].skill, SkillUid(Uid(100), 0));
    assert_eq!(actions[1].skill, SkillUid(Uid(100), 2));
}

#[test]
fn characters_and_skills_are_looked_up() {
    let sim = simulator(20);
    assert_eq!(sim.character_by_uid(Uid(1)).map(|c| c.uid()), Some(Uid(1)));
    assert_eq!(sim.character_by_uid(Uid(103)).map(|c| c.stats().hp), Some(1_003));
    assert!(sim.character_by_uid(Uid(7)).is_none());
    assert_eq!(sim.lookup_skill(SkillUid(Uid(1), 19)).map(|s| s.cost()), Some(9));
    assert!(sim.lookup_skill(SkillUid(Uid(1), 20)).is_none());
    assert_eq!(sim.students[0].lookup_skill(2).map(|s| s.cost()), Some(5));
    assert!(sim.students[0].lookup_skill(3).is_none());
    assert_eq!(sim.students[1].skills().len(), 3);
    assert!(!sim.is_time_over(5_399));
    assert!(sim.is_time_over(5_400));
    assert_eq!(sim.boss_uid(), Uid(1));
    assert_eq!(sim.other_students_uid(Uid(102)), vec![Uid(100), Uid(101), Uid(103), Uid(104), Uid(105)]);
}

#[test]
fn actions_are_routed_to_caster_and_targets() {
    let sim = simulator(20);
    let state = sim.initial_state();
    let by_boss = ActionContext { caster: Uid(1), targets: vec![Uid(104), Uid(101), Uid(1)], skill: SkillUid(Uid(1), 18) };
    assert_eq!(
        sim.route_action(&state, &by_boss),
        Ok(ActionRoute { caster: Caster::Boss, targets: vec![1, 4], skill: 18 })
    );
    let by_student = ActionContext { caster: Uid(102), targets: vec![Uid(102), Uid(103), Uid(100)], skill: SkillUid(Uid(102), 7) };
    assert_eq!(
        sim.route_action(&state, &by_student),
        Ok(ActionRoute { caster: Caster::Student(2), targets: vec![0, 3], skill: 7 })
    );
    let stranger = ActionContext { caster: Uid(42), targets: vec![], skill: SkillUid(Uid(42), 0) };
    assert_eq!(sim.route_action(&state, &stranger), Err(SimError::NotFound));
    let no_skill = ActionContext { caster: Uid(100), targets: vec![], skill: SkillUid(Uid(100), 99) };
    assert_eq!(sim.route_action(&state, &no_skill), Err(SimError::NotFound));
}

#[test]
fn search_and_end_of_fight() {
    let sim = simulator(20);
    let mut state = sim.initial_state();
    assert_eq!(state.search_uid(Uid(1)).map(|d| d.common.hp), Some(50_000));
    assert_eq!(state.search_uid(Uid(105)).map(|d| d.common.hp), Some(1_005));
    assert!(state.search_uid(Uid(2)).is_none());
    assert_eq!(state.students.search_uid(Uid(101)).map(|d| d.uid()), Some(Uid(101)));
    assert!(!state.is_goal());
    assert!(!state.is_terminal());
    state.boss.common.hp = 0;
    assert!(state.is_goal());
    if let StudentState::TotalAssault(arr) = &mut state.students {
        for s in arr.iter_mut() {
            s.common.hp = 0;
        }
    }
    assert!(state.is_terminal());
}

#[test]
fn state_data_parts() {
    let d = StateData::new(Uid(5), 300, 2, Some(ExtraState::Kei(KeiState::default())));
    assert_eq!(d.cooldowns(), &[0, 0]);
    assert_eq!(d.extra(), Some(&ExtraState::Kei(KeiState::default())));
    let e = StateData::from_parts(Uid(5), 300, 9, &[4], vec![effect(3)], None);
    let copy = e.duplicate();
    assert_eq!(copy, e);
    assert!(copy.extra().is_none());
}

#[test]
fn attack_buffs_scale_and_add() {
    let buffs = vec![
        Effect::Buff { ty: BuffKind::Atk, scale: 2, amount: 50 },
        Effect::Debuff { ty: DebuffKind::Atk, scale: 9, amount: 9 },
        Effect::Buff { ty: BuffKind::Def, scale: 9, amount: 9 },
        Effect::Buff { ty: BuffKind::Atk, scale: 3, amount: 25 },
    ];
    assert_eq!(buffed_atk(100, &buffs), (100 + 75) * 600);
    assert_eq!(buffed_atk(100, &[]), 10_000);
    let caster = CasterContext { stats: BaseStats { atk: 10, hp: 40, ..BaseStats::default() }, effects: buffs.clone(), skill_type: SkillType::Ex };
    assert_eq!(caster.atk(), 85 * 600);
    assert_eq!(caster.hp(), 40);
    let target = TargetContext { stats: BaseStats { atk: 1, hp: 7, ..BaseStats::default() }, effects: vec![] };
    assert_eq!(target.atk(), 100);
    assert_eq!(target.hp(), 7);
}

#[test]
fn only_the_caster_loses_hp_through_its_context() {
    let mut caster = CasterContext { stats: BaseStats { hp: 40, ..BaseStats::default() }, effects: vec![], skill_type: SkillType::Sub };
    caster.decrease_hp(15);
    assert_eq!(caster.hp(), 25);
    caster.decrease_hp(100);
    assert_eq!(caster.hp(), 0);
    let mut target = TargetContext { stats: BaseStats { hp: 7, ..BaseStats::default() }, effects: vec![] };
    target.decrease_hp(5);
    assert_eq!(target.hp(), 7);
}

#[test]
fn state_parts_can_be_changed_in_place() {
    let sim = simulator(20);
    let mut state = sim.initial_state();
    state.boss_mut().common.shield = 40;
    assert_eq!(state.boss().common.shield, 40);
    let d = state.boss_mut();
    *d.uid_mut() = Uid(2);
    d.cooldowns_mut()[1] = 60;
    d.remained_effects_mut().push(effect(9));
    assert_eq!(state.boss().uid(), Uid(2));
    assert_eq!(state.boss().cooldowns(), &[0, 60]);
    assert_eq!(state.boss().remained_effects(), &[effect(9)]);
}

fn pero_state(p: PerorodzillaState) -> State {
    let students: Vec<StateData> = (0..6).map(|i| StateData::new(Uid(100 + i), 1, 3, None)).collect();
    State::new(&students, StateData::new(Uid(1), 9, 6, Some(ExtraState::Perorodzilla(p))), 0, 4)
}

fn pero_of(state: &State) -> PerorodzillaState {
    match state.boss().extra() {
        Some(ExtraState::Perorodzilla(p)) => *p,
        _ => panic!("the boss keeps its minion counters"),
    }
}

#[test]
fn minion_waves_run_on_the_boss_state() {
    let mut state = pero_state(PerorodzillaState { big_minion_hp: 1_000, groggy_numerator: 6, ..PerorodzillaState::default() });
    summon_minion_other_apply(&mut state, Difficulty::Normal, 3);
    let p = pero_of(&state);
    assert_eq!((p.big_minions, p.knocked_down, p.damage_record_start), (7, 0, 3));
    assert_eq!(state.cost(), 4);
    let groggy = absorb_minion_other_apply(&mut state, Difficulty::Normal, 600, false);
    assert!(groggy);
    let p = pero_of(&state);
    assert_eq!((p.groggy_numerator, p.small_minions, p.big_minions, p.minion_damage), (0, 5, 0, 600));
    assert_eq!(state.boss().common.hp, 9);
}

#[test]
fn characters_are_changed_through_their_uid() {
    let sim = simulator(20);
    let mut state = sim.initial_state();
    state.search_uid_mut(Uid(1)).expect("the boss").common.hp = 7;
    state.search_uid_mut(Uid(103)).expect("a student").common.shield = 9;
    assert!(state.search_uid_mut(Uid(2)).is_none());
    assert_eq!(state.boss().common.hp, 7);
    assert_eq!(state.students()[3].common.shield, 9);
    assert_eq!(state.students()[2].common.shield, 0);
    state.students.search_uid_mut(Uid(100)).expect("the first student").common.hp = 1;
    assert_eq!(state.students()[0].common.hp, 1);
    assert!(state.students.search_uid_mut(Uid(1)).is_none());
}

#[test]
fn the_party_can_be_split_for_a_skill() {
    let sim = simulator(20);
    let mut state = sim.initial_state();
    {
        let (boss, students) = state.split_mut();
        boss.common.shield = 3;
        students[5].common.hp = 0;
    }
    assert_eq!(state.boss().common.shield, 3);
    assert_eq!(state.students()[5].common.hp, 0);
    state.students_mut()[0].common.shield = 4;
    assert_eq!(state.students()[0].common.shield, 4);
    let mut all = state.split_all_mut();
    assert_eq!(all.len(), 7);
    assert_eq!(all[0].uid(), Uid(1));
    assert_eq!(all[6].uid(), Uid(105));
    for d in all.iter_mut() {
        d.common.shield += 1;
    }
    assert_eq!(state.boss().common.shield, 4);
    assert_eq!(state.students()[0].common.shield, 5);
    assert_eq!(state.students()[1].common.shield, 1);
    assert!(matches!(state.students, StudentState::TotalAssault(_)));
}

#[test]
fn extra_state_is_changed_in_place() {
    let mut d = StateData::new(Uid(5), 300, 2, Some(ExtraState::Kei(KeiState::default())));
    if let Some(ExtraState::Kei(k)) = d.extra_mut() {
        k.acc_damage = 12;
    }
    assert_eq!(d.extra(), Some(&ExtraState::Kei(KeiState { acc_damage: 12, ..KeiState::default() })));
    let mut plain = StateData::new(Uid(6), 1, 0, None);
    assert!(plain.extra_mut().is_none());
}

#[test]
fn a_routed_action_hands_out_its_caster_and_targets() {
    let sim = simulator(20);
    let mut state = sim.initial_state();
    let by_student = ActionContext { caster: Uid(102), targets: vec![Uid(102), Uid(103), Uid(100)], skill: SkillUid(Uid(102), 7) };
    let route = sim.route_action(&state, &by_student).expect("routed");
    {
        let (caster, targets) = state.split_route(&route).expect("the caster is in the party");
        assert_eq!(caster.uid(), Uid(102));
        assert_eq!(targets.iter().map(|t| t.uid()).collect::<Vec<_>>(), vec![Uid(100), Uid(103)]);
        caster.common.shield = 5;
        for t in targets {
            t.common.hp -= 1;
        }
    }
    assert_eq!(state.students()[2].common.shield, 5);
    assert_eq!(state.students()[0].common.hp, 999);
    assert_eq!(state.students()[3].common.hp, 1_002);
    assert_eq!(state.students()[1].common.hp, 1_001);

    let by_boss = ActionContext { caster: Uid(1), targets: vec![Uid(104), Uid(101)], skill: SkillUid(Uid(1), 18) };
    let route = sim.route_action(&state, &by_boss).expect("routed");
    let (boss, targets) = state.split_route(&route).expect("the boss casts");
    boss.common.hp = 1;
    assert_eq!(targets.len(), 2);
    assert_eq!(state.boss().common.hp, 1);

    let astray = ActionRoute { caster: Caster::Student(6), targets: vec![], skill: 0 };
    assert!(state.split_route(&astray).is_none());
    let doubled = ActionRoute { caster: Caster::Student(0), targets: vec![3, 0, 3, 9], skill: 0 };
    let (_, targets) = state.split_route(&doubled).expect("the caster is in the party");
    assert_eq!(targets.iter().map(|t| t.uid()).collect::<Vec<_>>(), vec![Uid(103)]);
}
