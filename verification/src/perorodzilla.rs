//! Perorodzilla's pattern numbers and its minion waves.
//!
//! A wave of big minions is summoned; the damage they take knocks them down, each knocked down
//! minion fills the groggy gauge by one, and a full gauge sends the boss groggy.
use crate::difficulty::Difficulty;
use crate::damage::{expected_value_defined, scaling_fits, spec_divided, spec_scaled, Damage};
use crate::kei::{lemma_stored_sum_grows, lemma_stored_sum_mono, records_defined, stored_sum};
use crate::state::{ExtraState, State};
use crate::states::PerorodzillaState;
use vstd::prelude::*;

verus! {

/// Coefficients are all percentages, so the denominator is fixed.
pub const PERCENT_DEN: u16 = 100;

/// 3.666 seconds, in ticks: 1833 * 30 / 500.
pub const WHITE_HOT_HEAT_VISION_FRAMES: u16 = 109;

/// Not measured yet.
pub const AQUA_BALL_FRAMES: u16 = 0;

/// Not measured yet.
pub const SUMMON_MINION_FRAMES: u16 = 0;

/// Not measured yet.
pub const ABSORB_MINION_FRAMES: u16 = 0;

/// Not measured yet.
pub const HYPER_SPIRAL_GLARE_BEAM_FRAMES: u16 = 0;

/// Ten seconds, in ticks.
pub const DOT_DURATION: u16 = 300;

/// Pattern numbers not yet in the data file. The areas of the blasts belong to the geometry
/// and are kept with it.
#[derive(Debug, Clone, Copy)]
pub struct Params {
    pub def_down_amount: u32,
    pub def_down_duration: u16,
    pub dot_interval: u16,
    pub dot_duration: u16,
    pub heat_vision_percent: u16,
    pub chain_count: u8,
    /// When there are more targets, the last value repeats.
    pub chain_percents: [u16; 2],
    pub blast_percent: u16,
    pub blast_atk_down_scale: u16,
    pub blast_atk_down_duration: u16,
    pub aqua_ball_percent: u16,
    pub aqua_ball_def_down: bool,
    pub hyper_spiral_percent: u16,
    pub big_minion_count: u8,
    pub shiny_minion_count: u8,
    pub shiny_blast_damage: u64,
    pub groggy_denominator: u8,
    pub small_minion_count: u8,
    pub knockback_on_groggy: bool,
    pub atg_gain_percent: u16,
    pub mystic_up_percent: u16,
}

/// The three hardest difficulties, where shiny minions and the blast appear.
pub open spec fn is_upper(d: Difficulty) -> bool {
    d == Difficulty::Insane || d == Difficulty::Torment || d == Difficulty::Lunatic
}

/// The numbers of one difficulty: the easy ones share a base, the three hardest add the blast
/// and shiny minions, and Torment and Lunatic each raise their own set.
pub open spec fn spec_params_of(difficulty: Difficulty) -> Params {
    Params {
        def_down_amount: 9_999,
        def_down_duration: 1800,
        dot_interval: 30,
        dot_duration: DOT_DURATION,
        heat_vision_percent: match difficulty {
            Difficulty::Torment | Difficulty::Lunatic => 100u16,
            _ => 90,
        },
        chain_count: match difficulty {
            Difficulty::Torment => 2u8,
            Difficulty::Lunatic => 9,
            _ => 0,
        },
        chain_percents: match difficulty {
            Difficulty::Torment => [20u16, 10u16],
            Difficulty::Lunatic => [40u16, 40u16],
            _ => [0u16, 0u16],
        },
        blast_percent: if is_upper(difficulty) {
            250u16
        } else {
            0
        },
        blast_atk_down_scale: match difficulty {
            Difficulty::Torment | Difficulty::Lunatic => 50u16,
            _ => 0,
        },
        blast_atk_down_duration: match difficulty {
            Difficulty::Torment | Difficulty::Lunatic => 1200u16,
            _ => 0,
        },
        aqua_ball_percent: 400,
        aqua_ball_def_down: difficulty == Difficulty::Lunatic,
        hyper_spiral_percent: 300,
        big_minion_count: 7,
        shiny_minion_count: if is_upper(difficulty) {
            1u8
        } else {
            0
        },
        shiny_blast_damage: 200_000,
        groggy_denominator: match difficulty {
            Difficulty::Torment | Difficulty::Lunatic => 12u8,
            Difficulty::Insane => 10,
            _ => 7,
        },
        small_minion_count: 5,
        knockback_on_groggy: difficulty == Difficulty::Lunatic,
        atg_gain_percent: 50,
        mystic_up_percent: match difficulty {
            Difficulty::Torment => 50u16,
            Difficulty::Lunatic => 200,
            _ => 0,
        },
    }
}

/// What each difficulty does to Perorodzilla's patterns. Heat Vision burns at 100 percent on
/// Torment and Lunatic and 90 below, and chains to two more students on Torment (20 then 10
/// percent) and nine on Lunatic (40 each). The blast of 250 percent and the shiny minion come
/// from Insane up; the blast lowers attack by 50 percent for 1200 ticks on Torment and Lunatic.
/// Aqua Ball lowers defense and the absorb knocks the party back only on Lunatic. The groggy
/// gauge fills in 7 parts below Insane, 10 on Insane and 12 above. The boss's mystic
/// effectiveness rises by 50 percent on Torment and 200 on Lunatic.
pub proof fn lemma_params_by_difficulty(d: Difficulty)
    ensures
        ({
            let p = spec_params_of(d);
            let torment_up = d == Difficulty::Torment || d == Difficulty::Lunatic;
            let insane_up = d == Difficulty::Insane || torment_up;
            &&& p.heat_vision_percent == if torment_up { 100u16 } else { 90u16 }
            &&& p.chain_count == if d == Difficulty::Torment {
                2u8
            } else if d == Difficulty::Lunatic {
                9u8
            } else {
                0u8
            }
            &&& p.chain_percents == if d == Difficulty::Torment {
                [20u16, 10u16]
            } else if d == Difficulty::Lunatic {
                [40u16, 40u16]
            } else {
                [0u16, 0u16]
            }
            &&& p.blast_percent == if insane_up { 250u16 } else { 0u16 }
            &&& p.blast_atk_down_scale == if torment_up { 50u16 } else { 0u16 }
            &&& p.blast_atk_down_duration == if torment_up { 1200u16 } else { 0u16 }
            &&& p.shiny_minion_count == if insane_up { 1u8 } else { 0u8 }
            &&& p.groggy_denominator == if torment_up {
                12u8
            } else if d == Difficulty::Insane {
                10u8
            } else {
                7u8
            }
            &&& p.aqua_ball_def_down == (d == Difficulty::Lunatic)
            &&& p.knockback_on_groggy == (d == Difficulty::Lunatic)
            &&& p.mystic_up_percent == if d == Difficulty::Torment {
                50u16
            } else if d == Difficulty::Lunatic {
                200u16
            } else {
                0u16
            }
            &&& p.def_down_amount == 9_999 && p.dot_interval == 30 && p.dot_duration == 300
            &&& p.aqua_ball_percent == 400 && p.hyper_spiral_percent == 300
            &&& p.big_minion_count == 7 && p.small_minion_count == 5
            &&& p.shiny_blast_damage == 200_000 && p.atg_gain_percent == 50
        }),
{
}

/// A harder difficulty never softens a pattern: every percent, count and gauge part is at
/// least what an easier difficulty has.
pub proof fn lemma_params_never_soften(easier: Difficulty, harder: Difficulty)
    requires
        easier.spec_index() <= harder.spec_index(),
    ensures
        ({
            let a = spec_params_of(easier);
            let b = spec_params_of(harder);
            &&& a.heat_vision_percent <= b.heat_vision_percent
            &&& a.chain_count <= b.chain_count
            &&& a.chain_percents[0] <= b.chain_percents[0]
            &&& a.chain_percents[1] <= b.chain_percents[1]
            &&& a.blast_percent <= b.blast_percent
            &&& a.blast_atk_down_scale <= b.blast_atk_down_scale
            &&& a.shiny_minion_count <= b.shiny_minion_count
            &&& a.groggy_denominator <= b.groggy_denominator
            &&& a.mystic_up_percent <= b.mystic_up_percent
            &&& a.aqua_ball_def_down ==> b.aqua_ball_def_down
            &&& a.knockback_on_groggy ==> b.knockback_on_groggy
        }),
{
}

impl Params {
    /// The numbers of one difficulty.
    pub fn of(difficulty: Difficulty) -> (r: Self)
        ensures
            r == spec_params_of(difficulty),
    {
        let mut params = Params {
            def_down_amount: 9_999,
            def_down_duration: 60 * 30,
            dot_interval: 30,
            dot_duration: DOT_DURATION,
            heat_vision_percent: 90,
            chain_count: 0,
            chain_percents: [0, 0],
            blast_percent: 0,
            blast_atk_down_scale: 0,
            blast_atk_down_duration: 0,
            aqua_ball_percent: 400,
            aqua_ball_def_down: false,
            hyper_spiral_percent: 300,
            big_minion_count: 7,
            shiny_minion_count: 0,
            shiny_blast_damage: 200_000,
            groggy_denominator: 7,
            small_minion_count: 5,
            knockback_on_groggy: false,
            atg_gain_percent: 50,
            mystic_up_percent: 0,
        };
        match difficulty {
            Difficulty::Insane | Difficulty::Torment | Difficulty::Lunatic => {
                params.blast_percent = 250;
                params.shiny_minion_count = 1;
                params.groggy_denominator = 10;
            },
            _ => {},
        }
        match difficulty {
            Difficulty::Torment => {
                params.heat_vision_percent = 100;
                params.chain_count = 2;
                params.chain_percents = [20, 10];
                params.blast_atk_down_scale = 50;
                params.blast_atk_down_duration = 40 * 30;
                params.groggy_denominator = 12;
                params.mystic_up_percent = 50;
            },
            Difficulty::Lunatic => {
                params.heat_vision_percent = 100;
                params.chain_count = 9;
                params.chain_percents = [40, 40];
                params.blast_atk_down_scale = 50;
                params.blast_atk_down_duration = 40 * 30;
                params.aqua_ball_def_down = true;
                params.groggy_denominator = 12;
                params.knockback_on_groggy = true;
                params.mystic_up_percent = 200;
            },
            _ => {},
        }
        params
    }
}

/// How many big minions the damage taken so far has knocked down: one per half of a minion's
/// hp, never more than were summoned. With the minion hp unknown, none.
pub open spec fn spec_knockdown_count(s: PerorodzillaState) -> u8 {
    let threshold = s.big_minion_hp / 2;
    if threshold == 0 {
        0
    } else {
        let n = (s.minion_damage / threshold) as u8;
        if n < s.big_minions {
            n
        } else {
            s.big_minions
        }
    }
}

pub fn knockdown_count(boss: &PerorodzillaState) -> (r: u8)
    ensures
        r == spec_knockdown_count(*boss),
        r <= boss.big_minions,
{
    let threshold = boss.big_minion_hp / 2;
    if threshold == 0 {
        return 0;
    }
    let n = (boss.minion_damage / threshold) as u8;
    if n < boss.big_minions {
        n
    } else {
        boss.big_minions
    }
}

/// A fresh wave: the counts of the params, nothing knocked down, the damage record read from
/// `record_start` on.
pub fn summon_minion_wave(boss: &mut PerorodzillaState, params: &Params, record_start: usize)
    ensures
        *final(boss) == summoned(*old(boss), *params, record_start),
{
    boss.big_minions = params.big_minion_count;
    boss.shiny_minions = params.shiny_minion_count;
    boss.knocked_down = 0;
    boss.minion_damage = 0;
    boss.damage_record_start = record_start;
}

/// Where the current wave's part of the boss's damage record begins.
pub open spec fn wave_start(boss: PerorodzillaState, len: int) -> int {
    if boss.damage_record_start < len {
        boss.damage_record_start as int
    } else {
        len
    }
}

/// The damage the minions took since the wave was summoned. All damage to a minion reaches
/// the boss, and while a wave stands the minions draw nearly every hit, so the boss's record
/// since the wave began stands for what the minions took.
pub fn damage_since_wave_start(boss: &PerorodzillaState, records: &[Option<Damage>]) -> (r: u64)
    requires
        records_defined(records@),
        stored_sum(records@, wave_start(*boss, records@.len() as int), records@.len() as int)
            <= u64::MAX,
    ensures
        r == stored_sum(records@, wave_start(*boss, records@.len() as int), records@.len() as int),
{
    let len = records.len();
    let start = if boss.damage_record_start < len {
        boss.damage_record_start
    } else {
        len
    };
    let mut acc: u64 = 0;
    let mut i = start;
    while i < len
        invariant
            start <= i <= len,
            len == records@.len(),
            start == wave_start(*boss, len as int),
            records_defined(records@),
            acc == stored_sum(records@, start as int, i as int),
            stored_sum(records@, start as int, len as int) <= u64::MAX,
        decreases len - i,
    {
        proof {
            lemma_stored_sum_mono(records@, start as int, i + 1, len as int);
            lemma_stored_sum_grows(records@, start as int, i + 1);
        }
        if let Some(d) = records[i] {
            assert(expected_value_defined(records@[i as int]->0));
            acc = acc + d.expected_value();
        }
        i = i + 1;
    }
    acc
}

/// What the shiny minions' blast does to the big minions still standing: each shiny minion
/// hits each of them once.
pub open spec fn spec_minion_share(s: PerorodzillaState, params: Params) -> int {
    let standing: int = if s.big_minions >= s.knocked_down {
        s.big_minions - s.knocked_down
    } else {
        0
    };
    params.shiny_blast_damage * params.shiny_minion_count * standing
}

pub fn shiny_blast_minion_share(boss: &PerorodzillaState, params: &Params) -> (r: u64)
    requires
        params.shiny_blast_damage * params.shiny_minion_count <= u64::MAX,
        spec_minion_share(*boss, *params) <= u64::MAX,
    ensures
        r == spec_minion_share(*boss, *params),
{
    let shiny_count = params.shiny_minion_count as u64;
    let unit = params.shiny_blast_damage;
    let standing = boss.big_minions.saturating_sub(boss.knocked_down) as u64;
    unit * shiny_count * standing
}

/// Records the hp of one big minion, read from the data at the start of a fight. Until it is
/// set, knockdowns are not counted.
pub fn init_big_minion_hp(boss: &mut PerorodzillaState, hp: u64)
    ensures
        *final(boss) == (PerorodzillaState { big_minion_hp: hp, ..*old(boss) }),
{
    boss.big_minion_hp = hp;
}

/// One hit of the shiny minions' blast: `unit` damage, never critical.
pub open spec fn blast_hit(unit: u64) -> Damage {
    Damage {
        normal: crate::damage::Uniform { min: unit, max: unit },
        crit: crate::damage::Uniform { min: unit, max: unit },
        crit_num: 0,
        crit_den: 1,
    }
}

/// `n` copies of `x`.
pub open spec fn repeat<T>(x: T, n: nat) -> Seq<T> {
    Seq::new(n, |i: int| x)
}

/// The shiny minions' blast. Each student inside the blast takes one hit from each shiny
/// minion, added to its record; the big minions still standing take the same. The boss takes
/// the sum of all of it as one hit, when there is any. Which students stand inside the blast
/// is geometry, given as `inside`. Returns what the big minions took.
pub fn apply_shiny_minion_blast(
    boss: &PerorodzillaState,
    params: &Params,
    inside: &[bool],
    student_records: &mut Vec<Vec<Option<Damage>>>,
    boss_records: &mut Vec<Option<Damage>>,
) -> (minion_share: u64)
    requires
        inside@.len() == old(student_records)@.len(),
        params.shiny_blast_damage * params.shiny_minion_count <= u64::MAX,
        spec_minion_share(*boss, *params) + params.shiny_blast_damage * params.shiny_minion_count
            * inside@.len() <= u64::MAX,
    ensures
        minion_share == spec_minion_share(*boss, *params),
        final(student_records)@.len() == old(student_records)@.len(),
        forall|i: int|
            0 <= i < inside@.len() ==> (#[trigger] final(student_records)@[i])@ == if inside@[i] {
                old(student_records)@[i]@ + repeat(
                    Some(blast_hit(params.shiny_blast_damage)),
                    params.shiny_minion_count as nat,
                )
            } else {
                old(student_records)@[i]@
            },
        ({
            let total = spec_minion_share(*boss, *params) + params.shiny_blast_damage
                * params.shiny_minion_count * inside@.filter(|b: bool| b).len();
            final(boss_records)@ == if total > 0 {
                old(boss_records)@.push(Some(blast_hit(total as u64)))
            } else {
                old(boss_records)@
            }
        }),
{
    let shiny_count = params.shiny_minion_count as u64;
    let unit = params.shiny_blast_damage;
    let per_student = unit * shiny_count;
    let blast = Damage::new(unit, unit, unit, unit, 0, 1);
    let ghost before = student_records@;
    let mut student_share: u64 = 0;
    let mut i: usize = 0;
    proof {
        reveal(Seq::filter);
        assert(inside@.take(0) =~= Seq::<bool>::empty());
        assert(inside@.take(0).filter(|b: bool| b).len() == 0);
        assert(per_student * 0 == 0);
    }
    while i < inside.len()
        invariant
            i <= inside@.len(),
            inside@.len() == before.len(),
            student_records@.len() == before.len(),
            per_student == params.shiny_blast_damage * params.shiny_minion_count,
            shiny_count == params.shiny_minion_count,
            blast == blast_hit(unit),
            unit == params.shiny_blast_damage,
            spec_minion_share(*boss, *params) + per_student * inside@.len() <= u64::MAX,
            student_share == per_student * inside@.take(i as int).filter(|b: bool| b).len(),
            forall|j: int|
                0 <= j < i ==> (#[trigger] student_records@[j])@ == if inside@[j] {
                    before[j]@ + repeat(Some(blast), shiny_count as nat)
                } else {
                    before[j]@
                },
            forall|j: int| i <= j < before.len() ==> #[trigger] student_records@[j] == before[j],
        decreases inside.len() - i,
    {
        let ghost cnt = inside@.take(i as int).filter(|b: bool| b).len();
        proof {
            reveal(Seq::filter);
            let next = inside@.take(i + 1);
            assert(next.drop_last() =~= inside@.take(i as int));
            assert(next.last() == inside@[i as int]);
            assert(next.filter(|b: bool| b).len() == cnt + if inside@[i as int] {
                1int
            } else {
                0
            });
            inside@.take(i as int).lemma_filter_len(|b: bool| b);
            assert(per_student * (cnt + 1) <= per_student * inside@.len()) by (nonlinear_arith)
                requires
                    cnt <= i < inside@.len(),
            ;
            assert(per_student * (cnt + 1) == per_student * cnt + per_student) by (nonlinear_arith);
        }
        if inside[i] {
            let mut row = student_records.remove(i);
            let ghost row0 = row@;
            let mut c: u64 = 0;
            while c < shiny_count
                invariant
                    c <= shiny_count,
                    row@ == row0 + repeat(Some(blast), c as nat),
                decreases shiny_count - c,
            {
                row.push(Some(blast));
                c = c + 1;
                assert(row@ =~= row0 + repeat(Some(blast), c as nat));
            }
            student_records.insert(i, row);
            student_share = student_share + per_student;
        }
        proof {
            assert forall|j: int| 0 <= j < i + 1 implies (#[trigger] student_records@[j])@ == if inside@[j] {
                before[j]@ + repeat(Some(blast), shiny_count as nat)
            } else {
                before[j]@
            } by {}
        }
        i = i + 1;
    }
    assert(inside@.take(i as int) =~= inside@);
    proof {
        inside@.lemma_filter_len(|b: bool| b);
        assert(per_student * inside@.filter(|b: bool| b).len() <= per_student * inside@.len())
            by (nonlinear_arith)
            requires
                inside@.filter(|b: bool| b).len() <= inside@.len(),
        ;
    }
    let minion_share = shiny_blast_minion_share(boss, params);
    let total = minion_share + student_share;
    if total > 0 {
        let absorbed = Damage::new(total, total, total, total, 0, 1);
        boss_records.push(Some(absorbed));
    }
    minion_share
}

/// One hit in a character's damage record: when it lands, and the damage the target's map
/// gives for it.
#[derive(Debug, Clone, Copy, PartialEq, Eq, Structural)]
pub struct AccumulatedDamage {
    pub ticks: u16,
    pub damage: Option<Damage>,
}

/// `base` at `percent` percent.
pub open spec fn scaled_hit(base: Damage, percent: u16) -> Damage {
    spec_divided(spec_scaled(base, percent as u64), PERCENT_DEN as u64)
}

/// One hit of `percent` percent of the caster's damage `base`: the hit joins `hits`, and the
/// record gains an entry at `ticks` with the damage the target's map gives, `looked_up`.
/// A caster with no damage deals nothing.
pub fn append_damage(
    base: Option<Damage>,
    percent: u16,
    ticks: u16,
    looked_up: Option<Damage>,
    hits: &mut Vec<Damage>,
    records: &mut Vec<AccumulatedDamage>,
)
    requires
        base matches Some(b) ==> scaling_fits(b, percent as u64),
    ensures
        base is None ==> final(hits)@ == old(hits)@ && final(records)@ == old(records)@,
        base matches Some(b) ==> final(hits)@ == old(hits)@.push(scaled_hit(b, percent))
            && final(records)@ == old(records)@.push(
            AccumulatedDamage { ticks, damage: looked_up },
        ),
{
    let damage = match base {
        Some(d) => d,
        None => {
            return;
        },
    };
    hits.push(damage * percent as u64 / PERCENT_DEN as u64);
    records.push(AccumulatedDamage { ticks, damage: looked_up });
}

/// The ticks at which a damage over time lands: every `interval` ticks up to `duration`.
pub open spec fn dot_ticks(interval: u16, duration: u16) -> Seq<u16> {
    Seq::new((duration / interval) as nat, |k: int| ((k + 1) * interval) as u16)
}

/// A damage over time of `percent` percent of `base`, landing every `interval` ticks up to
/// `duration`: one hit and one record entry per landing.
pub fn append_damage_over_time(
    base: Option<Damage>,
    percent: u16,
    interval: u16,
    duration: u16,
    looked_up: Option<Damage>,
    hits: &mut Vec<Damage>,
    records: &mut Vec<AccumulatedDamage>,
)
    requires
        interval > 0,
        (duration / interval + 1) * interval <= u16::MAX,
        base matches Some(b) ==> scaling_fits(b, percent as u64),
    ensures
        base is None ==> final(hits)@ == old(hits)@ && final(records)@ == old(records)@,
        base matches Some(b) ==> {
            let n = dot_ticks(interval, duration).len();
            &&& final(hits)@ == old(hits)@ + Seq::new(n, |k: int| scaled_hit(b, percent))
            &&& final(records)@ == old(records)@ + dot_ticks(interval, duration).map_values(
                |t: u16| AccumulatedDamage { ticks: t, damage: looked_up },
            )
        },
{
    let damage = match base {
        Some(d) => d,
        None => {
            return;
        },
    };
    let hit = damage * percent as u64 / PERCENT_DEN as u64;
    let ghost hits0 = hits@;
    let ghost records0 = records@;
    let ghost n = (duration / interval) as nat;
    let mut ticks: u16 = interval;
    let mut k: u16 = 0;
    proof {
        assert(interval <= duration <==> duration / interval >= 1) by (nonlinear_arith)
            requires
                interval > 0,
        ;
        assert((k + 1) * interval == interval) by (nonlinear_arith)
            requires
                k == 0,
        ;
        assert(hits@ =~= hits0 + Seq::new(0, |j: int| scaled_hit(damage, percent)));
        assert(records@ =~= records0 + dot_ticks(interval, duration).take(0).map_values(
            |t: u16| AccumulatedDamage { ticks: t, damage: looked_up },
        ));
    }
    while ticks <= duration
        invariant
            interval > 0,
            (duration / interval + 1) * interval <= u16::MAX,
            n == duration / interval,
            k <= n,
            ticks == (k + 1) * interval,
            ticks <= duration <==> k < n,
            hit == scaled_hit(damage, percent),
            hits@ == hits0 + Seq::new(k as nat, |j: int| scaled_hit(damage, percent)),
            records@ == records0 + dot_ticks(interval, duration).take(k as int).map_values(
                |t: u16| AccumulatedDamage { ticks: t, damage: looked_up },
            ),
        decreases n - k,
    {
        hits.push(hit);
        records.push(AccumulatedDamage { ticks, damage: looked_up });
        proof {
            assert((k + 2) * interval <= (n + 1) * interval) by (nonlinear_arith)
                requires
                    k < n,
                    interval > 0,
            ;
            assert((k + 2) * interval == (k + 1) * interval + interval) by (nonlinear_arith);
            assert((k + 2) * interval <= duration <==> k + 1 < n) by (nonlinear_arith)
                requires
                    interval > 0,
                    n == duration / interval,
            ;
            assert(hits@ =~= hits0 + Seq::new((k + 1) as nat, |j: int| scaled_hit(damage, percent)));
            assert(dot_ticks(interval, duration).take(k + 1) =~= dot_ticks(interval, duration).take(
                k as int,
            ).push(ticks));
            assert(records@ =~= records0 + dot_ticks(interval, duration).take(k + 1).map_values(
                |t: u16| AccumulatedDamage { ticks: t, damage: looked_up },
            ));
        }
        ticks = ticks + interval;
        k = k + 1;
    }
    assert(dot_ticks(interval, duration).take(k as int) =~= dot_ticks(interval, duration));
}

/// The coefficient, in percent, of the `i`-th target of White-hot Heat Vision: the first takes
/// the heat vision, the next `chain_count` take the chain's values, the last repeating, and
/// the rest take none.
pub open spec fn spec_heat_vision_percent(p: Params, i: usize) -> Option<u16> {
    if i == 0 {
        Some(p.heat_vision_percent)
    } else if (i as u8) <= p.chain_count {
        Some(p.chain_percents[if i - 1 < 1 { i - 1 } else { 1 }])
    } else {
        None
    }
}

pub fn heat_vision_percent(p: &Params, i: usize) -> (r: Option<u16>)
    ensures
        r == spec_heat_vision_percent(*p, i),
{
    if i == 0 {
        Some(p.heat_vision_percent)
    } else if (i as u8) <= p.chain_count {
        let last: usize = 1;
        let k = if i - 1 < last {
            i - 1
        } else {
            last
        };
        Some(p.chain_percents[k])
    } else {
        None
    }
}

/// The knockdowns of a wave, after the blast when there is one.
pub open spec fn wave_knockdowns(
    s: PerorodzillaState,
    params: Params,
    dealt: u64,
    blast_region: bool,
) -> u8 {
    let s1 = PerorodzillaState { minion_damage: dealt, ..s };
    let k1 = spec_knockdown_count(s1);
    if k1 > 0 && params.shiny_minion_count > 0 && blast_region {
        let s2 = PerorodzillaState { knocked_down: k1, ..s1 };
        let s3 = PerorodzillaState {
            minion_damage: (dealt + spec_minion_share(s2, params)) as u64,
            ..s2
        };
        spec_knockdown_count(s3)
    } else {
        k1
    }
}

/// The wave's damage stays inside `u64` and the counters inside their types.
pub open spec fn absorb_fits(
    s: PerorodzillaState,
    params: Params,
    dealt: u64,
    blast_region: bool,
) -> bool {
    let s1 = PerorodzillaState { minion_damage: dealt, ..s };
    let k1 = spec_knockdown_count(s1);
    &&& (k1 > 0 && params.shiny_minion_count > 0 && blast_region) ==> params.shiny_blast_damage
        * params.shiny_minion_count <= u64::MAX
    &&& (k1 > 0 && params.shiny_minion_count > 0 && blast_region) ==> dealt + spec_minion_share(
        PerorodzillaState { knocked_down: k1, ..s1 },
        params,
    ) <= u64::MAX
    &&& s.groggy_numerator + s.big_minions <= u8::MAX
    &&& s.atg_percent + params.atg_gain_percent <= u16::MAX
}

/// The damage the minions are counted to have taken by the end of a wave: what they took, and
/// the blast on those still standing when the blast goes off.
pub open spec fn wave_minion_damage(
    s: PerorodzillaState,
    params: Params,
    dealt: u64,
    blast_region: bool,
) -> u64 {
    let s1 = PerorodzillaState { minion_damage: dealt, ..s };
    let k1 = spec_knockdown_count(s1);
    if k1 > 0 && params.shiny_minion_count > 0 && blast_region {
        (dealt + spec_minion_share(PerorodzillaState { knocked_down: k1, ..s1 }, params)) as u64
    } else {
        dealt
    }
}

/// `after` is `before` once a wave that took `dealt` is absorbed: the knocked down minions fill
/// the groggy gauge, the wave is gone, the attack gauge rises, and `groggy` says whether the
/// groggy gauge filled, which empties it and brings the small minions.
pub open spec fn absorbed(
    before: PerorodzillaState,
    after: PerorodzillaState,
    params: Params,
    dealt: u64,
    blast_region: bool,
    groggy: bool,
) -> bool {
    let k = wave_knockdowns(before, params, dealt, blast_region);
    let filled = before.groggy_numerator + k >= params.groggy_denominator;
    &&& groggy == filled
    &&& after.knocked_down == k
    &&& after.minion_damage == wave_minion_damage(before, params, dealt, blast_region)
    &&& after.groggy_numerator == if filled {
        0
    } else {
        before.groggy_numerator + k
    }
    &&& after.small_minions == if filled {
        params.small_minion_count
    } else {
        before.small_minions
    }
    &&& after.big_minions == 0
    &&& after.shiny_minions == 0
    &&& after.atg_percent == if before.atg_percent + params.atg_gain_percent < 100 {
        before.atg_percent + params.atg_gain_percent
    } else {
        100
    }
    &&& after.big_minion_hp == before.big_minion_hp
    &&& after.damage_record_start == before.damage_record_start
}

/// A fresh wave of `params`, read from the boss's damage record from `record_start` on.
pub open spec fn summoned(s: PerorodzillaState, params: Params, record_start: usize) -> PerorodzillaState {
    PerorodzillaState {
        big_minions: params.big_minion_count,
        shiny_minions: params.shiny_minion_count,
        knocked_down: 0,
        minion_damage: 0,
        damage_record_start: record_start,
        ..s
    }
}

/// Ends a wave that took `dealt` damage. `blast_region` says whether the shiny minions' blast
/// has an area. Returns whether the groggy gauge filled, which empties it and brings the small
/// minions.
pub fn absorb_minion_wave(
    boss: &mut PerorodzillaState,
    params: &Params,
    dealt: u64,
    blast_region: bool,
) -> (groggy: bool)
    requires
        absorb_fits(*old(boss), *params, dealt, blast_region),
    ensures
        absorbed(*old(boss), *final(boss), *params, dealt, blast_region, groggy),
{
    let ghost s0 = *boss;
    boss.minion_damage = dealt;
    let mut knocked = knockdown_count(boss);
    if knocked > 0 && params.shiny_minion_count > 0 && blast_region {
        boss.knocked_down = knocked;
        let minion_share = shiny_blast_minion_share(boss, params);
        boss.minion_damage = boss.minion_damage + minion_share;
        knocked = knockdown_count(boss);
    }
    assert(knocked <= s0.big_minions);
    boss.knocked_down = knocked;
    boss.groggy_numerator = boss.groggy_numerator + knocked;
    boss.big_minions = 0;
    boss.shiny_minions = 0;
    let atg = boss.atg_percent + params.atg_gain_percent;
    boss.atg_percent = if atg < 100 {
        atg
    } else {
        100
    };
    if boss.groggy_numerator >= params.groggy_denominator {
        boss.groggy_numerator = 0;
        boss.small_minions = params.small_minion_count;
        true
    } else {
        false
    }
}

/// Hyper Spiral Glare Beam fires only on a full gauge, and empties it.
pub fn hyper_spiral_fire(boss: &mut PerorodzillaState) -> (fired: bool)
    ensures
        fired == (old(boss).atg_percent >= 100),
        final(boss).atg_percent == if fired {
            0
        } else {
            old(boss).atg_percent
        },
        *final(boss) == (PerorodzillaState { atg_percent: final(boss).atg_percent, ..*old(boss) }),
{
    if boss.atg_percent < 100 {
        return false;
    }
    boss.atg_percent = 0;
    true
}

/// The Perorodzilla state of the boss of `s`, when it has one.
pub open spec fn boss_pero(s: State) -> Option<PerorodzillaState> {
    match s.boss.extra {
        Some(ExtraState::Perorodzilla(p)) => Some(p),
        _ => None,
    }
}

/// `after` is `before` with only the boss's skill state changed, to `p`.
pub open spec fn only_boss_pero_changed(before: State, after: State, p: PerorodzillaState) -> bool {
    &&& after.boss.extra == Some(ExtraState::Perorodzilla(p))
    &&& after.boss.common == before.boss.common
    &&& after.students == before.students
    &&& after.frames == before.frames
    &&& after.cost == before.cost
}

/// Summon Minion on the fight: a fresh wave at the boss's difficulty, its damage read from
/// the boss's record from `record_start` on.
pub fn summon_minion_other_apply(state: &mut State, difficulty: Difficulty, record_start: usize)
    requires
        boss_pero(*old(state)) is Some,
    ensures
        only_boss_pero_changed(
            *old(state),
            *final(state),
            summoned(boss_pero(*old(state))->0, spec_params_of(difficulty), record_start),
        ),
{
    let mut p = match state.boss.extra {
        Some(ExtraState::Perorodzilla(p)) => p,
        _ => {
            assert(false);
            return;
        },
    };
    let params = Params::of(difficulty);
    summon_minion_wave(&mut p, &params, record_start);
    state.boss.extra = Some(ExtraState::Perorodzilla(p));
}

/// Absorb Minion on the fight: the wave, which took `dealt`, ends at the boss's difficulty.
/// Returns whether the boss went groggy.
pub fn absorb_minion_other_apply(
    state: &mut State,
    difficulty: Difficulty,
    dealt: u64,
    blast_region: bool,
) -> (groggy: bool)
    requires
        boss_pero(*old(state)) matches Some(p) && absorb_fits(
            p,
            spec_params_of(difficulty),
            dealt,
            blast_region,
        ),
    ensures
        boss_pero(*final(state)) is Some,
        only_boss_pero_changed(*old(state), *final(state), boss_pero(*final(state))->0),
        absorbed(
            boss_pero(*old(state))->0,
            boss_pero(*final(state))->0,
            spec_params_of(difficulty),
            dealt,
            blast_region,
            groggy,
        ),
{
    let mut p = match state.boss.extra {
        Some(ExtraState::Perorodzilla(p)) => p,
        _ => {
            assert(false);
            return false;
        },
    };
    let params = Params::of(difficulty);
    let groggy = absorb_minion_wave(&mut p, &params, dealt, blast_region);
    state.boss.extra = Some(ExtraState::Perorodzilla(p));
    groggy
}

/// Across a wave the groggy gauge stays below its denominator, and the attack gauge stays at
/// or below 100.
pub proof fn lemma_wave_keeps_gauges(
    before: PerorodzillaState,
    after: PerorodzillaState,
    params: Params,
    dealt: u64,
    blast_region: bool,
    groggy: bool,
)
    requires
        before.groggy_numerator < params.groggy_denominator,
        before.atg_percent <= 100,
        absorbed(before, after, params, dealt, blast_region, groggy),
    ensures
        after.groggy_numerator < params.groggy_denominator,
        after.atg_percent <= 100,
{
}


/// One target of a skill's hits: the hits it has taken, its damage record, and the damage its
/// own map gives for the effects on it.
#[derive(Debug)]
pub struct HitTarget {
    pub hits: Vec<Damage>,
    pub records: Vec<AccumulatedDamage>,
    pub looked_up: Option<Damage>,
}

/// `after` is `before` after one hit of `percent` percent of `base` landing at `ticks`.
pub open spec fn hit_once(before: HitTarget, after: HitTarget, base: Option<Damage>, percent: u16, ticks: u16) -> bool {
    &&& after.looked_up == before.looked_up
    &&& base is None ==> after.hits@ == before.hits@ && after.records@ == before.records@
    &&& base matches Some(b) ==> after.hits@ == before.hits@.push(scaled_hit(b, percent))
        && after.records@ == before.records@.push(
        AccumulatedDamage { ticks, damage: before.looked_up },
    )
}

/// `after` is `before` after a damage over time of `percent` percent of `base`, landing every
/// `interval` ticks up to `duration`.
pub open spec fn dot_landed(
    before: HitTarget,
    after: HitTarget,
    base: Option<Damage>,
    percent: u16,
    interval: u16,
    duration: u16,
) -> bool {
    &&& after.looked_up == before.looked_up
    &&& base is None ==> after.hits@ == before.hits@ && after.records@ == before.records@
    &&& base matches Some(b) ==> {
        &&& after.hits@ == before.hits@ + Seq::new(
            dot_ticks(interval, duration).len(),
            |k: int| scaled_hit(b, percent),
        )
        &&& after.records@ == before.records@ + dot_ticks(interval, duration).map_values(
            |t: u16| AccumulatedDamage { ticks: t, damage: before.looked_up },
        )
    }
}

/// One hit of `percent` percent of `base` on every target, landing at `ticks`: what Aqua Ball
/// does to the students in its area, and Hyper Spiral Glare Beam to every student.
pub fn hit_each(base: Option<Damage>, percent: u16, ticks: u16, targets: &mut Vec<HitTarget>)
    requires
        base matches Some(b) ==> scaling_fits(b, percent as u64),
    ensures
        final(targets)@.len() == old(targets)@.len(),
        forall|i: int|
            0 <= i < old(targets)@.len() ==> hit_once(
                old(targets)@[i],
                #[trigger] final(targets)@[i],
                base,
                percent,
                ticks,
            ),
{
    let ghost before = targets@;
    let mut i: usize = 0;
    while i < targets.len()
        invariant
            targets@.len() == before.len(),
            i <= before.len(),
            base matches Some(b) ==> scaling_fits(b, percent as u64),
            forall|j: int| 0 <= j < i ==> hit_once(before[j], #[trigger] targets@[j], base, percent, ticks),
            forall|j: int| i <= j < before.len() ==> #[trigger] targets@[j] == before[j],
        decreases before.len() - i,
    {
        let t = &mut targets[i];
        let looked_up = t.looked_up;
        append_damage(base, percent, ticks, looked_up, &mut t.hits, &mut t.records);
        i = i + 1;
    }
}

/// Aqua Ball: one hit of its percent on every target in its area, landing at `ticks`.
pub fn aqua_ball_apply(base: Option<Damage>, params: &Params, ticks: u16, targets: &mut Vec<HitTarget>)
    requires
        base matches Some(b) ==> scaling_fits(b, params.aqua_ball_percent as u64),
    ensures
        final(targets)@.len() == old(targets)@.len(),
        forall|i: int|
            0 <= i < old(targets)@.len() ==> hit_once(
                old(targets)@[i],
                #[trigger] final(targets)@[i],
                base,
                params.aqua_ball_percent,
                ticks,
            ),
{
    hit_each(base, params.aqua_ball_percent, ticks, targets);
}

/// Hyper Spiral Glare Beam: on a full gauge it empties the gauge and hits every target once at
/// its percent, landing at `ticks`; otherwise nothing happens.
pub fn hyper_spiral_apply(
    boss: &mut PerorodzillaState,
    base: Option<Damage>,
    params: &Params,
    ticks: u16,
    targets: &mut Vec<HitTarget>,
) -> (fired: bool)
    requires
        base matches Some(b) ==> scaling_fits(b, params.hyper_spiral_percent as u64),
    ensures
        fired == (old(boss).atg_percent >= 100),
        *final(boss) == (PerorodzillaState {
            atg_percent: if fired {
                0
            } else {
                old(boss).atg_percent
            },
            ..*old(boss)
        }),
        !fired ==> final(targets)@ == old(targets)@,
        fired ==> final(targets)@.len() == old(targets)@.len() && forall|i: int|
            0 <= i < old(targets)@.len() ==> hit_once(
                old(targets)@[i],
                #[trigger] final(targets)@[i],
                base,
                params.hyper_spiral_percent,
                ticks,
            ),
{
    if !hyper_spiral_fire(boss) {
        return false;
    }
    hit_each(base, params.hyper_spiral_percent, ticks, targets);
    true
}

/// White-hot Heat Vision: target `i` takes a damage over time at the percent that
/// `heat_vision_percent` gives it, the first at the heat vision's and the next ones along the
/// chain; targets past the chain take nothing.
pub fn heat_vision_apply(base: Option<Damage>, params: &Params, targets: &mut Vec<HitTarget>)
    requires
        params.dot_interval > 0,
        (params.dot_duration / params.dot_interval + 1) * params.dot_interval <= u16::MAX,
        base matches Some(b) ==> scaling_fits(b, params.heat_vision_percent as u64)
            && scaling_fits(b, params.chain_percents[0] as u64) && scaling_fits(
            b,
            params.chain_percents[1] as u64,
        ),
    ensures
        final(targets)@.len() == old(targets)@.len(),
        forall|i: int|
            0 <= i < old(targets)@.len() ==> match spec_heat_vision_percent(*params, i as usize) {
                Some(percent) => dot_landed(
                    old(targets)@[i],
                    #[trigger] final(targets)@[i],
                    base,
                    percent,
                    params.dot_interval,
                    params.dot_duration,
                ),
                None => final(targets)@[i] == old(targets)@[i],
            },
{
    let ghost before = targets@;
    let mut i: usize = 0;
    while i < targets.len()
        invariant
            targets@.len() == before.len(),
            i <= before.len(),
            params.dot_interval > 0,
            (params.dot_duration / params.dot_interval + 1) * params.dot_interval <= u16::MAX,
            base matches Some(b) ==> scaling_fits(b, params.heat_vision_percent as u64)
                && scaling_fits(b, params.chain_percents[0] as u64) && scaling_fits(
                b,
                params.chain_percents[1] as u64,
            ),
            forall|j: int|
                0 <= j < i ==> match spec_heat_vision_percent(*params, j as usize) {
                    Some(percent) => dot_landed(
                        before[j],
                        #[trigger] targets@[j],
                        base,
                        percent,
                        params.dot_interval,
                        params.dot_duration,
                    ),
                    None => targets@[j] == before[j],
                },
            forall|j: int| i <= j < before.len() ==> #[trigger] targets@[j] == before[j],
        decreases before.len() - i,
    {
        match heat_vision_percent(params, i) {
            Some(percent) => {
                let t = &mut targets[i];
                let looked_up = t.looked_up;
                append_damage_over_time(
                    base,
                    percent,
                    params.dot_interval,
                    params.dot_duration,
                    looked_up,
                    &mut t.hits,
                    &mut t.records,
                );
            },
            None => {},
        }
        i = i + 1;
    }
}

} // verus!
