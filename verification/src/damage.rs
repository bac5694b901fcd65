//! Damage of one hit: a normal and a critical range, and the chance of a critical.
use crate::base::BaseStats;
use crate::key::SkillsBitMask;
use crate::types::{damage_scale, is_weak, spec_damage_scale, spec_is_weak, AttackType};
use core::ops::{Div, Mul};
use std::collections::HashMap;
use vstd::prelude::*;
use vstd::std_specs::hash::group_hash_axioms;
use vstd::std_specs::ops::{DivSpecImpl, MulSpecImpl};

verus! {

broadcast use group_hash_axioms;

/// A closed range of damage, every value in it equally likely.
#[derive(Debug, Clone, Copy, PartialEq, Eq, Hash, Structural)]
pub struct Uniform {
    pub min: u64,
    pub max: u64,
}

/// A damage distribution: a normal range, a critical range, and `crit_num / crit_den` the
/// chance of a critical.
#[derive(Debug, Clone, Copy, PartialEq, Eq, Hash, Structural)]
pub struct Damage {
    pub normal: Uniform,
    pub crit: Uniform,
    pub crit_num: u32,
    pub crit_den: u32,
}

/// Middle of a range, rounded down.
pub open spec fn average(u: Uniform) -> int {
    (u.max + u.min) / 2
}

/// The average damage, weighting the two ranges by the critical chance.
pub open spec fn spec_expected_value(d: Damage) -> int {
    (average(d.normal) * (d.crit_den - d.crit_num) + average(d.crit) * d.crit_num) / (d.crit_den
        as int)
}

/// `expected_value` stays inside `u64` and divides by a positive denominator.
pub open spec fn expected_value_defined(d: Damage) -> bool {
    &&& d.crit_den > 0
    &&& d.crit_num <= d.crit_den
    &&& d.normal.max + d.normal.min <= u64::MAX
    &&& d.crit.max + d.crit.min <= u64::MAX
    &&& average(d.normal) * (d.crit_den - d.crit_num) + average(d.crit) * d.crit_num <= u64::MAX
}

/// Every bound of `d` scaled by `k`.
pub open spec fn spec_scaled(d: Damage, k: u64) -> Damage {
    Damage {
        normal: Uniform { min: (d.normal.min * k) as u64, max: (d.normal.max * k) as u64 },
        crit: Uniform { min: (d.crit.min * k) as u64, max: (d.crit.max * k) as u64 },
        crit_num: d.crit_num,
        crit_den: d.crit_den,
    }
}

/// No bound of `d` times `k` leaves `u64`.
pub open spec fn scaling_fits(d: Damage, k: u64) -> bool {
    &&& d.normal.min * k <= u64::MAX
    &&& d.normal.max * k <= u64::MAX
    &&& d.crit.min * k <= u64::MAX
    &&& d.crit.max * k <= u64::MAX
}

/// Every bound of `d` divided by `k`, rounded down.
pub open spec fn spec_divided(d: Damage, k: u64) -> Damage {
    Damage {
        normal: Uniform { min: d.normal.min / k, max: d.normal.max / k },
        crit: Uniform { min: d.crit.min / k, max: d.crit.max / k },
        crit_num: d.crit_num,
        crit_den: d.crit_den,
    }
}

impl Default for Damage {
    fn default() -> (r: Self)
        ensures
            r == (Damage {
                normal: Uniform { min: 0, max: 0 },
                crit: Uniform { min: 0, max: 0 },
                crit_num: 0,
                crit_den: 1,
            }),
    {
        Damage {
            normal: Uniform { min: 0, max: 0 },
            crit: Uniform { min: 0, max: 0 },
            crit_num: 0,
            crit_den: 1,
        }
    }
}

impl Damage {
    pub fn new(
        normal_max: u64,
        normal_min: u64,
        crit_max: u64,
        crit_min: u64,
        crit_num: u32,
        crit_den: u32,
    ) -> (r: Self)
        ensures
            r == (Damage {
                normal: Uniform { min: normal_min, max: normal_max },
                crit: Uniform { min: crit_min, max: crit_max },
                crit_num,
                crit_den,
            }),
    {
        Damage {
            normal: Uniform { min: normal_min, max: normal_max },
            crit: Uniform { min: crit_min, max: crit_max },
            crit_num,
            crit_den,
        }
    }

    pub fn expected_value(&self) -> (r: u64)
        requires
            expected_value_defined(*self),
        ensures
            r == spec_expected_value(*self),
    {
        let normal_avg = (self.normal.max + self.normal.min) / 2;
        let crit_avg = (self.crit.max + self.crit.min) / 2;
        let w = (self.crit_den - self.crit_num) as u64;
        let c = self.crit_num as u64;
        assert(normal_avg * w <= u64::MAX && crit_avg * c <= u64::MAX) by (nonlinear_arith)
            requires
                normal_avg * w + crit_avg * c <= u64::MAX,
        ;
        (normal_avg * w + crit_avg * c) / self.crit_den as u64
    }
}

impl Mul<u64> for Damage {
    type Output = Damage;

    fn mul(self, rhs: u64) -> (r: Self::Output) {
        Damage {
            normal: Uniform { min: self.normal.min * rhs, max: self.normal.max * rhs },
            crit: Uniform { min: self.crit.min * rhs, max: self.crit.max * rhs },
            crit_num: self.crit_num,
            crit_den: self.crit_den,
        }
    }
}

impl MulSpecImpl<u64> for Damage {
    open spec fn obeys_mul_spec() -> bool {
        true
    }

    open spec fn mul_req(self, rhs: u64) -> bool {
        scaling_fits(self, rhs)
    }

    open spec fn mul_spec(self, rhs: u64) -> Damage {
        spec_scaled(self, rhs)
    }
}

impl Div<u64> for Damage {
    type Output = Damage;

    fn div(self, rhs: u64) -> (r: Self::Output) {
        Damage {
            normal: Uniform { min: self.normal.min / rhs, max: self.normal.max / rhs },
            crit: Uniform { min: self.crit.min / rhs, max: self.crit.max / rhs },
            crit_num: self.crit_num,
            crit_den: self.crit_den,
        }
    }
}

impl DivSpecImpl<u64> for Damage {
    open spec fn obeys_div_spec() -> bool {
        true
    }

    open spec fn div_req(self, rhs: u64) -> bool {
        rhs != 0
    }

    open spec fn div_spec(self, rhs: u64) -> Damage {
        spec_divided(self, rhs)
    }
}

/// Scaling a damage up and back down by the same factor gives it back.
pub proof fn lemma_scale_then_divide(d: Damage, k: u64)
    requires
        k > 0,
        scaling_fits(d, k),
    ensures
        spec_divided(spec_scaled(d, k), k) == d,
{
    assert((d.normal.min * k) / (k as int) == d.normal.min) by (nonlinear_arith)
        requires
            k > 0,
    ;
    assert((d.normal.max * k) / (k as int) == d.normal.max) by (nonlinear_arith)
        requires
            k > 0,
    ;
    assert((d.crit.min * k) / (k as int) == d.crit.min) by (nonlinear_arith)
        requires
            k > 0,
    ;
    assert((d.crit.max * k) / (k as int) == d.crit.max) by (nonlinear_arith)
        requires
            k > 0,
    ;
}

/// The expected value lies between the normal and the critical averages.
pub proof fn lemma_expected_value_between(d: Damage)
    requires
        d.crit_den > 0,
        d.crit_num <= d.crit_den,
    ensures
        spec_expected_value(d) >= if average(d.normal) <= average(d.crit) {
            average(d.normal)
        } else {
            average(d.crit)
        },
        spec_expected_value(d) <= if average(d.normal) >= average(d.crit) {
            average(d.normal)
        } else {
            average(d.crit)
        },
{
    let a = average(d.normal);
    let b = average(d.crit);
    let n = d.crit_num as int;
    let m = d.crit_den as int;
    let lo = if a <= b {
        a
    } else {
        b
    };
    let hi = if a >= b {
        a
    } else {
        b
    };
    assert(lo * m <= a * (m - n) + b * n <= hi * m) by (nonlinear_arith)
        requires
            0 <= n <= m,
            lo <= a <= hi,
            lo <= b <= hi,
    ;
    assert(lo <= (a * (m - n) + b * n) / m <= hi) by (nonlinear_arith)
        requires
            m > 0,
            lo * m <= a * (m - n) + b * n <= hi * m,
    ;
}

/// Damage after defense: `damage / (def - def_piercing + 1666) * 1666`.
pub fn apply_def(damage: u64, def: u32, def_piercing: u16) -> (r: u64)
    requires
        def >= def_piercing,
    ensures
        r == (damage as int) / (def - def_piercing + 1666) * 1666,
        r <= damage,
{
    let d = def as u64 - def_piercing as u64 + 1666u64;
    let q = damage / d;
    assert(q * 1666 <= damage) by (nonlinear_arith)
        requires
            d >= 1666,
            q == damage / d,
    ;
    q * 1666u64
}

/// The critical chance as `(delta, delta + 666)` with `delta = crit - crit_res` taken as
/// `u32`, as the cast in the formula does.
pub fn crit_rate_fraction(crit: u16, crit_res: i32) -> (r: (u32, u32))
    requires
        i32::MIN <= crit - crit_res <= i32::MAX,
        ((crit - crit_res) as u32) + 666 <= u32::MAX,
    ensures
        r.0 == (crit - crit_res) as u32,
        r.1 == r.0 + 666,
{
    let delta: u32 = (crit as i32 - crit_res) as u32;
    (delta, (delta + 666))
}

/// The effectiveness stat that matches the attacker's attack type.
pub open spec fn spec_effectiveness(s: BaseStats) -> u32 {
    match s.attack_type {
        AttackType::Explosive => s.explosive_effectiveness,
        AttackType::Piercing => s.piercing_effectiveness,
        AttackType::Mystic => s.mystic_effectiveness,
        AttackType::Corrosive => s.corrosive_effectiveness,
        AttackType::Sonic => s.sonic_effectiveness,
        AttackType::Normal => 0,
    }
}

/// Damage scale in percent: the type matchup, plus the effectiveness bonus when the hit is
/// weak-hitting.
pub open spec fn spec_effectiveness_scale(src: BaseStats, tgt: BaseStats) -> int {
    (if spec_is_weak(src.attack_type, tgt.armor_type) {
        spec_effectiveness(src)
    } else {
        0u32
    }) / 10000 + spec_damage_scale(src.attack_type, tgt.armor_type)
}

/// The top of the normal range, step by step: attack times scale, through defense, times the
/// damage dealt bonus (in whole multiples), less the resisted share, times `num / den`.
pub open spec fn max_damage_steps(
    src: BaseStats,
    tgt: BaseStats,
    scale_num: u64,
    scale_den: u64,
) -> (int, int, int, int, int) {
    let m1 = src.atk * spec_effectiveness_scale(src, tgt);
    let m2 = m1 / (tgt.def - src.defense_piercing + 1666) * 1666;
    let m3 = m2 * (src.dmg_dealt / 10000u32);
    let m4 = m3 - m3 * (tgt.dmg_resist - 10000) / 10000;
    let m5 = m4 * scale_num;
    (m2, m3, m4, m5, m5 / (scale_den as int))
}

/// Every step of [`max_damage_steps`] stays inside `u64`.
pub open spec fn max_damage_defined(
    src: BaseStats,
    tgt: BaseStats,
    scale_num: u64,
    scale_den: u64,
) -> bool {
    let (m2, m3, m4, m5, m6) = max_damage_steps(src, tgt, scale_num, scale_den);
    &&& tgt.def >= src.defense_piercing
    &&& tgt.dmg_resist >= 10000
    &&& scale_den > 0
    &&& m3 <= u64::MAX
    &&& m3 * (tgt.dmg_resist - 10000) <= u64::MAX
    &&& m4 >= 0
    &&& m5 <= u64::MAX
}

/// The highest damage of one hit from `src` to `tgt`, scaled by `scale_num / scale_den`. The
/// bottom of the range and the critical range take floating point and are built on this.
pub fn attack_max_damage(src: &BaseStats, tgt: &BaseStats, scale_num: u64, scale_den: u64) -> (r:
    u64)
    requires
        max_damage_defined(*src, *tgt, scale_num, scale_den),
    ensures
        r == max_damage_steps(*src, *tgt, scale_num, scale_den).4,
{
    let mut effectiveness_dmg_scale: u32 = 0;
    if is_weak(src.attack_type, tgt.armor_type) {
        match src.attack_type {
            AttackType::Explosive => { effectiveness_dmg_scale = src.explosive_effectiveness },
            AttackType::Piercing => { effectiveness_dmg_scale = src.piercing_effectiveness },
            AttackType::Mystic => effectiveness_dmg_scale = src.mystic_effectiveness,
            AttackType::Corrosive => { effectiveness_dmg_scale = src.corrosive_effectiveness },
            AttackType::Sonic => effectiveness_dmg_scale = src.sonic_effectiveness,
            _ => (),
        }
    }
    effectiveness_dmg_scale = effectiveness_dmg_scale / 10000 + damage_scale(
        &src.attack_type,
        &tgt.armor_type,
    );
    let mut max_dmg: u64 = src.atk as u64;
    assert(max_dmg * effectiveness_dmg_scale <= u64::MAX) by (nonlinear_arith)
        requires
            max_dmg <= u32::MAX,
            effectiveness_dmg_scale <= 0x8_0000,
    ;
    max_dmg = max_dmg * effectiveness_dmg_scale as u64;
    max_dmg = apply_def(max_dmg, tgt.def, src.defense_piercing);
    max_dmg = max_dmg * (src.dmg_dealt as u64 / 10000);
    max_dmg = max_dmg - max_dmg * (tgt.dmg_resist as u64 - 10000) / 10000;
    max_dmg = max_dmg * scale_num;
    max_dmg = max_dmg / scale_den;
    max_dmg
}

/// [`attack_max_damage`] where every step stays inside `u64`, and `None` where one would not
/// or where the formula is undefined: a defense piercing above the defense, a resistance
/// below 100%, or a zero denominator.
pub fn checked_attack_max_damage(
    src: &BaseStats,
    tgt: &BaseStats,
    scale_num: u64,
    scale_den: u64,
) -> (r: Option<u64>)
    ensures
        r is Some <==> max_damage_defined(*src, *tgt, scale_num, scale_den),
        r matches Some(v) ==> v == max_damage_steps(*src, *tgt, scale_num, scale_den).4,
{
    if tgt.def < src.defense_piercing as u32 || tgt.dmg_resist < 10000 || scale_den == 0 {
        return None;
    }
    let mut effectiveness_dmg_scale: u32 = 0;
    if is_weak(src.attack_type, tgt.armor_type) {
        match src.attack_type {
            AttackType::Explosive => { effectiveness_dmg_scale = src.explosive_effectiveness },
            AttackType::Piercing => { effectiveness_dmg_scale = src.piercing_effectiveness },
            AttackType::Mystic => effectiveness_dmg_scale = src.mystic_effectiveness,
            AttackType::Corrosive => { effectiveness_dmg_scale = src.corrosive_effectiveness },
            AttackType::Sonic => effectiveness_dmg_scale = src.sonic_effectiveness,
            _ => (),
        }
    }
    effectiveness_dmg_scale = effectiveness_dmg_scale / 10000 + damage_scale(
        &src.attack_type,
        &tgt.armor_type,
    );
    let m1 = src.atk as u64;
    assert(m1 * effectiveness_dmg_scale <= u64::MAX) by (nonlinear_arith)
        requires
            m1 <= u32::MAX,
            effectiveness_dmg_scale <= 0x8_0000,
    ;
    let m1 = m1 * effectiveness_dmg_scale as u64;
    let m2 = apply_def(m1, tgt.def, src.defense_piercing);
    let m3 = match m2.checked_mul(src.dmg_dealt as u64 / 10000) {
        Some(v) => v,
        None => {
            return None;
        },
    };
    let resisted = match m3.checked_mul(tgt.dmg_resist as u64 - 10000) {
        Some(v) => v,
        None => {
            return None;
        },
    };
    let cut = resisted / 10000;
    if cut > m3 {
        return None;
    }
    let m4 = m3 - cut;
    let m5 = match m4.checked_mul(scale_num) {
        Some(v) => v,
        None => {
            return None;
        },
    };
    Some(m5 / scale_den)
}

/// Damage keyed by which skills are applied.
pub struct DamageMap {
    pub entries: HashMap<u64, Damage>,
}

impl DamageMap {
    pub closed spec fn view(&self) -> Map<u64, Damage> {
        self.entries@
    }

    pub fn get(&self, mask: SkillsBitMask) -> (r: Option<Damage>)
        ensures
            r == if self.view().dom().contains(mask.0) {
                Some(self.view()[mask.0])
            } else {
                None::<Damage>
            },
    {
        match self.entries.get(&mask.0) {
            Some(d) => Some(*d),
            None => None,
        }
    }

    /// A map of the given pairs. A mask given twice keeps its last damage.
    pub fn from_entries(entries: Vec<(SkillsBitMask, Damage)>) -> (r: Self)
        ensures
            forall|m: u64|
                #![trigger r.view().dom().contains(m)]
                r.view().dom().contains(m) <==> exists|i: int|
                    0 <= i < entries@.len() && (#[trigger] entries@[i]).0.0 == m,
            forall|i: int|
                #![trigger entries@[i]]
                0 <= i < entries@.len() && (forall|j: int|
                    i < j < entries@.len() ==> (#[trigger] entries@[j]).0.0 != entries@[i].0.0)
                    ==> r.view()[entries@[i].0.0] == entries@[i].1,
    {
        let mut map: HashMap<u64, Damage> = HashMap::new();
        let mut i: usize = 0;
        while i < entries.len()
            invariant
                i <= entries@.len(),
                forall|m: u64|
                    #![trigger map@.dom().contains(m)]
                    map@.dom().contains(m) <==> exists|k: int|
                        0 <= k < i && (#[trigger] entries@[k]).0.0 == m,
                forall|k: int|
                    #![trigger entries@[k]]
                    0 <= k < i && (forall|j: int|
                        k < j < i ==> (#[trigger] entries@[j]).0.0 != entries@[k].0.0)
                        ==> map@[entries@[k].0.0] == entries@[k].1,
            decreases entries@.len() - i,
        {
            let (mask, dmg) = entries[i];
            map.insert(mask.0, dmg);
            proof {
                assert(entries@[i as int].0.0 == mask.0);
                assert forall|m: u64|
                    #![trigger map@.dom().contains(m)]
                    map@.dom().contains(m) implies exists|k: int|
                        0 <= k < i + 1 && (#[trigger] entries@[k]).0.0 == m by {
                    if m != mask.0 {
                        let k = choose|k: int| 0 <= k < i && (#[trigger] entries@[k]).0.0 == m;
                    }
                }
            }
            i = i + 1;
        }
        DamageMap { entries: map }
    }
}

} // verus!
