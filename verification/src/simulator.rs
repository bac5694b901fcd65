//! The rules of time in a fight: where a fight starts, how the state moves on by some ticks,
//! when the next thing happens, and which skills can be cast.
use crate::actions::ActionContext;
use crate::base::BaseStats;
use crate::boss_skills::SkillHeader;
use crate::constants::TPS;
use crate::effect::RemainedEffects;
use crate::state::{first_student_index, position_of_uid, ExtraState, State, StateData, StudentState};
use crate::uid::{SkillUid, Uid};
use vstd::prelude::*;

verus! {

/// What the simulation reads of a character: who it is, its stats, the skills it can cast by
/// their position, and the state its skills start a fight with.
#[derive(Debug, Clone)]
pub struct Character {
    pub uid: Uid,
    pub stats: BaseStats,
    pub skills: Vec<SkillHeader>,
    pub extra: Option<ExtraState>,
}

impl Character {
    pub fn uid(&self) -> (r: Uid)
        ensures
            r == self.uid,
    {
        self.uid
    }

    pub fn stats(&self) -> (r: &BaseStats)
        ensures
            *r == self.stats,
    {
        &self.stats
    }

    pub fn skills(&self) -> (r: &[SkillHeader])
        ensures
            r@ == self.skills@,
    {
        self.skills.as_slice()
    }

    /// The skill at position `idx`, if there is one.
    pub fn lookup_skill(&self, idx: usize) -> (r: Option<&SkillHeader>)
        ensures
            idx < self.skills@.len() ==> r == Some(&self.skills@[idx as int]),
            idx >= self.skills@.len() ==> r is None,
    {
        if idx < self.skills.len() {
            Some(&self.skills[idx])
        } else {
            None
        }
    }
}

/// Why an action cannot be carried out.
#[derive(Debug, Clone, Copy, PartialEq, Eq, Structural)]
pub enum SimError {
    NotFound,
}

/// A fight: its party, its boss, every skill in play, how long it lasts, and how fast cost is
/// gained.
pub struct Simulator {
    pub students: Vec<Character>,
    pub boss: Character,
    /// Every skill of the fight, by its global position.
    pub skills: Vec<SkillHeader>,
    /// The fight ends once this many ticks have gone.
    pub limit_ticks: u16,
    /// Cost gained per second of fight.
    pub cost_per_second: u16,
}

/// `a - b`, or 0 where that would be negative.
pub open spec fn sat_sub(a: u16, b: u16) -> u16 {
    if a > b {
        (a - b) as u16
    } else {
        0
    }
}

/// `a + b`, or `u16::MAX` where that would not fit.
pub open spec fn sat_add(a: u16, b: u16) -> u16 {
    if a + b <= u16::MAX {
        (a + b) as u16
    } else {
        u16::MAX
    }
}

/// The effects that outlast `delta` ticks, each with `delta` fewer ticks left, in order. An
/// effect runs for its ticks and no longer, so one with exactly `delta` ticks left ends.
pub open spec fn advanced_effects(s: Seq<RemainedEffects>, delta: u16) -> Seq<RemainedEffects>
    decreases s.len(),
{
    if s.len() == 0 {
        Seq::empty()
    } else {
        let rest = advanced_effects(s.drop_last(), delta);
        let e = s.last();
        if e.ticks > delta {
            rest.push(RemainedEffects { ticks: (e.ticks - delta) as u16, ..e })
        } else {
            rest
        }
    }
}

/// `after` is `before` moved on by `delta` ticks: cooldowns run down and effects run out.
pub open spec fn advanced_data(before: StateData, after: StateData, delta: u16) -> bool {
    &&& after.common.uid == before.common.uid
    &&& after.common.hp == before.common.hp
    &&& after.common.shield == before.common.shield
    &&& after.extra == before.extra
    &&& after.common.cooldowns@ == before.common.cooldowns@.map_values(
        |c: u16| sat_sub(c, delta),
    )
    &&& after.common.remained_effects@ == advanced_effects(
        before.common.remained_effects@,
        delta,
    )
}

/// Cost gained over `delta` ticks at `cost_per_second`, rounded down and never past 10.
pub open spec fn cost_gain(delta: u16, cost_per_second: u16) -> int {
    let g = delta * cost_per_second / (TPS as int);
    if g < 10 {
        g
    } else {
        10
    }
}

/// A character as a fight starts it: `skill_count` skills all ready, no effect, no shield.
pub open spec fn fresh_data(d: StateData, c: Character, skill_count: nat) -> bool {
    &&& d.common.uid == c.uid
    &&& d.common.hp == c.stats.hp
    &&& d.common.shield == 0
    &&& d.common.cooldowns@ == Seq::new(skill_count, |i: int| 0u16)
    &&& d.common.remained_effects@ == Seq::<RemainedEffects>::empty()
    &&& d.extra == c.extra
}

/// `d` moved on by `delta` ticks.
fn advance_data(d: &StateData, delta: u16) -> (r: StateData)
    ensures
        advanced_data(*d, r, delta),
{
    let mut cooldowns: Vec<u16> = Vec::new();
    let mut i: usize = 0;
    while i < d.common.cooldowns.len()
        invariant
            i <= d.common.cooldowns@.len(),
            cooldowns@ == d.common.cooldowns@.take(i as int).map_values(
                |c: u16| sat_sub(c, delta),
            ),
        decreases d.common.cooldowns.len() - i,
    {
        cooldowns.push(d.common.cooldowns[i].saturating_sub(delta));
        i = i + 1;
        assert(cooldowns@ =~= d.common.cooldowns@.take(i as int).map_values(
            |c: u16| sat_sub(c, delta),
        ));
    }
    assert(d.common.cooldowns@.take(i as int) =~= d.common.cooldowns@);
    let ghost all = d.common.remained_effects@;
    let mut effects: Vec<RemainedEffects> = Vec::new();
    let mut k: usize = 0;
    while k < d.common.remained_effects.len()
        invariant
            k <= all.len(),
            all == d.common.remained_effects@,
            effects@ == advanced_effects(all.take(k as int), delta),
        decreases all.len() - k,
    {
        let e = d.common.remained_effects[k];
        assert(all.take(k + 1).drop_last() =~= all.take(k as int));
        if e.ticks > delta {
            effects.push(RemainedEffects { ticks: e.ticks - delta, ..e });
        }
        k = k + 1;
    }
    assert(all.take(k as int) =~= all);
    StateData {
        common: crate::state::CommonStateData {
            uid: d.common.uid,
            cooldowns,
            remained_effects: effects,
            hp: d.common.hp,
            shield: d.common.shield,
        },
        extra: d.extra,
    }
}

/// A student array holds six or ten students.
proof fn lemma_party_size(s: StudentState)
    ensures
        s.view().len() == 6 || s.view().len() == 10,
        s is TotalAssault <==> s.view().len() == 6,
{
}

/// Position of the first character of `cs` with `uid`.
pub open spec fn first_uid_index(cs: Seq<Character>, uid: Uid) -> Option<nat>
    decreases cs.len(),
{
    if cs.len() == 0 {
        None
    } else if cs[0].uid == uid {
        Some(0)
    } else {
        match first_uid_index(cs.drop_first(), uid) {
            Some(i) => Some(i + 1),
            None => None,
        }
    }
}

/// `first_uid_index` finds the first match, and finds none exactly when no uid matches.
pub proof fn lemma_first_uid_index(cs: Seq<Character>, uid: Uid)
    ensures
        first_uid_index(cs, uid) is None <==> forall|i: int| 0 <= i < cs.len() ==> cs[i].uid != uid,
        first_uid_index(cs, uid) matches Some(i) ==> i < cs.len() && cs[i as int].uid == uid
            && forall|j: int| 0 <= j < i ==> cs[j].uid != uid,
    decreases cs.len(),
{
    if cs.len() > 0 {
        lemma_first_uid_index(cs.drop_first(), uid);
        if cs[0].uid != uid {
            assert forall|i: int| 0 <= i < cs.len() && cs[i].uid == uid implies first_uid_index(
                cs,
                uid,
            ) is Some by {
                assert(cs.drop_first()[i - 1] == cs[i]);
            }
            if let Some(i) = first_uid_index(cs, uid) {
                assert forall|j: int| 0 <= j < i implies cs[j].uid != uid by {
                    if j > 0 {
                        assert(cs.drop_first()[j - 1] == cs[j]);
                    }
                }
            }
        }
    }
}

/// Skill `j` of student `i` can be cast in `state`: the student has the skill, it is off
/// cooldown, and the cost gauge covers it.
pub open spec fn castable(sim: &Simulator, state: State, i: int, j: int) -> bool {
    let d = state.students.view()[i];
    &&& 0 <= i < state.students.view().len()
    &&& 0 <= j < d.common.cooldowns@.len()
    &&& j < sim.students@[i].skills@.len()
    &&& d.common.cooldowns@[j] == 0
    &&& state.cost >= sim.students@[i].skills@[j].cost
}

/// The castable skills of student `i` among its first `upto` cooldowns, in order.
pub open spec fn castable_of(sim: &Simulator, state: State, i: int, upto: int) -> Seq<(int, int)>
    decreases upto,
{
    if upto <= 0 {
        Seq::empty()
    } else {
        let rest = castable_of(sim, state, i, upto - 1);
        if castable(sim, state, i, upto - 1) {
            rest.push((i, upto - 1))
        } else {
            rest
        }
    }
}

/// The castable skills of the first `upto` students, by student and then by skill.
pub open spec fn castable_upto(sim: &Simulator, state: State, upto: int) -> Seq<(int, int)>
    decreases upto,
{
    if upto <= 0 {
        Seq::empty()
    } else {
        castable_upto(sim, state, upto - 1) + castable_of(
            sim,
            state,
            upto - 1,
            state.students.view()[upto - 1].common.cooldowns@.len() as int,
        )
    }
}

/// `a` casts skill `p.1` of student `p.0`, at the targets that `targets_of` picks for it.
pub open spec fn action_for<F: Fn(&SkillHeader) -> Vec<Uid>>(
    sim: &Simulator,
    state: State,
    targets_of: F,
    a: ActionContext,
    p: (int, int),
) -> bool {
    let skill = sim.students@[p.0].skills@[p.1];
    &&& a.caster == state.students.view()[p.0].common.uid
    &&& a.skill == SkillUid(skill.owner, skill.skill_offset)
    &&& targets_of.ensures((&skill,), a.targets)
}

/// Who casts an action.
#[derive(Debug, Clone, Copy, PartialEq, Eq, Structural)]
pub enum Caster {
    Boss,
    /// The student at this position of the state.
    Student(usize),
}

/// Where an action lands in a state: its caster, the students it targets by position, and
/// its skill by global position.
#[derive(Debug, Clone, PartialEq, Eq)]
pub struct ActionRoute {
    pub caster: Caster,
    pub targets: Vec<usize>,
    pub skill: usize,
}

/// The position a route's caster holds among the students, or `-1` for the boss.
pub open spec fn caster_position(caster: Caster) -> int {
    match caster {
        Caster::Boss => -1,
        Caster::Student(c) => c as int,
    }
}

/// Positions below `upto`, other than `skip`, that `targets` names, in order.
pub open spec fn picked(skip: int, targets: Seq<usize>, upto: int) -> Seq<int>
    decreases upto,
{
    if upto <= 0 {
        Seq::empty()
    } else {
        let rest = picked(skip, targets, upto - 1);
        let k = upto - 1;
        if k != skip && targets.contains(k as usize) {
            rest.push(k)
        } else {
            rest
        }
    }
}

/// Fewer positions are picked below a lower bound, and those come first in the same order.
proof fn lemma_picked_grows(skip: int, targets: Seq<usize>, i: int, k: int)
    requires
        i <= k,
    ensures
        picked(skip, targets, i).len() <= picked(skip, targets, k).len(),
        forall|j: int| 0 <= j < picked(skip, targets, i).len() ==> #[trigger] picked(skip, targets, i)[j] == picked(skip, targets, k)[j],
    decreases k - i,
{
    if i < k {
        lemma_picked_grows(skip, targets, i, k - 1);
    }
}

/// What a student at position `i` holds once the references a route handed out are done: the
/// caster's or a target's final value, or what it held before.
pub open spec fn after_route(
    before: Seq<StateData>,
    skip: int,
    targets: Seq<usize>,
    caster: StateData,
    picks: Seq<StateData>,
    i: int,
) -> StateData {
    if i == skip {
        caster
    } else if targets.contains(i as usize) {
        picks[picked(skip, targets, i).len() as int]
    } else {
        before[i]
    }
}

impl State {
    /// The caster of `route` and the students it targets, to change at once. The targets come
    /// in order of position, each named at most once; a position the route names that is the
    /// caster's or lies past the party is passed over. `None` when the caster is a student
    /// past the party.
    pub fn split_route(&mut self, route: &ActionRoute) -> (r: Option<(&mut StateData, Vec<&mut StateData>)>)
        ensures
            (route.caster matches Caster::Student(c) && c >= old(self).students.view().len()) ==> r is None
                && *final(self) == *old(self),
            !(route.caster matches Caster::Student(c) && c >= old(self).students.view().len()) ==> (r matches Some(
                parts,
            ) && {
                let n = old(self).students.view().len() as int;
                let skip = caster_position(route.caster);
                let picks = picked(skip, route.targets@, n);
                &&& parts.1@.len() == picks.len()
                &&& forall|k: int| 0 <= k < picks.len() ==> *parts.1@[k] == old(self).students.view()[picks[k]]
                &&& route.caster is Boss ==> *parts.0 == old(self).boss && final(self).boss == *final(parts.0)
                &&& route.caster is Student ==> *parts.0 == old(self).students.view()[skip]
                    && final(self).boss == old(self).boss
                &&& final(self).students.view().len() == n
                &&& forall|i: int|
                    0 <= i < n ==> #[trigger] final(self).students.view()[i] == after_route(
                        old(self).students.view(),
                        skip,
                        route.targets@,
                        *final(parts.0),
                        Seq::new(picks.len(), |k: int| *final(parts.1@[k])),
                        i,
                    )
                &&& (final(self).students is TotalAssault) == (old(self).students is TotalAssault)
                &&& final(self).frames == old(self).frames
                &&& final(self).cost == old(self).cost
            }),
    {
        if let Caster::Student(c) = route.caster {
            if c >= self.students.as_slice().len() {
                return None;
            }
        }
        let (boss, students) = self.split_mut();
        let ghost all = students@;
        let ghost n = students@.len() as int;
        let ghost fin = final(students)@;
        let ghost skip = caster_position(route.caster);
        let ghost targets = route.targets@;
        let mut caster: Option<&mut StateData> = None;
        let mut out: Vec<&mut StateData> = Vec::new();
        let mut rest: &mut [StateData] = students;
        let mut k: usize = 0;
        assert(fin =~= Seq::new(
            0,
            |i: int| after_route(all, skip, targets, fin[skip], Seq::new(out@.len(), |j: int| *final(out@[j])), i),
        ) + final(rest)@);
        while rest.len() > 0
            invariant
                n == all.len(),
                n <= usize::MAX,
                0 <= k <= n,
                rest@ == all.subrange(k as int, n),
                skip == caster_position(route.caster),
                skip < n,
                targets == route.targets@,
                out@.len() == picked(skip, targets, k as int).len(),
                forall|j: int|
                    0 <= j < out@.len() ==> *out@[j] == all[picked(skip, targets, k as int)[j]],
                (0 <= skip < k) == (caster is Some),
                caster matches Some(c) ==> *c == all[skip] && *final(c) == fin[skip],
                fin.len() == n,
                fin == Seq::new(
                    k as nat,
                    |i: int|
                        after_route(
                            all,
                            skip,
                            targets,
                            fin[skip],
                            Seq::new(out@.len(), |j: int| *final(out@[j])),
                            i,
                        ),
                ) + final(rest)@,
            decreases rest@.len(),
        {
            let ghost out0 = out@;
            let (head, tail) = rest.split_at_mut(1);
            let h = &mut head[0];
            let ghost fh = *final(h);
            let is_caster = match route.caster {
                Caster::Student(c) => c == k,
                Caster::Boss => false,
            };
            if is_caster {
                caster = Some(h);
            } else if contains_index(route.targets.as_slice(), k) {
                out.push(h);
            }
            rest = tail;
            proof {
                assert(rest@ =~= all.subrange(k + 1, n));
                let vals0 = Seq::new(out0.len(), |j: int| *final(out0[j]));
                let vals = Seq::new(out@.len(), |j: int| *final(out@[j]));
                let k1 = k + 1;
                assert forall|i: int| 0 <= i < k1 implies #[trigger] after_route(all, skip, targets, fin[skip], vals, i)
                    == (if i < k { after_route(all, skip, targets, fin[skip], vals0, i) } else { fh }) by {
                    if i < k {
                        lemma_picked_grows(skip, targets, i, k as int);
                        if i != skip && targets.contains(i as usize) {
                            lemma_picked_grows(skip, targets, i + 1, k as int);
                            assert(picked(skip, targets, i + 1).len() == picked(skip, targets, i).len() + 1);
                        }
                    }
                }
                assert(fin =~= Seq::new(
                    k1 as nat,
                    |i: int| after_route(all, skip, targets, fin[skip], vals, i),
                ) + final(rest)@);
            }
            k = k + 1;
        }
        match route.caster {
            Caster::Boss => Some((boss, out)),
            Caster::Student(_) => Some((caster.unwrap(), out)),
        }
    }
}

/// `k` is among `v`.
fn contains_index(v: &[usize], k: usize) -> (r: bool)
    ensures
        r == v@.contains(k),
{
    let mut i: usize = 0;
    while i < v.len()
        invariant
            i <= v@.len(),
            forall|j: int| 0 <= j < i ==> v@[j] != k,
        decreases v.len() - i,
    {
        if v[i] == k {
            assert(v@[i as int] == k);
            return true;
        }
        i = i + 1;
    }
    false
}

/// `uid` is among `v`.
fn contains_uid(v: &[Uid], uid: Uid) -> (r: bool)
    ensures
        r == v@.contains(uid),
{
    let mut i: usize = 0;
    while i < v.len()
        invariant
            i <= v@.len(),
            forall|j: int| 0 <= j < i ==> v@[j] != uid,
        decreases v.len() - i,
    {
        if v[i] == uid {
            assert(v@[i as int] == uid);
            return true;
        }
        i = i + 1;
    }
    false
}

/// Positions below `upto` of the students other than `skip` whose uid is wanted, in order.
pub open spec fn wanted_students(
    students: Seq<StateData>,
    skip: int,
    wanted: Seq<Uid>,
    upto: int,
) -> Seq<usize>
    decreases upto,
{
    if upto <= 0 {
        Seq::empty()
    } else {
        let rest = wanted_students(students, skip, wanted, upto - 1);
        let k = upto - 1;
        if k != skip && wanted.contains(students[k].common.uid) {
            rest.push(k as usize)
        } else {
            rest
        }
    }
}

/// Skipping a position past the end skips no student.
proof fn lemma_wanted_skip_outside(students: Seq<StateData>, wanted: Seq<Uid>, upto: int)
    requires
        0 <= upto <= students.len(),
    ensures
        wanted_students(students, students.len() as int, wanted, upto) == wanted_students(
            students,
            -1,
            wanted,
            upto,
        ),
    decreases upto,
{
    if upto > 0 {
        lemma_wanted_skip_outside(students, wanted, upto - 1);
    }
}

/// A position below `upto` is among the wanted students exactly when it is not `skip` and
/// its uid is wanted; every position among them lies below `upto`.
proof fn lemma_wanted_contains(students: Seq<StateData>, skip: int, wanted: Seq<Uid>, upto: int)
    requires
        0 <= upto <= students.len() <= usize::MAX,
    ensures
        forall|k: int|
            0 <= k < upto ==> (#[trigger] wanted_students(students, skip, wanted, upto).contains(k as usize)
                <==> (k != skip && wanted.contains(students[k].common.uid))),
        forall|j: int|
            0 <= j < wanted_students(students, skip, wanted, upto).len() ==> #[trigger] wanted_students(
                students,
                skip,
                wanted,
                upto,
            )[j] < upto,
    decreases upto,
{
    if upto > 0 {
        lemma_wanted_contains(students, skip, wanted, upto - 1);
        let rest = wanted_students(students, skip, wanted, upto - 1);
        let all = wanted_students(students, skip, wanted, upto);
        let last = upto - 1;
        assert forall|j: int| 0 <= j < all.len() implies #[trigger] all[j] < upto by {
            if j < rest.len() {
                assert(all[j] == rest[j]);
            }
        }
        assert forall|k: int| 0 <= k < upto implies (#[trigger] all.contains(k as usize) <==> (k
            != skip && wanted.contains(students[k].common.uid))) by {
            if k < last {
                if all.contains(k as usize) {
                    let j = choose|j: int| 0 <= j < all.len() && all[j] == k as usize;
                    if j < rest.len() {
                        assert(rest[j] == k as usize);
                    }
                }
                if rest.contains(k as usize) {
                    let j = choose|j: int| 0 <= j < rest.len() && rest[j] == k as usize;
                    assert(all[j] == k as usize);
                }
            } else {
                if last != skip && wanted.contains(students[last].common.uid) {
                    assert(all[rest.len() as int] == last as usize);
                } else if all.contains(k as usize) {
                    let j = choose|j: int| 0 <= j < all.len() && all[j] == k as usize;
                    assert(rest[j] < last);
                }
            }
        }
    }
}

/// Picking, from the wanted students of the whole party, the positions below `upto` gives the
/// wanted students below `upto`, in the same order.
proof fn lemma_picked_wanted(students: Seq<StateData>, skip: int, wanted: Seq<Uid>, upto: int)
    requires
        0 <= upto <= students.len() <= usize::MAX,
    ensures
        picked(skip, wanted_students(students, skip, wanted, students.len() as int), upto)
            == wanted_students(students, skip, wanted, upto).map_values(|k: usize| k as int),
    decreases upto,
{
    let n = students.len() as int;
    let w = wanted_students(students, skip, wanted, n);
    lemma_wanted_contains(students, skip, wanted, n);
    if upto > 0 {
        lemma_picked_wanted(students, skip, wanted, upto - 1);
        let k = upto - 1;
        assert(w.contains(k as usize) <==> (k != skip && wanted.contains(students[k].common.uid)));
        assert(picked(skip, w, upto) =~= wanted_students(students, skip, wanted, upto).map_values(
            |k: usize| k as int,
        ));
    } else {
        assert(picked(skip, w, upto) =~= wanted_students(students, skip, wanted, upto).map_values(
            |k: usize| k as int,
        ));
    }
}

/// Splitting a state along the route that `route_action` gives hands out its caster and
/// exactly the targets it named, in the same order: the caster is in the party, and the
/// positions `split_route` picks are the route's targets.
pub proof fn lemma_route_splits_as_named(students: Seq<StateData>, route_caster: Caster, targets: Seq<usize>, wanted: Seq<Uid>)
    requires
        students.len() <= usize::MAX,
        route_caster matches Caster::Student(c) ==> c < students.len(),
        targets == wanted_students(students, caster_position(route_caster), wanted, students.len() as int),
    ensures
        !(route_caster matches Caster::Student(c) && c >= students.len()),
        picked(caster_position(route_caster), targets, students.len() as int) == targets.map_values(
            |k: usize| k as int,
        ),
{
    lemma_picked_wanted(students, caster_position(route_caster), wanted, students.len() as int);
}

/// The students of `students` other than `skip` that `wanted` names, by position.
fn select_targets(students: &[StateData], skip: usize, wanted: &[Uid]) -> (r: Vec<usize>)
    ensures
        r@ == wanted_students(students@, skip as int, wanted@, students@.len() as int),
{
    let mut r: Vec<usize> = Vec::new();
    let mut k: usize = 0;
    while k < students.len()
        invariant
            k <= students@.len(),
            r@ == wanted_students(students@, skip as int, wanted@, k as int),
        decreases students.len() - k,
    {
        if k != skip && contains_uid(wanted, students[k].uid()) {
            r.push(k);
        }
        k = k + 1;
    }
    r
}

impl Simulator {
    pub fn new(
        students: Vec<Character>,
        boss: Character,
        skills: Vec<SkillHeader>,
        limit_ticks: u16,
        cost_per_second: u16,
    ) -> (r: Self)
        ensures
            r.students@ == students@,
            r.boss == boss,
            r.skills@ == skills@,
            r.limit_ticks == limit_ticks,
            r.cost_per_second == cost_per_second,
    {
        Simulator { students, boss, skills, limit_ticks, cost_per_second }
    }

    /// The state a fight starts in: each student with its three skills ready, the boss with
    /// all of its own, no time gone and no cost. A party is six or ten students.
    pub fn initial_state(&self) -> (r: State)
        requires
            self.students@.len() == 6 || self.students@.len() == 10,
        ensures
            r.students.view().len() == self.students@.len(),
            r.students is TotalAssault <==> self.students@.len() == 6,
            forall|i: int|
                0 <= i < self.students@.len() ==> fresh_data(
                    #[trigger] r.students.view()[i],
                    self.students@[i],
                    3,
                ),
            fresh_data(r.boss, self.boss, self.boss.skills@.len()),
            r.frames == 0,
            r.cost == 0,
    {
        let mut students: Vec<StateData> = Vec::new();
        let mut i: usize = 0;
        while i < self.students.len()
            invariant
                i <= self.students@.len(),
                students@.len() == i,
                forall|k: int|
                    0 <= k < i ==> fresh_data(#[trigger] students@[k], self.students@[k], 3),
            decreases self.students.len() - i,
        {
            let c = &self.students[i];
            students.push(StateData::new(c.uid, c.stats.hp, 3, c.extra));
            i = i + 1;
        }
        let boss = StateData::new(
            self.boss.uid,
            self.boss.stats.hp,
            self.boss.skills.len(),
            self.boss.extra,
        );
        let r = State::new(students.as_slice(), boss, 0, 0);
        assert forall|k: int| 0 <= k < self.students@.len() implies fresh_data(
            #[trigger] r.students.view()[k],
            self.students@[k],
            3,
        ) by {
            assert(fresh_data(students@[k], self.students@[k], 3));
        }
        r
    }

    /// The state `delta_ticks` later: cooldowns run down, effects that end are dropped, time
    /// moves on (stopping at `u16::MAX`) and cost is gained up to a gauge of 10.
    pub fn advance(&self, state: &State, delta_ticks: u16) -> (r: Result<State, SimError>)
        requires
            state.cost + cost_gain(delta_ticks, self.cost_per_second) <= i8::MAX,
        ensures
            r matches Ok(n) && {
                &&& advanced_data(state.boss, n.boss, delta_ticks)
                &&& n.students.view().len() == state.students.view().len()
                &&& (n.students is TotalAssault <==> state.students is TotalAssault)
                &&& forall|i: int|
                    0 <= i < state.students.view().len() ==> advanced_data(
                        state.students.view()[i],
                        #[trigger] n.students.view()[i],
                        delta_ticks,
                    )
                &&& n.frames == sat_add(state.frames, delta_ticks)
                &&& n.cost == if state.cost + cost_gain(
                    delta_ticks,
                    self.cost_per_second,
                ) < 10 {
                    state.cost + cost_gain(delta_ticks, self.cost_per_second)
                } else {
                    10
                }
            },
    {
        let old_students = state.students();
        proof {
            lemma_party_size(state.students);
        }
        let mut students: Vec<StateData> = Vec::new();
        let mut i: usize = 0;
        while i < old_students.len()
            invariant
                i <= old_students@.len(),
                old_students@ == state.students.view(),
                students@.len() == i,
                forall|k: int|
                    0 <= k < i ==> advanced_data(
                        old_students@[k],
                        #[trigger] students@[k],
                        delta_ticks,
                    ),
            decreases old_students.len() - i,
        {
            students.push(advance_data(&old_students[i], delta_ticks));
            i = i + 1;
        }
        let boss = advance_data(&state.boss, delta_ticks);
        assert(delta_ticks * self.cost_per_second <= u32::MAX) by (nonlinear_arith)
            requires
                delta_ticks <= u16::MAX,
                self.cost_per_second <= u16::MAX,
        ;
        let product: u32 = delta_ticks as u32 * self.cost_per_second as u32;
        let g: u32 = product / TPS as u32;
        let gained: i8 = if g < 10 {
            g as i8
        } else {
            10
        };
        let frames = state.frames.saturating_add(delta_ticks);
        let sum: i8 = state.cost + gained;
        let cost: i8 = if sum < 10 {
            sum
        } else {
            10
        };
        let next = State::new(students.as_slice(), boss, frames, cost);
        proof {
            lemma_party_size(next.students);
            assert forall|k: int| 0 <= k < state.students.view().len() implies advanced_data(
                state.students.view()[k],
                #[trigger] next.students.view()[k],
                delta_ticks,
            ) by {
                assert(advanced_data(old_students@[k], students@[k], delta_ticks));
                assert(next.students.view()[k].common.cooldowns@ == students@[k].common.cooldowns@);
            }
        }
        Ok(next)
    }

    /// The fight is over once `ticks` reaches the limit.
    pub fn is_time_over(&self, ticks: u16) -> (r: bool)
        ensures
            r == (self.limit_ticks <= ticks),
    {
        self.limit_ticks <= ticks
    }

    /// The skill at global position `uid.1`, if there is one.
    pub fn lookup_skill(&self, uid: SkillUid) -> (r: Option<&SkillHeader>)
        ensures
            uid.1 < self.skills@.len() ==> r == Some(&self.skills@[uid.1 as int]),
            uid.1 >= self.skills@.len() ==> r is None,
    {
        if uid.skill_index() < self.skills.len() {
            Some(&self.skills[uid.skill_index()])
        } else {
            None
        }
    }

    /// The character with `uid`: the boss first, then the first such student.
    pub open spec fn spec_character_by_uid(&self, uid: Uid) -> Option<Character> {
        if self.boss.uid == uid {
            Some(self.boss)
        } else {
            match first_uid_index(self.students@, uid) {
                Some(i) => Some(self.students@[i as int]),
                None => None,
            }
        }
    }

    pub fn character_by_uid(&self, uid: Uid) -> (r: Option<&Character>)
        ensures
            r == match self.spec_character_by_uid(uid) {
                Some(c) => Some(&c),
                None => None::<&Character>,
            },
    {
        if uid == self.boss.uid {
            return Some(&self.boss);
        }
        proof {
            lemma_first_uid_index(self.students@, uid);
        }
        let mut i: usize = 0;
        while i < self.students.len()
            invariant
                i <= self.students@.len(),
                self.boss.uid != uid,
                forall|j: int| 0 <= j < i ==> self.students@[j].uid != uid,
                first_uid_index(self.students@, uid) is None <==> forall|x: int|
                    0 <= x < self.students@.len() ==> self.students@[x].uid != uid,
                first_uid_index(self.students@, uid) matches Some(x) ==> x < self.students@.len()
                    && self.students@[x as int].uid == uid && forall|j: int|
                    0 <= j < x ==> self.students@[j].uid != uid,
            decreases self.students.len() - i,
        {
            if uid == self.students[i].uid {
                proof {
                    let x = first_uid_index(self.students@, uid)->0;
                    assert(x == i as nat);
                }
                return Some(&self.students[i]);
            }
            i = i + 1;
        }
        None
    }

    /// Cooldown `i` of student `s` counts as an event at `t`: the cost of the skill covers
    /// the cost that the cooldown's ticks would bring.
    pub open spec fn student_cooldown_event(&self, state: State, s: int, i: int, t: u16) -> bool {
        let d = state.students.view()[s];
        &&& 0 <= s < state.students.view().len()
        &&& 0 <= i < d.common.cooldowns@.len()
        &&& self.cost_per_second != 0
        &&& match self.spec_character_by_uid(d.common.uid) {
            Some(c) => c.skills@[i].cost as u16 >= d.common.cooldowns@[i] / self.cost_per_second,
            None => false,
        }
        &&& t == d.common.cooldowns@[i]
    }

    /// Effect `k` of student `s` ends at `t`.
    pub open spec fn student_effect_event(state: State, s: int, k: int, t: u16) -> bool {
        let d = state.students.view()[s];
        &&& 0 <= s < state.students.view().len()
        &&& 0 <= k < d.common.remained_effects@.len()
        &&& t == d.common.remained_effects@[k].ticks
    }

    /// Cooldown `i` of the boss counts as an event at `t`.
    pub open spec fn boss_cooldown_event(&self, state: State, i: int, t: u16) -> bool {
        let d = state.boss;
        &&& 0 <= i < d.common.cooldowns@.len()
        &&& self.cost_per_second != 0
        &&& match self.spec_character_by_uid(d.common.uid) {
            Some(c) => c.skills@[i].cost as u16 >= d.common.cooldowns@[i] / self.cost_per_second,
            None => false,
        }
        &&& t == d.common.cooldowns@[i]
    }

    /// Effect `k` of the boss ends at `t`. The boss's effects are looked at along with its
    /// cooldowns, so only a boss with a skill has them counted.
    pub open spec fn boss_effect_event(state: State, k: int, t: u16) -> bool {
        let d = state.boss;
        &&& d.common.cooldowns@.len() > 0
        &&& 0 <= k < d.common.remained_effects@.len()
        &&& t == d.common.remained_effects@[k].ticks
    }

    /// Something happens `t` ticks from `state`.
    pub open spec fn is_event_time(&self, state: State, t: u16) -> bool {
        ||| exists|s: int, i: int| self.student_cooldown_event(state, s, i, t)
        ||| exists|s: int, k: int| Self::student_effect_event(state, s, k, t)
        ||| exists|i: int| self.boss_cooldown_event(state, i, t)
        ||| exists|k: int| Self::boss_effect_event(state, k, t)
    }

    /// Every character of `state` is in the fight, and has a skill for each of its
    /// cooldowns wherever cost is gained.
    pub open spec fn knows_characters(&self, state: State) -> bool {
        &&& forall|s: int|
            0 <= s < state.students.view().len() ==> match self.spec_character_by_uid(
                (#[trigger] state.students.view()[s]).common.uid,
            ) {
                Some(c) => self.cost_per_second != 0
                    ==> state.students.view()[s].common.cooldowns@.len() <= c.skills@.len(),
                None => false,
            }
        &&& match self.spec_character_by_uid(state.boss.common.uid) {
            Some(c) => self.cost_per_second != 0 ==> state.boss.common.cooldowns@.len()
                <= c.skills@.len(),
            None => false,
        }
    }

    /// Ticks until the next event of `state`: the soonest cooldown whose skill's cost is
    /// covered, or effect that ends; `u16::MAX` when there is none.
    pub fn next_event_frames(&self, state: &State) -> (r: u16)
        requires
            self.knows_characters(*state),
        ensures
            forall|t: u16| self.is_event_time(*state, t) ==> r <= t,
            r == u16::MAX || self.is_event_time(*state, r),
    {
        let mut result: u16 = u16::MAX;
        let students = state.students();
        let mut s: usize = 0;
        while s < students.len()
            invariant
                students@ == state.students.view(),
                s <= students@.len(),
                self.knows_characters(*state),
                result == u16::MAX || self.is_event_time(*state, result),
                forall|s2: int, i: int, t: u16|
                    #![trigger self.student_cooldown_event(*state, s2, i, t)]
                    s2 < s && self.student_cooldown_event(*state, s2, i, t) ==> result <= t,
                forall|s2: int, k: int, t: u16|
                    #![trigger Self::student_effect_event(*state, s2, k, t)]
                    s2 < s && Self::student_effect_event(*state, s2, k, t) ==> result <= t,
            decreases students.len() - s,
        {
            let data = &students[s];
            let character = match self.character_by_uid(data.uid()) {
                Some(c) => c,
                None => {
                    assert(false);
                    return result;
                },
            };
            assert(self.spec_character_by_uid(data.common.uid) == Some(*character));
            if self.cost_per_second != 0 {
                let cooldowns = data.cooldowns();
                let mut i: usize = 0;
                while i < cooldowns.len()
                    invariant
                        students@ == state.students.view(),
                        s < students@.len(),
                        *data == students@[s as int],
                        cooldowns@ == data.common.cooldowns@,
                        self.spec_character_by_uid(data.common.uid) == Some(*character),
                        cooldowns@.len() <= character.skills@.len(),
                        self.cost_per_second != 0,
                        i <= cooldowns@.len(),
                        result == u16::MAX || self.is_event_time(*state, result),
                        forall|s2: int, i2: int, t: u16|
                            #![trigger self.student_cooldown_event(*state, s2, i2, t)]
                            (s2 < s || (s2 == s && i2 < i)) && self.student_cooldown_event(
                                *state,
                                s2,
                                i2,
                                t,
                            ) ==> result <= t,
                        forall|s2: int, k: int, t: u16|
                            #![trigger Self::student_effect_event(*state, s2, k, t)]
                            s2 < s && Self::student_effect_event(*state, s2, k, t) ==> result
                                <= t,
                    decreases cooldowns.len() - i,
                {
                    let time = cooldowns[i];
                    let cost = time / self.cost_per_second;
                    if character.skills()[i].cost() as u16 >= cost {
                        assert(self.student_cooldown_event(*state, s as int, i as int, time));
                        if time < result {
                            result = time;
                        }
                    }
                    i = i + 1;
                }
            }
            let effects = data.remained_effects();
            let mut k: usize = 0;
            while k < effects.len()
                invariant
                    students@ == state.students.view(),
                    s < students@.len(),
                    *data == students@[s as int],
                    effects@ == data.common.remained_effects@,
                    k <= effects@.len(),
                    result == u16::MAX || self.is_event_time(*state, result),
                    forall|s2: int, i2: int, t: u16|
                        #![trigger self.student_cooldown_event(*state, s2, i2, t)]
                        s2 <= s && self.student_cooldown_event(*state, s2, i2, t) ==> result <= t,
                    forall|s2: int, k2: int, t: u16|
                        #![trigger Self::student_effect_event(*state, s2, k2, t)]
                        (s2 < s || (s2 == s && k2 < k)) && Self::student_effect_event(
                            *state,
                            s2,
                            k2,
                            t,
                        ) ==> result <= t,
                decreases effects.len() - k,
            {
                let t = effects[k].ticks;
                assert(Self::student_effect_event(*state, s as int, k as int, t));
                if t < result {
                    result = t;
                }
                k = k + 1;
            }
            s = s + 1;
        }
        let boss = state.boss();
        let character = match self.character_by_uid(boss.uid()) {
            Some(c) => c,
            None => {
                assert(false);
                return result;
            },
        };
        assert(self.spec_character_by_uid(boss.common.uid) == Some(*character));
        let cooldowns = boss.cooldowns();
        let mut i: usize = 0;
        while i < cooldowns.len()
            invariant
                students@ == state.students.view(),
                *boss == state.boss,
                cooldowns@ == boss.common.cooldowns@,
                self.spec_character_by_uid(boss.common.uid) == Some(*character),
                self.cost_per_second != 0 ==> cooldowns@.len() <= character.skills@.len(),
                i <= cooldowns@.len(),
                result == u16::MAX || self.is_event_time(*state, result),
                forall|s2: int, i2: int, t: u16|
                    #![trigger self.student_cooldown_event(*state, s2, i2, t)]
                    self.student_cooldown_event(*state, s2, i2, t) ==> result <= t,
                forall|s2: int, k2: int, t: u16|
                    #![trigger Self::student_effect_event(*state, s2, k2, t)]
                    Self::student_effect_event(*state, s2, k2, t) ==> result <= t,
                forall|i2: int, t: u16|
                    #![trigger self.boss_cooldown_event(*state, i2, t)]
                    i2 < i && self.boss_cooldown_event(*state, i2, t) ==> result <= t,
                i > 0 ==> forall|k2: int, t: u16|
                    #![trigger Self::boss_effect_event(*state, k2, t)]
                    Self::boss_effect_event(*state, k2, t) ==> result <= t,
            decreases cooldowns.len() - i,
        {
            let time = cooldowns[i];
            if self.cost_per_second != 0 && character.skills()[i].cost() as u16 >= time
                / self.cost_per_second {
                assert(self.boss_cooldown_event(*state, i as int, time));
                if time < result {
                    result = time;
                }
            }
            let effects = boss.remained_effects();
            let mut k: usize = 0;
            while k < effects.len()
                invariant
                    *boss == state.boss,
                    effects@ == boss.common.remained_effects@,
                    cooldowns@ == boss.common.cooldowns@,
                    i < cooldowns@.len(),
                    k <= effects@.len(),
                    result == u16::MAX || self.is_event_time(*state, result),
                    forall|s2: int, i2: int, t: u16|
                        #![trigger self.student_cooldown_event(*state, s2, i2, t)]
                        self.student_cooldown_event(*state, s2, i2, t) ==> result <= t,
                    forall|s2: int, k2: int, t: u16|
                        #![trigger Self::student_effect_event(*state, s2, k2, t)]
                        Self::student_effect_event(*state, s2, k2, t) ==> result <= t,
                    forall|i2: int, t: u16|
                        #![trigger self.boss_cooldown_event(*state, i2, t)]
                        i2 <= i && self.boss_cooldown_event(*state, i2, t) ==> result <= t,
                    forall|k2: int, t: u16|
                        #![trigger Self::boss_effect_event(*state, k2, t)]
                        (i > 0 || k2 < k) && Self::boss_effect_event(*state, k2, t) ==> result
                            <= t,
                decreases effects.len() - k,
            {
                let t = effects[k].ticks;
                assert(Self::boss_effect_event(*state, k as int, t));
                if t < result {
                    result = t;
                }
                k = k + 1;
            }
            i = i + 1;
        }
        result
    }


    /// Every cast a student can make in `state`, by student and then by skill, each aimed at
    /// the targets that `targets_of` picks for the skill.
    pub fn legal_actions<F: Fn(&SkillHeader) -> Vec<Uid>>(&self, state: &State, targets_of: F) -> (r:
        Vec<ActionContext>)
        requires
            state.students.view().len() <= self.students@.len(),
            forall|i: int, j: int|
                0 <= i < state.students.view().len() && 0 <= j
                    < state.students.view()[i].common.cooldowns@.len() && j
                    < self.students@[i].skills@.len()
                    && state.students.view()[i].common.cooldowns@[j] == 0 ==> (
                #[trigger] self.students@[i].skills@[j]).cost <= i8::MAX,
            forall|s: &SkillHeader| targets_of.requires((s,)),
        ensures
            r@.len() == castable_upto(self, *state, state.students.view().len() as int).len(),
            forall|k: int|
                0 <= k < r@.len() ==> action_for(
                    self,
                    *state,
                    targets_of,
                    #[trigger] r@[k],
                    castable_upto(self, *state, state.students.view().len() as int)[k],
                ),
    {
        let cost = state.cost();
        let students = state.students();
        let mut result: Vec<ActionContext> = Vec::new();
        let mut i: usize = 0;
        while i < students.len()
            invariant
                students@ == state.students.view(),
                cost == state.cost,
                i <= students@.len(),
                students@.len() <= self.students@.len(),
                forall|i: int, j: int|
                    0 <= i < state.students.view().len() && 0 <= j
                        < state.students.view()[i].common.cooldowns@.len() && j
                        < self.students@[i].skills@.len()
                        && state.students.view()[i].common.cooldowns@[j] == 0 ==> (
                    #[trigger] self.students@[i].skills@[j]).cost <= i8::MAX,
                forall|s: &SkillHeader| targets_of.requires((s,)),
                result@.len() == castable_upto(self, *state, i as int).len(),
                forall|k: int|
                    0 <= k < result@.len() ==> action_for(
                        self,
                        *state,
                        targets_of,
                        #[trigger] result@[k],
                        castable_upto(self, *state, i as int)[k],
                    ),
            decreases students.len() - i,
        {
            let data = &students[i];
            let cooldowns = data.cooldowns();
            let ghost before = result@;
            let mut j: usize = 0;
            while j < cooldowns.len()
                invariant
                    students@ == state.students.view(),
                    cost == state.cost,
                    i < students@.len(),
                    students@.len() <= self.students@.len(),
                    *data == students@[i as int],
                    cooldowns@ == data.common.cooldowns@,
                    j <= cooldowns@.len(),
                    forall|i: int, j: int|
                        0 <= i < state.students.view().len() && 0 <= j
                            < state.students.view()[i].common.cooldowns@.len() && j
                            < self.students@[i].skills@.len()
                            && state.students.view()[i].common.cooldowns@[j] == 0 ==> (
                        #[trigger] self.students@[i].skills@[j]).cost <= i8::MAX,
                    forall|s: &SkillHeader| targets_of.requires((s,)),
                    before.len() == castable_upto(self, *state, i as int).len(),
                    result@.len() == before.len() + castable_of(
                        self,
                        *state,
                        i as int,
                        j as int,
                    ).len(),
                    result@.take(before.len() as int) == before,
                    forall|k: int|
                        0 <= k < before.len() ==> action_for(
                            self,
                            *state,
                            targets_of,
                            #[trigger] before[k],
                            castable_upto(self, *state, i as int)[k],
                        ),
                    forall|k: int|
                        0 <= k < castable_of(self, *state, i as int, j as int).len()
                            ==> action_for(
                            self,
                            *state,
                            targets_of,
                            #[trigger] result@[before.len() + k],
                            castable_of(self, *state, i as int, j as int)[k],
                        ),
                decreases cooldowns.len() - j,
            {
                let ghost prev = result@;
                match self.students[i].lookup_skill(j) {
                    Some(skill) => {
                        if cooldowns[j] == 0 && cost >= skill.cost() as i8 {
                            let targets = targets_of(skill);
                            result.push(
                                ActionContext { caster: data.uid(), targets, skill: skill.uid() },
                            );
                        }
                    },
                    None => {},
                }
                proof {
                    assert(result@.take(before.len() as int) =~= before) by {
                        assert(prev.take(before.len() as int) == before);
                    }
                    assert forall|k: int|
                        0 <= k < castable_of(self, *state, i as int, j + 1).len()
                            implies action_for(
                            self,
                            *state,
                            targets_of,
                            #[trigger] result@[before.len() + k],
                            castable_of(self, *state, i as int, j + 1)[k],
                        ) by {
                        if k < castable_of(self, *state, i as int, j as int).len() {
                            assert(result@[before.len() + k] == prev[before.len() + k]);
                        }
                    }
                }
                j = j + 1;
            }
            proof {
                let cu = castable_upto(self, *state, i as int);
                let co = castable_of(
                    self,
                    *state,
                    i as int,
                    students@[i as int].common.cooldowns@.len() as int,
                );
                assert(castable_upto(self, *state, i + 1) == cu + co);
                assert forall|k: int| 0 <= k < result@.len() implies action_for(
                    self,
                    *state,
                    targets_of,
                    #[trigger] result@[k],
                    castable_upto(self, *state, i + 1)[k],
                ) by {
                    if k < before.len() {
                        assert(result@[k] == result@.take(before.len() as int)[k]);
                        assert(result@[k] == before[k]);
                    } else {
                        assert(result@[before.len() + (k - before.len())] == result@[k]);
                    }
                }
            }
            i = i + 1;
        }
        result
    }



    /// The boss's uid.
    pub fn boss_uid(&self) -> (r: Uid)
        ensures
            r == self.boss.uid,
    {
        self.boss.uid
    }

    /// The uids of the students other than `owner`, in order.
    pub fn other_students_uid(&self, owner: Uid) -> (r: Vec<Uid>)
        ensures
            r@ == self.students@.filter(|c: Character| c.uid != owner).map_values(
                |c: Character| c.uid,
            ),
    {
        let mut out: Vec<Uid> = Vec::new();
        let mut i: usize = 0;
        while i < self.students.len()
            invariant
                i <= self.students@.len(),
                out@ == self.students@.take(i as int).filter(|c: Character| c.uid != owner).map_values(
                    |c: Character| c.uid,
                ),
            decreases self.students.len() - i,
        {
            let ghost prefix = self.students@.take(i + 1);
            assert(prefix.drop_last() =~= self.students@.take(i as int));
            reveal(Seq::filter);
            if self.students[i].uid != owner {
                out.push(self.students[i].uid);
            }
            i = i + 1;
            assert(out@ =~= self.students@.take(i as int).filter(|c: Character| c.uid != owner).map_values(
                |c: Character| c.uid,
            ));
        }
        assert(self.students@.take(i as int) =~= self.students@);
        out
    }

    /// Where `action` lands in `state`. The boss casts when the caster is the boss's uid,
    /// else the first student with that uid; with no such student the action is refused. The
    /// targets are the students other than the caster that the action names, in order. The
    /// skill must be one of the fight.
    pub fn route_action(&self, state: &State, action: &ActionContext) -> (r: Result<
        ActionRoute,
        SimError,
    >)
        ensures
            r is Err <==> ((state.boss.common.uid != action.caster && first_student_index(
                state.students.view(),
                action.caster,
            ) is None) || action.skill.1 >= self.skills@.len()),
            r matches Err(e) ==> e == SimError::NotFound,
            r matches Ok(route) ==> {
                &&& route.skill == action.skill.1
                &&& if state.boss.common.uid == action.caster {
                    &&& route.caster == Caster::Boss
                    &&& route.targets@ == wanted_students(
                        state.students.view(),
                        -1,
                        action.targets@,
                        state.students.view().len() as int,
                    )
                } else {
                    &&& first_student_index(state.students.view(), action.caster) == Some(
                        route.caster->0 as int,
                    )
                    &&& route.caster is Student
                    &&& route.targets@ == wanted_students(
                        state.students.view(),
                        route.caster->0 as int,
                        action.targets@,
                        state.students.view().len() as int,
                    )
                }
            },
    {
        let students = state.students();
        let caster;
        let targets;
        if state.boss.uid() == action.caster {
            caster = Caster::Boss;
            targets = select_targets(students, students.len(), action.targets.as_slice());
            proof {
                assert forall|upto: int| 0 <= upto <= students@.len() implies wanted_students(
                    students@,
                    students@.len() as int,
                    action.targets@,
                    upto,
                ) == wanted_students(students@, -1, action.targets@, upto) by {
                    lemma_wanted_skip_outside(students@, action.targets@, upto);
                }
            }
        } else {
            let idx = match position_of_uid(students, action.caster) {
                Some(idx) => idx,
                None => {
                    return Err(SimError::NotFound);
                },
            };
            proof {
                assert(exists|i: int|
                    0 <= i < students@.len() && students@[i].common.uid == action.caster) by {
                    assert(students@[idx as int].common.uid == action.caster);
                }
                let c = first_student_index(students@, action.caster)->0;
                assert(c == idx);
            }
            caster = Caster::Student(idx);
            targets = select_targets(students, idx, action.targets.as_slice());
        }
        if action.skill.skill_index() >= self.skills.len() {
            return Err(SimError::NotFound);
        }
        Ok(ActionRoute { caster, targets, skill: action.skill.skill_index() })
    }

}

/// Running an effect down by `a` ticks and then by `b` is running it down by `a + b`.
pub proof fn lemma_effects_compose(s: Seq<RemainedEffects>, a: u16, b: u16)
    requires
        a + b <= u16::MAX,
    ensures
        advanced_effects(advanced_effects(s, a), b) == advanced_effects(s, (a + b) as u16),
    decreases s.len(),
{
    if s.len() > 0 {
        lemma_effects_compose(s.drop_last(), a, b);
        let e = s.last();
        let once = advanced_effects(s, a);
        let rest = advanced_effects(s.drop_last(), a);
        if e.ticks > a {
            assert(once == rest.push(RemainedEffects { ticks: (e.ticks - a) as u16, ..e }));
            assert(once.drop_last() == rest);
        } else {
            assert(once == rest);
        }
    }
}

/// Moving a character on by `a` ticks and then by `b` moves it on by `a + b`: cooldowns and
/// effects run down alike whether the time passes at once or in two steps.
pub proof fn lemma_advance_composes(d: StateData, mid: StateData, end: StateData, a: u16, b: u16)
    requires
        a + b <= u16::MAX,
        advanced_data(d, mid, a),
        advanced_data(mid, end, b),
    ensures
        advanced_data(d, end, (a + b) as u16),
{
    lemma_effects_compose(d.common.remained_effects@, a, b);
    assert(end.common.cooldowns@ =~= d.common.cooldowns@.map_values(
        |c: u16| sat_sub(c, (a + b) as u16),
    ));
}

/// The clock moves on by `a` and then `b` as it does by `a + b`, stopping at `u16::MAX`.
pub proof fn lemma_frames_compose(f: u16, a: u16, b: u16)
    requires
        a + b <= u16::MAX,
    ensures
        sat_add(sat_add(f, a), b) == sat_add(f, (a + b) as u16),
{
}

/// Cost gained never takes a gauge of at most 10 past 10, nor lowers it.
pub proof fn lemma_cost_stays_in_gauge(cost: i8, delta: u16, cost_per_second: u16)
    requires
        cost <= 10,
    ensures
        0 <= cost_gain(delta, cost_per_second) <= 10,
        cost <= (if cost + cost_gain(delta, cost_per_second) < 10 {
            cost + cost_gain(delta, cost_per_second)
        } else {
            10
        }) <= 10,
{
    assert(delta * cost_per_second >= 0) by (nonlinear_arith)
        requires
            delta >= 0,
            cost_per_second >= 0,
    ;
}

/// The castable skills of one student, listed in [`castable_of`], are castable.
proof fn lemma_castable_of_sound(sim: &Simulator, state: State, i: int, upto: int)
    ensures
        forall|k: int|
            0 <= k < castable_of(sim, state, i, upto).len() ==> castable(
                sim,
                state,
                castable_of(sim, state, i, upto)[k].0,
                castable_of(sim, state, i, upto)[k].1,
            ),
    decreases upto,
{
    if upto > 0 {
        lemma_castable_of_sound(sim, state, i, upto - 1);
        let rest = castable_of(sim, state, i, upto - 1);
        assert forall|k: int| 0 <= k < castable_of(sim, state, i, upto).len() implies castable(
            sim,
            state,
            castable_of(sim, state, i, upto)[k].0,
            castable_of(sim, state, i, upto)[k].1,
        ) by {
            if k < rest.len() {
                assert(castable_of(sim, state, i, upto)[k] == rest[k]);
            }
        }
    }
}

/// Every cast that `legal_actions` lists is castable: its student holds the skill, the skill
/// is off cooldown, and the cost gauge covers its cost.
pub proof fn lemma_legal_actions_castable(sim: &Simulator, state: State, upto: int)
    ensures
        forall|k: int|
            0 <= k < castable_upto(sim, state, upto).len() ==> castable(
                sim,
                state,
                castable_upto(sim, state, upto)[k].0,
                castable_upto(sim, state, upto)[k].1,
            ),
    decreases upto,
{
    if upto > 0 {
        lemma_legal_actions_castable(sim, state, upto - 1);
        let n = state.students.view()[upto - 1].common.cooldowns@.len() as int;
        lemma_castable_of_sound(sim, state, upto - 1, n);
        let a = castable_upto(sim, state, upto - 1);
        let b = castable_of(sim, state, upto - 1, n);
        assert forall|k: int| 0 <= k < (a + b).len() implies castable(
            sim,
            state,
            (a + b)[k].0,
            (a + b)[k].1,
        ) by {
            if k >= a.len() {
                assert((a + b)[k] == b[k - a.len()]);
            }
        }
    }
}

/// The targets of an action are students of the state, each named by the action, listed once
/// and in order, and the caster is never among them.
pub proof fn lemma_targets_exclude_caster(
    students: Seq<StateData>,
    skip: int,
    wanted: Seq<Uid>,
    upto: int,
)
    requires
        upto <= students.len(),
        upto <= usize::MAX,
    ensures
        forall|k: int|
            0 <= k < wanted_students(students, skip, wanted, upto).len() ==> {
                let t = #[trigger] wanted_students(students, skip, wanted, upto)[k];
                &&& t != skip
                &&& 0 <= t < upto
                &&& wanted.contains(students[t as int].common.uid)
            },
        forall|a: int, b: int|
            0 <= a < b < wanted_students(students, skip, wanted, upto).len() ==> wanted_students(
                students,
                skip,
                wanted,
                upto,
            )[a] < wanted_students(students, skip, wanted, upto)[b],
    decreases upto,
{
    if upto > 0 {
        lemma_targets_exclude_caster(students, skip, wanted, upto - 1);
        let rest = wanted_students(students, skip, wanted, upto - 1);
        let all = wanted_students(students, skip, wanted, upto);
        assert forall|k: int| 0 <= k < all.len() implies {
            let t = #[trigger] all[k];
            &&& t != skip
            &&& 0 <= t < upto
            &&& wanted.contains(students[t as int].common.uid)
        } by {
            if k < rest.len() {
                assert(all[k] == rest[k]);
            } else {
                assert(all[k] == (upto - 1) as usize);
            }
        }
        assert forall|a: int, b: int| 0 <= a < b < all.len() implies all[a] < all[b] by {
            if b < rest.len() {
                assert(all[a] == rest[a] && all[b] == rest[b]);
            } else {
                assert(all[a] == rest[a]);
                assert(all[b] == (upto - 1) as usize);
                assert(0 <= rest[a] < upto - 1);
            }
        }
    }
}

} // verus!
