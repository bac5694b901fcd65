//! The state of a fight at one moment: every character's cooldowns, running effects, hp and
//! shield, the time, and the cost gauge.
use crate::effect::RemainedEffects;
use crate::states::{GozState, KeiState, PerorodzillaState};
use crate::uid::Uid;
use vstd::prelude::*;

verus! {

/// What the simulation tracks of every character alike.
#[derive(Debug, Clone, PartialEq, Eq, Hash)]
pub struct CommonStateData {
    pub uid: Uid,
    /// Ticks left before each skill can be cast again, by the skill's position.
    pub cooldowns: Vec<u16>,
    pub remained_effects: Vec<RemainedEffects>,
    pub hp: u64,
    pub shield: u64,
}

/// State a character's skills keep between uses, for the characters that have one.
#[derive(Debug, Clone, Copy, PartialEq, Eq, Hash)]
pub enum ExtraState {
    Kei(KeiState),
    Goz(GozState),
    Perorodzilla(PerorodzillaState),
}

#[derive(Debug, Clone, PartialEq, Eq, Hash)]
pub struct StateData {
    pub common: CommonStateData,
    pub extra: Option<ExtraState>,
}

/// A copy of `v`.
fn copy_vec<T: Copy>(v: &[T]) -> (r: Vec<T>)
    ensures
        r@ == v@,
{
    let mut r: Vec<T> = Vec::new();
    let mut i: usize = 0;
    while i < v.len()
        invariant
            i <= v@.len(),
            r@ == v@.take(i as int),
        decreases v.len() - i,
    {
        r.push(v[i]);
        i = i + 1;
        assert(r@ =~= v@.take(i as int));
    }
    assert(r@ =~= v@);
    r
}

impl StateData {
    /// A character at the start of a fight: every skill ready, no effect running, no shield.
    pub fn new(uid: Uid, hp: u64, skill_count: usize, extra: Option<ExtraState>) -> (r: Self)
        ensures
            r.common.uid == uid,
            r.common.hp == hp,
            r.common.shield == 0,
            r.common.cooldowns@ == Seq::new(skill_count as nat, |i: int| 0u16),
            r.common.remained_effects@ == Seq::<RemainedEffects>::empty(),
            r.extra == extra,
    {
        let mut cooldowns: Vec<u16> = Vec::new();
        let mut i: usize = 0;
        while i < skill_count
            invariant
                i <= skill_count,
                cooldowns@ == Seq::new(i as nat, |k: int| 0u16),
            decreases skill_count - i,
        {
            cooldowns.push(0);
            i = i + 1;
            assert(cooldowns@ =~= Seq::new(i as nat, |k: int| 0u16));
        }
        StateData {
            common: CommonStateData {
                uid,
                cooldowns,
                remained_effects: Vec::new(),
                hp,
                shield: 0,
            },
            extra,
        }
    }

    pub fn from_parts(
        uid: Uid,
        hp: u64,
        shield: u64,
        cooldowns: &[u16],
        remained_effects: Vec<RemainedEffects>,
        extra: Option<ExtraState>,
    ) -> (r: Self)
        ensures
            r.common.uid == uid,
            r.common.hp == hp,
            r.common.shield == shield,
            r.common.cooldowns@ == cooldowns@,
            r.common.remained_effects@ == remained_effects@,
            r.extra == extra,
    {
        StateData {
            common: CommonStateData {
                uid,
                cooldowns: copy_vec(cooldowns),
                remained_effects,
                hp,
                shield,
            },
            extra,
        }
    }

    /// An equal copy.
    pub fn duplicate(&self) -> (r: Self)
        ensures
            r.common.uid == self.common.uid,
            r.common.hp == self.common.hp,
            r.common.shield == self.common.shield,
            r.common.cooldowns@ == self.common.cooldowns@,
            r.common.remained_effects@ == self.common.remained_effects@,
            r.extra == self.extra,
    {
        StateData {
            common: CommonStateData {
                uid: self.common.uid,
                cooldowns: copy_vec(self.common.cooldowns.as_slice()),
                remained_effects: copy_vec(self.common.remained_effects.as_slice()),
                hp: self.common.hp,
                shield: self.common.shield,
            },
            extra: self.extra,
        }
    }

    pub fn uid(&self) -> (r: Uid)
        ensures
            r == self.common.uid,
    {
        self.common.uid
    }

    pub fn cooldowns(&self) -> (r: &[u16])
        ensures
            r@ == self.common.cooldowns@,
    {
        self.common.cooldowns.as_slice()
    }

    pub fn remained_effects(&self) -> (r: &[RemainedEffects])
        ensures
            r@ == self.common.remained_effects@,
    {
        self.common.remained_effects.as_slice()
    }


    pub fn uid_mut(&mut self) -> (r: &mut Uid)
        ensures
            *r == old(self).common.uid,
            final(self).common == (CommonStateData { uid: *final(r), ..old(self).common }),
            final(self).extra == old(self).extra,
    {
        &mut self.common.uid
    }

    pub fn cooldowns_mut(&mut self) -> (r: &mut Vec<u16>)
        ensures
            *r == old(self).common.cooldowns,
            final(self).common == (CommonStateData { cooldowns: *final(r), ..old(self).common }),
            final(self).extra == old(self).extra,
    {
        &mut self.common.cooldowns
    }

    pub fn remained_effects_mut(&mut self) -> (r: &mut Vec<RemainedEffects>)
        ensures
            *r == old(self).common.remained_effects,
            final(self).common == (CommonStateData {
                remained_effects: *final(r),
                ..old(self).common
            }),
            final(self).extra == old(self).extra,
    {
        &mut self.common.remained_effects
    }

    pub fn extra(&self) -> (r: Option<&ExtraState>)
        ensures
            r == match self.extra {
                Some(e) => Some(&e),
                None => None::<&ExtraState>,
            },
    {
        match &self.extra {
            Some(e) => Some(e),
            None => None,
        }
    }

    /// The boss- or student-specific state, to change.
    pub fn extra_mut(&mut self) -> (r: Option<&mut ExtraState>)
        ensures
            old(self).extra is None ==> r is None && *final(self) == *old(self),
            old(self).extra is Some ==> (r matches Some(e) && *e == old(self).extra->0 && *final(self)
                == (StateData { extra: Some(*final(e)), ..*old(self) })),
    {
        match &mut self.extra {
            Some(e) => Some(e),
            None => None,
        }
    }
}

/// The students of a fight: six in a total assault, ten in a final restriction release.
#[derive(Debug, Clone, PartialEq, Eq, Hash)]
pub enum StudentState {
    TotalAssault([StateData; 6]),
    FinalRestrictionRelease([StateData; 10]),
}

impl StudentState {
    pub open spec fn view(&self) -> Seq<StateData> {
        match self {
            StudentState::TotalAssault(arr) => arr@,
            StudentState::FinalRestrictionRelease(arr) => arr@,
        }
    }

    pub fn as_slice(&self) -> (r: &[StateData])
        ensures
            r@ == self.view(),
    {
        match self {
            StudentState::TotalAssault(arr) => arr.as_slice(),
            StudentState::FinalRestrictionRelease(arr) => arr.as_slice(),
        }
    }

    /// The students, to change one by one; their number stays.
    pub fn as_mut_slice(&mut self) -> (r: &mut [StateData])
        ensures
            r@ == old(self).view(),
            final(self).view() == final(r)@,
            (*final(self) is TotalAssault) == (*old(self) is TotalAssault),
    {
        match self {
            StudentState::TotalAssault(arr) => arr,
            StudentState::FinalRestrictionRelease(arr) => arr,
        }
    }

    /// The first student with `uid`, to change.
    pub fn search_uid_mut(&mut self, uid: Uid) -> (r: Option<&mut StateData>)
        ensures
            first_student_index(old(self).view(), uid) is None ==> r is None && *final(self) == *old(self),
            first_student_index(old(self).view(), uid) matches Some(i) ==> (r matches Some(d) && *d
                == old(self).view()[i] && final(self).view() == old(self).view().update(i, *final(d))),
            (*final(self) is TotalAssault) == (*old(self) is TotalAssault),
    {
        let found = position_of_uid(self.as_slice(), uid);
        match found {
            Some(i) => {
                proof {
                    lemma_first_student_index_is_position(self.view(), uid, i as int);
                }
                let students = self.as_mut_slice();
                Some(&mut students[i])
            },
            None => None,
        }
    }

    /// The first student with `uid`.
    pub fn search_uid(&self, uid: Uid) -> (r: Option<&StateData>)
        ensures
            r matches Some(d) ==> exists|i: int|
                0 <= i < self.view().len() && self.view()[i] == *d && d.common.uid == uid
                    && forall|j: int| 0 <= j < i ==> self.view()[j].common.uid != uid,
            r is None ==> forall|i: int|
                0 <= i < self.view().len() ==> self.view()[i].common.uid != uid,
    {
        let students = self.as_slice();
        match position_of_uid(students, uid) {
            Some(i) => Some(&students[i]),
            None => None,
        }
    }
}

/// Position of the first student of `students` with `uid`.
pub open spec fn first_student_index(students: Seq<StateData>, uid: Uid) -> Option<int> {
    if exists|i: int| 0 <= i < students.len() && students[i].common.uid == uid {
        Some(
            choose|i: int|
                0 <= i < students.len() && students[i].common.uid == uid && forall|j: int|
                    0 <= j < i ==> students[j].common.uid != uid,
        )
    } else {
        None
    }
}

/// A position holding `uid` with none before it is the first one, and without any position
/// holding `uid` there is none.
pub(crate) proof fn lemma_first_student_index_is_position(students: Seq<StateData>, uid: Uid, i: int)
    requires
        0 <= i < students.len() ==> students[i].common.uid == uid && forall|j: int|
            0 <= j < i ==> students[j].common.uid != uid,
        !(0 <= i < students.len()) ==> forall|j: int| 0 <= j < students.len() ==> students[j].common.uid != uid,
    ensures
        0 <= i < students.len() ==> first_student_index(students, uid) == Some(i),
        !(0 <= i < students.len()) ==> first_student_index(students, uid) is None,
{
    if 0 <= i < students.len() {
        assert(students[i].common.uid == uid);
        let c = first_student_index(students, uid)->0;
        assert(c == i);
    }
}

/// Position of the first of `s` with `uid`.
pub fn position_of_uid(s: &[StateData], uid: Uid) -> (r: Option<usize>)
    ensures
        r matches Some(i) ==> i < s@.len() && s@[i as int].common.uid == uid && forall|j: int|
            0 <= j < i ==> s@[j].common.uid != uid,
        r is None ==> forall|i: int| 0 <= i < s@.len() ==> s@[i].common.uid != uid,
{
    let mut i: usize = 0;
    while i < s.len()
        invariant
            i <= s@.len(),
            forall|j: int| 0 <= j < i ==> s@[j].common.uid != uid,
        decreases s.len() - i,
    {
        if s[i].common.uid == uid {
            return Some(i);
        }
        i = i + 1;
    }
    None
}

#[derive(Debug, Clone, PartialEq, Eq, Hash)]
pub struct State {
    pub students: StudentState,
    pub boss: StateData,
    /// Ticks since the fight began.
    pub frames: u16,
    /// The cost gauge; it never rises past 10.
    pub cost: i8,
}

impl State {
    /// A state with copies of `students`, of whom there must be six or ten.
    pub fn new(students: &[StateData], boss: StateData, frames: u16, cost: i8) -> (r: Self)
        requires
            students@.len() == 6 || students@.len() == 10,
        ensures
            r.students.view().len() == students@.len(),
            forall|i: int|
                0 <= i < students@.len() ==> {
                    let a = #[trigger] r.students.view()[i];
                    let b = students@[i];
                    &&& a.common.uid == b.common.uid
                    &&& a.common.hp == b.common.hp
                    &&& a.common.shield == b.common.shield
                    &&& a.common.cooldowns@ == b.common.cooldowns@
                    &&& a.common.remained_effects@ == b.common.remained_effects@
                    &&& a.extra == b.extra
                },
            r.students is TotalAssault <==> students@.len() == 6,
            r.boss == boss,
            r.frames == frames,
            r.cost == cost,
    {
        if students.len() == 6 {
            let arr = [
                students[0].duplicate(),
                students[1].duplicate(),
                students[2].duplicate(),
                students[3].duplicate(),
                students[4].duplicate(),
                students[5].duplicate(),
            ];
            State { students: StudentState::TotalAssault(arr), boss, frames, cost }
        } else {
            let arr = [
                students[0].duplicate(),
                students[1].duplicate(),
                students[2].duplicate(),
                students[3].duplicate(),
                students[4].duplicate(),
                students[5].duplicate(),
                students[6].duplicate(),
                students[7].duplicate(),
                students[8].duplicate(),
                students[9].duplicate(),
            ];
            State { students: StudentState::FinalRestrictionRelease(arr), boss, frames, cost }
        }
    }

    pub fn students(&self) -> (r: &[StateData])
        ensures
            r@ == self.students.view(),
    {
        self.students.as_slice()
    }

    pub fn boss(&self) -> (r: &StateData)
        ensures
            *r == self.boss,
    {
        &self.boss
    }


    pub fn boss_mut(&mut self) -> (r: &mut StateData)
        ensures
            *r == old(self).boss,
            *final(self) == (State { boss: *final(r), ..*old(self) }),
    {
        &mut self.boss
    }

    /// The students, to change one by one; their number stays.
    pub fn students_mut(&mut self) -> (r: &mut [StateData])
        ensures
            r@ == old(self).students.view(),
            final(self).students.view() == final(r)@,
            (final(self).students is TotalAssault) == (old(self).students is TotalAssault),
            final(self).boss == old(self).boss,
            final(self).frames == old(self).frames,
            final(self).cost == old(self).cost,
    {
        self.students.as_mut_slice()
    }

    /// The boss and the students, to change at once.
    pub fn split_mut(&mut self) -> (r: (&mut StateData, &mut [StateData]))
        ensures
            *r.0 == old(self).boss,
            r.1@ == old(self).students.view(),
            final(self).boss == *final(r.0),
            final(self).students.view() == final(r.1)@,
            (final(self).students is TotalAssault) == (old(self).students is TotalAssault),
            final(self).frames == old(self).frames,
            final(self).cost == old(self).cost,
    {
        let students = self.students.as_mut_slice();
        (&mut self.boss, students)
    }

    /// The boss, then each student, to change at once.
    pub fn split_all_mut(&mut self) -> (r: Vec<&mut StateData>)
        ensures
            r@.len() == old(self).students.view().len() + 1,
            *r@[0] == old(self).boss,
            forall|i: int|
                0 <= i < old(self).students.view().len() ==> *r@[i + 1] == old(self).students.view()[i],
            final(self).boss == *final(r@[0]),
            final(self).students.view() == Seq::new(
                old(self).students.view().len(),
                |i: int| *final(r@[i + 1]),
            ),
            (final(self).students is TotalAssault) == (old(self).students is TotalAssault),
            final(self).frames == old(self).frames,
            final(self).cost == old(self).cost,
    {
        let (boss, students) = self.split_mut();
        let ghost all = students@;
        let ghost n = students@.len();
        let ghost fin = final(students)@;
        let ghost boss_before = *boss;
        let ghost boss_after = *final(boss);
        let mut out: Vec<&mut StateData> = Vec::new();
        out.push(boss);
        let mut rest: &mut [StateData] = students;
        let ghost mut k: int = 0;
        while rest.len() > 0
            invariant
                n == all.len(),
                0 <= k <= n,
                out@.len() == k + 1,
                rest@ == all.subrange(k, n as int),
                *out@[0] == boss_before,
                *final(out@[0]) == boss_after,
                forall|i: int| 0 <= i < k ==> *out@[i + 1] == all[i],
                fin == Seq::new(k as nat, |i: int| *final(out@[i + 1])) + final(rest)@,
            decreases rest@.len(),
        {
            let (head, tail) = rest.split_at_mut(1);
            let h = &mut head[0];
            out.push(h);
            rest = tail;
            proof {
                assert(rest@ =~= all.subrange(k + 1, n as int));
                k = k + 1;
            }
        }
        out
    }

    pub fn cost(&self) -> (r: i8)
        ensures
            r == self.cost,
    {
        self.cost
    }

    pub fn frames(&self) -> (r: u16)
        ensures
            r == self.frames,
    {
        self.frames
    }

    /// The character with `uid`: the boss first, then the first such student.
    pub fn search_uid(&self, uid: Uid) -> (r: Option<&StateData>)
        ensures
            self.boss.common.uid == uid ==> r == Some(&self.boss),
            self.boss.common.uid != uid ==> {
                &&& r matches Some(d) ==> exists|i: int|
                    0 <= i < self.students.view().len() && self.students.view()[i] == *d
                        && d.common.uid == uid && forall|j: int|
                        0 <= j < i ==> self.students.view()[j].common.uid != uid
                &&& r is None ==> forall|i: int|
                    0 <= i < self.students.view().len() ==> self.students.view()[i].common.uid
                        != uid
            },
    {
        if uid == self.boss.common.uid {
            return Some(&self.boss);
        }
        self.students.search_uid(uid)
    }

    /// The character with `uid`, to change: the boss first, then the first such student.
    pub fn search_uid_mut(&mut self, uid: Uid) -> (r: Option<&mut StateData>)
        ensures
            old(self).boss.common.uid == uid ==> (r matches Some(d) && *d == old(self).boss && *final(self)
                == (State { boss: *final(d), ..*old(self) })),
            old(self).boss.common.uid != uid ==> {
                &&& final(self).boss == old(self).boss
                &&& final(self).frames == old(self).frames
                &&& final(self).cost == old(self).cost
                &&& (final(self).students is TotalAssault) == (old(self).students is TotalAssault)
                &&& first_student_index(old(self).students.view(), uid) is None ==> r is None
                    && final(self).students == old(self).students
                &&& first_student_index(old(self).students.view(), uid) matches Some(i) ==> (r matches Some(
                    d,
                ) && *d == old(self).students.view()[i] && final(self).students.view()
                    == old(self).students.view().update(i, *final(d)))
            },
    {
        if uid == self.boss.common.uid {
            return Some(&mut self.boss);
        }
        self.students.search_uid_mut(uid)
    }

    /// Every student is down.
    pub fn is_terminal(&self) -> (r: bool)
        ensures
            r == forall|i: int|
                0 <= i < self.students.view().len() ==> #[trigger] self.students.view()[i].common.hp
                    == 0,
    {
        let students = self.students();
        let mut i: usize = 0;
        while i < students.len()
            invariant
                students@ == self.students.view(),
                i <= students@.len(),
                forall|j: int| 0 <= j < i ==> #[trigger] students@[j].common.hp == 0,
            decreases students.len() - i,
        {
            if students[i].common.hp != 0 {
                return false;
            }
            i = i + 1;
        }
        true
    }

    /// The boss is down.
    pub fn is_goal(&self) -> (r: bool)
        ensures
            r == (self.boss.common.hp == 0),
    {
        self.boss.common.hp == 0
    }

}

} // verus!
