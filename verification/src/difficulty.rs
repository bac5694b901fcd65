//! Difficulty levels and values laid out per difficulty.
use core::ops::Index;
use vstd::prelude::*;

verus! {

#[derive(Debug, PartialEq, Eq, Clone, Copy, Hash, Structural)]
pub enum Difficulty {
    Normal,
    Hard,
    VeryHard,
    Hardcore,
    Extreme,
    Insane,
    Torment,
    Lunatic,
}

impl Difficulty {
    pub const COUNT: usize = 8;

    /// Position of the difficulty in every per-difficulty array, easiest first.
    pub open spec fn spec_index(self) -> nat {
        match self {
            Difficulty::Normal => 0,
            Difficulty::Hard => 1,
            Difficulty::VeryHard => 2,
            Difficulty::Hardcore => 3,
            Difficulty::Extreme => 4,
            Difficulty::Insane => 5,
            Difficulty::Torment => 6,
            Difficulty::Lunatic => 7,
        }
    }

    pub fn index(self) -> (r: usize)
        ensures
            r == self.spec_index(),
            r < Self::COUNT,
    {
        match self {
            Difficulty::Normal => 0,
            Difficulty::Hard => 1,
            Difficulty::VeryHard => 2,
            Difficulty::Hardcore => 3,
            Difficulty::Extreme => 4,
            Difficulty::Insane => 5,
            Difficulty::Torment => 6,
            Difficulty::Lunatic => 7,
        }
    }

    /// Every difficulty, in the order that per-difficulty arrays follow.
    pub fn all() -> (r: [Difficulty; 8])
        ensures
            forall|i: int| 0 <= i < 8 ==> (#[trigger] r@[i]).spec_index() == i,
            r@ == seq![
                Difficulty::Normal,
                Difficulty::Hard,
                Difficulty::VeryHard,
                Difficulty::Hardcore,
                Difficulty::Extreme,
                Difficulty::Insane,
                Difficulty::Torment,
                Difficulty::Lunatic,
            ],
    {
        [
            Difficulty::Normal,
            Difficulty::Hard,
            Difficulty::VeryHard,
            Difficulty::Hardcore,
            Difficulty::Extreme,
            Difficulty::Insane,
            Difficulty::Torment,
            Difficulty::Lunatic,
        ]
    }
}

/// Per-difficulty arrays run from the easiest difficulty to the hardest, in the order the
/// game lists them: Normal, Hard, Very Hard, Hardcore, Extreme, Insane, Torment, Lunatic.
pub proof fn lemma_difficulty_positions(d: Difficulty)
    ensures
        d.spec_index() == 0 <==> d == Difficulty::Normal,
        d.spec_index() == 1 <==> d == Difficulty::Hard,
        d.spec_index() == 2 <==> d == Difficulty::VeryHard,
        d.spec_index() == 3 <==> d == Difficulty::Hardcore,
        d.spec_index() == 4 <==> d == Difficulty::Extreme,
        d.spec_index() == 5 <==> d == Difficulty::Insane,
        d.spec_index() == 6 <==> d == Difficulty::Torment,
        d.spec_index() == 7 <==> d == Difficulty::Lunatic,
{
}

/// Distinct difficulties sit at distinct positions.
pub proof fn lemma_index_injective(a: Difficulty, b: Difficulty)
    ensures
        a.spec_index() == b.spec_index() <==> a == b,
{
}

/// Values laid out in difficulty order. Every skill number in the data files has this shape.
#[derive(Debug, Clone, Copy, PartialEq, Eq, Hash)]
pub struct ByDifficulty<T>(pub [T; 8]);

impl<T> ByDifficulty<T> {
    /// The value for one difficulty.
    pub fn get(&self, difficulty: Difficulty) -> (r: &T)
        ensures
            *r == self.0@[difficulty.spec_index() as int],
    {
        &self.0[difficulty.index()]
    }
}

impl<T> Index<Difficulty> for ByDifficulty<T> {
    type Output = T;

    fn index(&self, difficulty: Difficulty) -> (r: &Self::Output)
        ensures
            *r == self.0@[difficulty.spec_index() as int],
    {
        &self.0[difficulty.index()]
    }
}

impl<T> vstd::std_specs::core::IndexSpecImpl<Difficulty> for ByDifficulty<T> {
    open spec fn index_req(&self, index: &Difficulty) -> bool {
        true
    }
}

impl<T> From<[T; 8]> for ByDifficulty<T> {
    fn from(value: [T; 8]) -> (r: Self) {
        ByDifficulty(value)
    }
}

impl<T> vstd::std_specs::convert::FromSpecImpl<[T; 8]> for ByDifficulty<T> {
    open spec fn obeys_from_spec() -> bool {
        true
    }

    open spec fn from_spec(v: [T; 8]) -> Self {
        ByDifficulty(v)
    }
}

} // verus!
