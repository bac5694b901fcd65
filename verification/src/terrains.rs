//! Terrains and how well a student fights on each.
use vstd::prelude::*;

verus! {

#[derive(Debug, Clone, Copy, PartialEq, Eq, Hash, Default, Structural)]
pub enum Terrain {
    #[default]
    Street,
    Outdoor,
    Indoor,
}

/// Grade of adaptation to a terrain, best first.
#[derive(Debug, Clone, Copy, PartialEq, Eq, Hash, Structural)]
pub enum TerrainCombatPowerState {
    SS,
    S,
    A,
    B,
    C,
    D,
}

impl TerrainCombatPowerState {
    /// Higher grade, larger value: `D` is 0 and `SS` is 5.
    pub open spec fn spec_rank(self) -> nat {
        match self {
            Self::D => 0,
            Self::C => 1,
            Self::B => 2,
            Self::A => 3,
            Self::S => 4,
            Self::SS => 5,
        }
    }

    /// Higher grade, larger value. Written out because the variants start at `SS`, so a derived
    /// order would run backwards.
    pub fn rank(self) -> (r: u8)
        ensures
            r == self.spec_rank(),
    {
        match self {
            Self::D => 0,
            Self::C => 1,
            Self::B => 2,
            Self::A => 3,
            Self::S => 4,
            Self::SS => 5,
        }
    }

    /// One grade up. `SS` is the ceiling and stays where it is.
    pub open spec fn spec_promoted(self) -> Self {
        match self {
            Self::D => Self::C,
            Self::C => Self::B,
            Self::B => Self::A,
            Self::A => Self::S,
            Self::S | Self::SS => Self::SS,
        }
    }

    pub fn promoted(self) -> (r: Self)
        ensures
            r == self.spec_promoted(),
            r.spec_rank() == if self.spec_rank() < 5 {
                self.spec_rank() + 1
            } else {
                5
            },
    {
        match self {
            Self::D => Self::C,
            Self::C => Self::B,
            Self::B => Self::A,
            Self::A => Self::S,
            Self::S | Self::SS => Self::SS,
        }
    }
}

/// Grades rank in the game's order, from D at the bottom through C, B, A and S to SS at the
/// top.
pub proof fn lemma_grade_order(g: TerrainCombatPowerState)
    ensures
        g.spec_rank() == 0 <==> g == TerrainCombatPowerState::D,
        g.spec_rank() == 1 <==> g == TerrainCombatPowerState::C,
        g.spec_rank() == 2 <==> g == TerrainCombatPowerState::B,
        g.spec_rank() == 3 <==> g == TerrainCombatPowerState::A,
        g.spec_rank() == 4 <==> g == TerrainCombatPowerState::S,
        g.spec_rank() == 5 <==> g == TerrainCombatPowerState::SS,
{
}

/// A grade is determined by its rank.
pub proof fn lemma_rank_injective(a: TerrainCombatPowerState, b: TerrainCombatPowerState)
    ensures
        a.spec_rank() == b.spec_rank() <==> a == b,
{
}

/// The grade on each terrain.
#[derive(Debug, Clone, Copy, PartialEq, Eq, Hash, Structural)]
pub struct TerrainCombatPower {
    pub street: TerrainCombatPowerState,
    pub outdoor: TerrainCombatPowerState,
    pub indoor: TerrainCombatPowerState,
}

impl TerrainCombatPower {
    pub open spec fn spec_get(self, terrain: Terrain) -> TerrainCombatPowerState {
        match terrain {
            Terrain::Street => self.street,
            Terrain::Outdoor => self.outdoor,
            Terrain::Indoor => self.indoor,
        }
    }

    /// The highest rank over the three terrains.
    pub open spec fn top_rank(self) -> nat {
        let a = self.street.spec_rank();
        let b = self.outdoor.spec_rank();
        let c = self.indoor.spec_rank();
        if a >= b && a >= c {
            a
        } else if b >= c {
            b
        } else {
            c
        }
    }

    /// Exactly one terrain has the highest rank.
    pub open spec fn has_single_best(self) -> bool {
        let t = self.top_rank();
        (if self.street.spec_rank() == t { 1int } else { 0int }) + (if self.outdoor.spec_rank()
            == t {
            1int
        } else {
            0int
        }) + (if self.indoor.spec_rank() == t { 1int } else { 0int }) == 1
    }

    pub fn new(
        street: TerrainCombatPowerState,
        outdoor: TerrainCombatPowerState,
        indoor: TerrainCombatPowerState,
    ) -> (r: Self)
        ensures
            r.street == street && r.outdoor == outdoor && r.indoor == indoor,
    {
        TerrainCombatPower { street, outdoor, indoor }
    }

    pub fn get(&self, terrain: Terrain) -> (r: TerrainCombatPowerState)
        ensures
            r == self.spec_get(terrain),
    {
        match terrain {
            Terrain::Street => self.street,
            Terrain::Outdoor => self.outdoor,
            Terrain::Indoor => self.indoor,
        }
    }

    /// The weapon star 3 effect: only the single highest terrain is raised.
    ///
    /// Every student today has exactly one `S` in their base adaptation, so the result is one
    /// `SS`. Data with two or more terrains at the top grade is not accepted.
    pub fn promote_best(&mut self)
        requires
            old(self).has_single_best(),
        ensures
            forall|t: Terrain|
                #![trigger final(self).spec_get(t)]
                final(self).spec_get(t) == if old(self).spec_get(t).spec_rank() == old(
                    self,
                ).top_rank() {
                    old(self).spec_get(t).spec_promoted()
                } else {
                    old(self).spec_get(t)
                },
    {
        let a = self.street.rank();
        let b = self.outdoor.rank();
        let c = self.indoor.rank();
        let top = if a >= b && a >= c {
            a
        } else if b >= c {
            b
        } else {
            c
        };
        if a == top {
            self.street = self.street.promoted();
        } else if b == top {
            self.outdoor = self.outdoor.promoted();
        } else {
            self.indoor = self.indoor.promoted();
        }
    }
}

/// Raising the best terrain never lowers any terrain, and leaves that terrain on top.
pub proof fn lemma_promote_best_monotone(before: TerrainCombatPower, after: TerrainCombatPower)
    requires
        before.has_single_best(),
        forall|t: Terrain|
            #![trigger after.spec_get(t)]
            after.spec_get(t) == if before.spec_get(t).spec_rank() == before.top_rank() {
                before.spec_get(t).spec_promoted()
            } else {
                before.spec_get(t)
            },
    ensures
        forall|t: Terrain|
            #![trigger after.spec_get(t)]
            after.spec_get(t).spec_rank() >= before.spec_get(t).spec_rank(),
        after.top_rank() == if before.top_rank() < 5 {
            before.top_rank() + 1
        } else {
            5
        },
        after.has_single_best(),
{
    assert(after.spec_get(Terrain::Street) == after.street);
    assert(after.spec_get(Terrain::Outdoor) == after.outdoor);
    assert(after.spec_get(Terrain::Indoor) == after.indoor);
    assert forall|t: Terrain|
        #![trigger after.spec_get(t)]
        after.spec_get(t).spec_rank() >= before.spec_get(t).spec_rank() by {
        match t {
            Terrain::Street => {},
            Terrain::Outdoor => {},
            Terrain::Indoor => {},
        }
    }
}

} // verus!
