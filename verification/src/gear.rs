//! The gear table: which stats each gear kind raises and by how much per tier.
use crate::ratio::Ratio;
use crate::stat::{StatKind, StatValueKind};
use vstd::prelude::*;

verus! {

/// Gear kinds. Unique items differ a lot from the rest and are kept apart.
#[derive(Debug, Clone, Copy, PartialEq, Eq, Hash, Structural)]
pub enum GearKind {
    Hat,
    Gloves,
    Shoes,
    Bag,
    Badge,
    Hairpin,
    Amulet,
    Wristwatch,
    Necklace,
}

impl GearKind {
    /// Every gear kind.
    pub const ALL: [GearKind; 9] = [
        GearKind::Hat,
        GearKind::Gloves,
        GearKind::Shoes,
        GearKind::Bag,
        GearKind::Badge,
        GearKind::Hairpin,
        GearKind::Amulet,
        GearKind::Wristwatch,
        GearKind::Necklace,
    ];

    pub open spec fn spec_index(self) -> nat {
        match self {
            GearKind::Hat => 0,
            GearKind::Gloves => 1,
            GearKind::Shoes => 2,
            GearKind::Bag => 3,
            GearKind::Badge => 4,
            GearKind::Hairpin => 5,
            GearKind::Amulet => 6,
            GearKind::Wristwatch => 7,
            GearKind::Necklace => 8,
        }
    }
}

/// `ALL` lists each kind once, at its own position, so it covers every variant.
pub proof fn lemma_all_covers_every_kind(kind: GearKind)
    ensures
        GearKind::ALL@[kind.spec_index() as int] == kind,
        forall|i: int, j: int|
            0 <= i < j < 9 ==> GearKind::ALL@[i] != GearKind::ALL@[j],
{
}

/// One stat of one gear kind: the `[min, max]` at each tier.
#[derive(Debug, PartialEq, Eq, Clone, Hash)]
pub struct GearStat {
    pub stat: StatKind,
    pub kind: StatValueKind,
    pub curve: [[Ratio; 2]; 10],
}

impl GearStat {
    /// The top of each tier is not above the bottom of the next.
    pub open spec fn tiers_ordered(self) -> bool {
        forall|i: int|
            0 <= i < 9 ==> (#[trigger] self.curve@[i])@[1].at_most(self.curve@[i + 1]@[0])
    }

    /// Within each tier the bottom is not above the top.
    pub open spec fn pairs_ordered(self) -> bool {
        forall|i: int| 0 <= i < 10 ==> (#[trigger] self.curve@[i])@[0].at_most(self.curve@[i]@[1])
    }

    pub open spec fn same_key(self, other: GearStat) -> bool {
        self.stat == other.stat && self.kind == other.kind
    }
}

#[derive(Debug, PartialEq, Eq, Clone, Hash)]
pub struct GearSlotTable {
    pub hat: Vec<GearStat>,
    pub gloves: Vec<GearStat>,
    pub shoes: Vec<GearStat>,
    pub bag: Vec<GearStat>,
    pub badge: Vec<GearStat>,
    pub hairpin: Vec<GearStat>,
    pub amulet: Vec<GearStat>,
    pub wristwatch: Vec<GearStat>,
    pub necklace: Vec<GearStat>,
}

impl GearSlotTable {
    pub open spec fn spec_slot(self, kind: GearKind) -> Seq<GearStat> {
        match kind {
            GearKind::Hat => self.hat@,
            GearKind::Gloves => self.gloves@,
            GearKind::Shoes => self.shoes@,
            GearKind::Bag => self.bag@,
            GearKind::Badge => self.badge@,
            GearKind::Hairpin => self.hairpin@,
            GearKind::Amulet => self.amulet@,
            GearKind::Wristwatch => self.wristwatch@,
            GearKind::Necklace => self.necklace@,
        }
    }
}

/// A slot is sound: no `(stat, kind)` pair twice, and every curve ordered.
pub open spec fn slot_valid(s: Seq<GearStat>) -> bool {
    &&& forall|a: int, b: int| 0 <= a < b < s.len() ==> !(#[trigger] s[a]).same_key(#[trigger] s[b])
    &&& forall|j: int| 0 <= j < s.len() ==> (#[trigger] s[j]).tiers_ordered() && s[j].pairs_ordered()
}

/// The first `n` entries of a slot are sound among themselves.
pub open spec fn prefix_sound(s: Seq<GearStat>, n: int) -> bool {
    &&& forall|a: int, b: int| 0 <= a < b < n ==> !(#[trigger] s[a]).same_key(#[trigger] s[b])
    &&& forall|a: int| 0 <= a < n ==> (#[trigger] s[a]).tiers_ordered() && s[a].pairs_ordered()
}

/// `f` is the first fault of the slot, in the order the slot is checked: entry by entry, and
/// within an entry a repeated key first, then the tiers across, then each tier within.
pub open spec fn is_first_fault(s: Seq<GearStat>, f: SlotFault) -> bool {
    match f {
        SlotFault::Duplicate { index } => {
            &&& index < s.len()
            &&& prefix_sound(s, index as int)
            &&& exists|a: int| 0 <= a < index && s[a].same_key(s[index as int])
        },
        SlotFault::Regression { index, tier } => {
            let c = s[index as int].curve@;
            &&& index < s.len()
            &&& prefix_sound(s, index as int)
            &&& forall|a: int| 0 <= a < index ==> !s[a].same_key(s[index as int])
            &&& tier < 9
            &&& !c[tier as int]@[1].at_most(c[tier + 1]@[0])
            &&& forall|u: int| 0 <= u < tier ==> (#[trigger] c[u])@[1].at_most(c[u + 1]@[0])
        },
        SlotFault::Reversed { index, tier } => {
            let c = s[index as int].curve@;
            &&& index < s.len()
            &&& prefix_sound(s, index as int)
            &&& forall|a: int| 0 <= a < index ==> !s[a].same_key(s[index as int])
            &&& s[index as int].tiers_ordered()
            &&& tier < 10
            &&& !c[tier as int]@[0].at_most(c[tier as int]@[1])
            &&& forall|u: int| 0 <= u < tier ==> (#[trigger] c[u])@[0].at_most(c[u]@[1])
        },
    }
}

/// Every slot before `gear` in the checking order is sound.
pub open spec fn slots_before_sound(t: GearTable, gear: GearKind) -> bool {
    forall|kd: GearKind|
        kd.spec_index() < gear.spec_index() ==> #[trigger] slot_valid(t.slots.spec_slot(kd))
}

/// Why a gear table was refused.
#[derive(Debug, Clone, Copy, PartialEq, Eq, Structural)]
pub enum GearTableError {
    /// The maximum level of `tier` is not below that of the next tier.
    TierLevelNotIncreasing { tier: usize },
    /// Entry `index` of `gear` repeats the stat and value kind of an earlier entry.
    DuplicateStat { gear: GearKind, index: usize },
    /// In entry `index` of `gear`, the top of `tier` is above the bottom of the next tier.
    TierRegression { gear: GearKind, index: usize, tier: usize },
    /// In entry `index` of `gear`, the bottom of `tier` is above its top.
    ReversedTier { gear: GearKind, index: usize, tier: usize },
}

#[derive(Debug, PartialEq, Eq, Clone, Hash)]
pub struct GearTable {
    pub max_level_with_tier: [u8; 10],
    pub slots: GearSlotTable,
}

impl GearTable {
    pub const MAX_TIER: usize = 10;

    /// Every gear but unique items.
    pub const TOTAL_GEARS_COUNT: usize = 9;

    pub open spec fn levels_increasing(self) -> bool {
        forall|i: int|
            0 <= i < 9 ==> (#[trigger] self.max_level_with_tier@[i]) < self.max_level_with_tier@[i
                + 1]
    }

    /// The first and last levels of `tier` (1 to 10): a tier starts one level above the last
    /// level of the tier below it, and the first tier starts at level 1.
    pub open spec fn spec_tier_levels(self, tier: usize) -> Option<(usize, usize)> {
        if tier == 0 || tier > 10 {
            None
        } else if tier == 1 {
            Some((1usize, self.max_level_with_tier@[0] as usize))
        } else {
            Some(
                (
                    (self.max_level_with_tier@[tier - 2] + 1) as usize,
                    self.max_level_with_tier@[tier - 1] as usize,
                ),
            )
        }
    }

    pub fn tier_levels(&self, tier: usize) -> (r: Option<(usize, usize)>)
        ensures
            r == self.spec_tier_levels(tier),
    {
        if tier == 0 || tier > 10 {
            None
        } else if tier == 1 {
            Some((1, self.max_level_with_tier[0] as usize))
        } else {
            Some((self.max_level_with_tier[tier - 2] as usize + 1, self.max_level_with_tier[tier - 1] as usize))
        }
    }

    /// The whole table is sound.
    pub open spec fn valid(self) -> bool {
        &&& self.levels_increasing()
        &&& forall|kind: GearKind| #[trigger] slot_valid(self.slots.spec_slot(kind))
    }

    pub fn gear_stats(&self, kind: GearKind) -> (r: &[GearStat])
        ensures
            r@ == self.slots.spec_slot(kind),
    {
        match kind {
            GearKind::Hat => self.slots.hat.as_slice(),
            GearKind::Gloves => self.slots.gloves.as_slice(),
            GearKind::Shoes => self.slots.shoes.as_slice(),
            GearKind::Bag => self.slots.bag.as_slice(),
            GearKind::Badge => self.slots.badge.as_slice(),
            GearKind::Hairpin => self.slots.hairpin.as_slice(),
            GearKind::Amulet => self.slots.amulet.as_slice(),
            GearKind::Wristwatch => self.slots.wristwatch.as_slice(),
            GearKind::Necklace => self.slots.necklace.as_slice(),
        }
    }

    /// Checks that tier levels rise, that no slot lists a `(stat, kind)` pair twice, and that
    /// every curve is ordered within and across tiers.
    pub fn validate(&self) -> (r: Result<(), GearTableError>)
        ensures
            r is Ok <==> self.valid(),
            !self.levels_increasing() ==> (r matches Err(
                GearTableError::TierLevelNotIncreasing { .. },
            )),
            r matches Err(GearTableError::TierLevelNotIncreasing { tier }) ==> tier < 9
                && self.max_level_with_tier@[tier as int] >= self.max_level_with_tier@[tier + 1]
                && forall|u: int|
                0 <= u < tier ==> #[trigger] self.max_level_with_tier@[u]
                    < self.max_level_with_tier@[u + 1],
            r matches Err(GearTableError::DuplicateStat { gear, index }) ==> self.levels_increasing()
                && slots_before_sound(*self, gear) && is_first_fault(
                self.slots.spec_slot(gear),
                SlotFault::Duplicate { index },
            ),
            r matches Err(GearTableError::TierRegression { gear, index, tier })
                ==> self.levels_increasing() && slots_before_sound(*self, gear) && is_first_fault(
                self.slots.spec_slot(gear),
                SlotFault::Regression { index, tier },
            ),
            r matches Err(GearTableError::ReversedTier { gear, index, tier })
                ==> self.levels_increasing() && slots_before_sound(*self, gear) && is_first_fault(
                self.slots.spec_slot(gear),
                SlotFault::Reversed { index, tier },
            ),
    {
        let mut i: usize = 0;
        while i < 9
            invariant
                i <= 9,
                forall|u: int|
                    0 <= u < i ==> #[trigger] self.max_level_with_tier@[u]
                        < self.max_level_with_tier@[u + 1],
            decreases 9 - i,
        {
            if self.max_level_with_tier[i] >= self.max_level_with_tier[i + 1] {
                return Err(GearTableError::TierLevelNotIncreasing { tier: i });
            }
            i = i + 1;
        }
        let all = GearKind::ALL;
        let mut k: usize = 0;
        while k < 9
            invariant
                k <= 9,
                all == GearKind::ALL,
                self.levels_increasing(),
                forall|kind: GearKind|
                    kind.spec_index() < k ==> #[trigger] slot_valid(self.slots.spec_slot(kind)),
            decreases 9 - k,
        {
            let kind = all[k];
            let stats = self.gear_stats(kind);
            match check_slot(stats) {
                Ok(()) => {},
                Err(e) => {
                    proof {
                        lemma_all_covers_every_kind(kind);
                    }
                    return Err(e.at(kind));
                },
            }
            proof {
                assert forall|kd: GearKind|
                    kd.spec_index() < k + 1 implies #[trigger] slot_valid(
                    self.slots.spec_slot(kd),
                ) by {
                    if kd.spec_index() == k {
                        lemma_all_covers_every_kind(kd);
                    }
                }
            }
            k = k + 1;
        }
        proof {
            assert forall|kd: GearKind| #[trigger] slot_valid(self.slots.spec_slot(kd)) by {
                assert(kd.spec_index() < 9);
            }
        }
        Ok(())
    }
}

/// A fault found in one slot, before the slot is named.
#[derive(Debug, Clone, Copy, PartialEq, Eq, Structural)]
pub enum SlotFault {
    Duplicate { index: usize },
    Regression { index: usize, tier: usize },
    Reversed { index: usize, tier: usize },
}

impl SlotFault {
    pub fn at(self, gear: GearKind) -> (r: GearTableError)
        ensures
            r == match self {
                SlotFault::Duplicate { index } => GearTableError::DuplicateStat { gear, index },
                SlotFault::Regression { index, tier } => GearTableError::TierRegression {
                    gear,
                    index,
                    tier,
                },
                SlotFault::Reversed { index, tier } => GearTableError::ReversedTier {
                    gear,
                    index,
                    tier,
                },
            },
    {
        match self {
            SlotFault::Duplicate { index } => GearTableError::DuplicateStat { gear, index },
            SlotFault::Regression { index, tier } => GearTableError::TierRegression {
                gear,
                index,
                tier,
            },
            SlotFault::Reversed { index, tier } => GearTableError::ReversedTier {
                gear,
                index,
                tier,
            },
        }
    }
}

/// Checks one slot in entry order: first whether the entry repeats an earlier key, then its
/// tiers across, then its tiers within.
pub fn check_slot(stats: &[GearStat]) -> (r: Result<(), SlotFault>)
    ensures
        r is Ok <==> slot_valid(stats@),
        r matches Err(f) ==> is_first_fault(stats@, f),
{
    let mut j: usize = 0;
    while j < stats.len()
        invariant
            j <= stats@.len(),
            prefix_sound(stats@, j as int),
        decreases stats@.len() - j,
    {
        let entry = &stats[j];
        let mut a: usize = 0;
        while a < j
            invariant
                a <= j,
                j < stats@.len(),
                *entry == stats@[j as int],
                prefix_sound(stats@, j as int),
                forall|x: int| 0 <= x < a ==> !(#[trigger] stats@[x]).same_key(stats@[j as int]),
            decreases j - a,
        {
            if stats[a].stat == entry.stat && stats[a].kind == entry.kind {
                assert(stats@[a as int].same_key(stats@[j as int]));
                return Err(SlotFault::Duplicate { index: j });
            }
            a = a + 1;
        }
        let mut t: usize = 0;
        while t < 9
            invariant
                t <= 9,
                j < stats@.len(),
                *entry == stats@[j as int],
                prefix_sound(stats@, j as int),
                forall|x: int| 0 <= x < j ==> !(#[trigger] stats@[x]).same_key(stats@[j as int]),
                forall|u: int|
                    0 <= u < t ==> (#[trigger] entry.curve@[u])@[1].at_most(entry.curve@[u + 1]@[0]),
            decreases 9 - t,
        {
            if entry.curve[t][1] > entry.curve[t + 1][0] {
                return Err(SlotFault::Regression { index: j, tier: t });
            }
            t = t + 1;
        }
        let mut t: usize = 0;
        while t < 10
            invariant
                t <= 10,
                j < stats@.len(),
                *entry == stats@[j as int],
                prefix_sound(stats@, j as int),
                forall|x: int| 0 <= x < j ==> !(#[trigger] stats@[x]).same_key(stats@[j as int]),
                entry.tiers_ordered(),
                forall|u: int|
                    0 <= u < t ==> (#[trigger] entry.curve@[u])@[0].at_most(entry.curve@[u]@[1]),
            decreases 10 - t,
        {
            if entry.curve[t][0] > entry.curve[t][1] {
                return Err(SlotFault::Reversed { index: j, tier: t });
            }
            t = t + 1;
        }
        j = j + 1;
    }
    Ok(())
}

} // verus!
