//! Binah's patterns as numbers that follow the difficulty alone.
use crate::difficulty::Difficulty;
use crate::damage::Damage;
use crate::effect::EffectTiming;
use vstd::prelude::*;

verus! {

/// The three hardest difficulties, where Binah's hits grow.
pub open spec fn is_upper_difficulty(d: Difficulty) -> bool {
    d == Difficulty::Insane || d == Difficulty::Torment || d == Difficulty::Lunatic
}

#[derive(Debug, Clone, Copy)]
pub struct AtsilutsLight {
    pub difficulty: Difficulty,
}

impl AtsilutsLight {
    pub fn new(difficulty: Difficulty) -> (r: Self)
        ensures
            r.difficulty == difficulty,
    {
        AtsilutsLight { difficulty }
    }

    pub fn cost(&self) -> (r: u8)
        ensures
            r == 0,
    {
        0
    }

    pub fn frames(&self) -> (r: u32)
        ensures
            r == 1,
    {
        1
    }

    /// The lingering light: a hit every 180 frames, for 15 seconds on Torment, two minutes on
    /// Lunatic, and not at all below.
    pub fn dot_timing(&self) -> (r: EffectTiming)
        ensures
            r == (EffectTiming::Persistent {
                interval_frames: 180,
                duration_frames: match self.difficulty {
                    Difficulty::Torment => 900,
                    Difficulty::Lunatic => 7200,
                    _ => 0,
                },
            }),
    {
        let duration: u16 = match self.difficulty {
            Difficulty::Torment => 15 * 60,
            Difficulty::Lunatic => 120 * 60,
            _ => 0,
        };
        EffectTiming::Persistent { interval_frames: 180, duration_frames: duration }
    }
}

/// Which of the two volleys of Fires of Severity.
#[derive(Debug, Clone, Copy, PartialEq, Eq, Structural)]
pub enum FiresOfSeverityHit {
    /// One hit on every target.
    First,
    /// One hit on each of the four nearest, halving twice down the line.
    Second,
}

#[derive(Debug, Clone, Copy)]
pub struct FiresofSeverity {
    pub difficulty: Difficulty,
}

/// The coefficient each target of a volley takes, as `(num, den)`, nearest target first.
pub open spec fn fires_fractions(d: Difficulty, hit: FiresOfSeverityHit, targets: nat) -> Seq<
    (u64, u64),
> {
    let base: u64 = if is_upper_difficulty(d) {
        2
    } else {
        4
    };
    match hit {
        FiresOfSeverityHit::First => Seq::new(targets, |i: int| (3u64, base)),
        FiresOfSeverityHit::Second => seq![
            (15u64, base),
            (15u64, (2 * base) as u64),
            (15u64, (2 * base) as u64),
            (15u64, (4 * base) as u64),
        ],
    }
}

/// On Insane, Torment and Lunatic the volleys hit twice as hard as below them. The first
/// volley hits every target at 3/2 there and 3/4 below. The second hits the four nearest at
/// 15/2, 15/4, 15/4 and 15/8 there, and at half of each below.
pub proof fn lemma_fires_fractions_by_difficulty(d: Difficulty, targets: nat)
    ensures
        fires_fractions(d, FiresOfSeverityHit::First, targets).len() == targets,
        forall|i: int|
            0 <= i < targets ==> #[trigger] fires_fractions(d, FiresOfSeverityHit::First, targets)[i]
                == if d == Difficulty::Insane || d == Difficulty::Torment || d == Difficulty::Lunatic {
                (3u64, 2u64)
            } else {
                (3u64, 4u64)
            },
        fires_fractions(d, FiresOfSeverityHit::Second, targets) == if d == Difficulty::Insane || d
            == Difficulty::Torment || d == Difficulty::Lunatic {
            seq![(15u64, 2u64), (15u64, 4u64), (15u64, 4u64), (15u64, 8u64)]
        } else {
            seq![(15u64, 4u64), (15u64, 8u64), (15u64, 8u64), (15u64, 16u64)]
        },
{
}

impl FiresofSeverity {
    pub fn new(difficulty: Difficulty) -> (r: Self)
        ensures
            r.difficulty == difficulty,
    {
        FiresofSeverity { difficulty }
    }

    pub fn cost(&self) -> (r: u8)
        ensures
            r == 0,
    {
        0
    }

    pub fn frames(&self) -> (r: u32)
        ensures
            r == 1,
    {
        1
    }

    /// The damage coefficient of each of `targets` targets for one volley. The second volley
    /// always has four targets.
    pub fn hit_fractions(&self, hit: FiresOfSeverityHit, targets: usize) -> (r: Vec<(u64, u64)>)
        requires
            hit == FiresOfSeverityHit::Second ==> targets == 4,
        ensures
            r@ == fires_fractions(self.difficulty, hit, targets as nat),
    {
        let upper = match self.difficulty {
            Difficulty::Insane | Difficulty::Torment | Difficulty::Lunatic => true,
            _ => false,
        };
        let mut out: Vec<(u64, u64)> = Vec::new();
        match hit {
            FiresOfSeverityHit::First => {
                let (num, den): (u64, u64) = if upper {
                    (3, 2)
                } else {
                    (3, 4)
                };
                let mut i: usize = 0;
                while i < targets
                    invariant
                        i <= targets,
                        num == 3 && den == (if is_upper_difficulty(self.difficulty) {
                            2u64
                        } else {
                            4u64
                        }),
                        hit == FiresOfSeverityHit::First,
                        out@ == fires_fractions(self.difficulty, hit, targets as nat).take(i as int),
                    decreases targets - i,
                {
                    out.push((num, den));
                    i = i + 1;
                    assert(out@ =~= fires_fractions(self.difficulty, hit, targets as nat).take(
                        i as int,
                    ));
                }
                assert(out@ =~= fires_fractions(self.difficulty, hit, targets as nat));
            },
            FiresOfSeverityHit::Second => {
                let num: u64 = 15;
                let mut den: u64 = if upper {
                    2
                } else {
                    4
                };
                let mut i: usize = 0;
                while i < 4
                    invariant
                        i <= 4,
                        targets == 4,
                        hit == FiresOfSeverityHit::Second,
                        num == 15,
                        den == (if is_upper_difficulty(self.difficulty) {
                            2u64
                        } else {
                            4u64
                        }) * (if i == 0 {
                            1u64
                        } else if i <= 2 {
                            2u64
                        } else {
                            4u64
                        }),
                        out@ == fires_fractions(self.difficulty, hit, 4).take(i as int),
                    decreases 4 - i,
                {
                    out.push((num, den));
                    if i == 0 || i == 2 {
                        den = den * 2;
                    }
                    i = i + 1;
                    assert(out@ =~= fires_fractions(self.difficulty, hit, 4).take(i as int));
                }
                assert(out@ =~= fires_fractions(self.difficulty, hit, 4));
            },
        }
        out
    }
}

/// Every record grew by one damage, `made(i, last)` holding of the damage `last` added to
/// record `i`, and lost none.
pub open spec fn each_record_grew(
    before: Seq<Vec<Damage>>,
    after: Seq<Vec<Damage>>,
    made: spec_fn(int, Damage) -> bool,
) -> bool {
    &&& after.len() == before.len()
    &&& forall|i: int|
        0 <= i < after.len() ==> (#[trigger] after[i])@.len() == before[i]@.len() + 1
            && after[i]@.drop_last() == before[i]@ && made(i, after[i]@.last())
}

/// Adds `d` to the end of record `i`.
fn push_record(records: &mut Vec<Vec<Damage>>, i: usize, d: Damage)
    requires
        i < old(records)@.len(),
    ensures
        final(records)@.len() == old(records)@.len(),
        final(records)@[i as int]@ == old(records)@[i as int]@.push(d),
        forall|j: int|
            0 <= j < old(records)@.len() && j != i ==> #[trigger] final(records)@[j] == old(
                records,
            )@[j],
{
    let mut row = records.remove(i);
    row.push(d);
    records.insert(i, row);
    assert forall|j: int|
        0 <= j < old(records)@.len() && j != i implies #[trigger] records@[j] == old(records)@[j] by {
        if j < i {
        } else {
        }
    }
}

impl FiresofSeverity {
    /// Deals one volley. Target `i` takes the damage that `damage_of` makes for it from its
    /// coefficient `num / den`, added to the end of its record `records[i]`. The second volley
    /// always has four targets.
    pub fn apply<F: Fn(usize, u64, u64) -> Damage>(
        &self,
        volley: FiresOfSeverityHit,
        damage_of: F,
        records: &mut Vec<Vec<Damage>>,
    )
        requires
            volley == FiresOfSeverityHit::Second ==> old(records)@.len() == 4,
            forall|i: usize, num: u64, den: u64| damage_of.requires((i, num, den)),
        ensures
            each_record_grew(
                old(records)@,
                final(records)@,
                |i: int, d: Damage|
                    {
                        let f = fires_fractions(
                            self.difficulty,
                            volley,
                            old(records)@.len(),
                        )[i];
                        damage_of.ensures((i as usize, f.0, f.1), d)
                    },
            ),
    {
        let fractions = self.hit_fractions(volley, records.len());
        let ghost before = records@;
        let mut i: usize = 0;
        while i < fractions.len()
            invariant
                fractions@ == fires_fractions(self.difficulty, volley, before.len()),
                fractions@.len() == before.len(),
                i <= before.len(),
                records@.len() == before.len(),
                forall|i: usize, num: u64, den: u64| damage_of.requires((i, num, den)),
                forall|j: int|
                    0 <= j < i ==> (#[trigger] records@[j])@ == before[j]@.push(
                        records@[j]@.last(),
                    ) && damage_of.ensures(
                        (j as usize, fractions@[j].0, fractions@[j].1),
                        records@[j]@.last(),
                    ),
                forall|j: int| i <= j < before.len() ==> #[trigger] records@[j] == before[j],
            decreases fractions.len() - i,
        {
            let (num, den) = fractions[i];
            let d = damage_of(i, num, den);
            push_record(records, i, d);
            i = i + 1;
        }
        assert forall|j: int| 0 <= j < records@.len() implies (#[trigger] records@[j])@.len()
            == before[j]@.len() + 1 && records@[j]@.drop_last() == before[j]@ by {
            assert(records@[j]@ == before[j]@.push(records@[j]@.last()));
            assert(records@[j]@.drop_last() =~= before[j]@);
        }
    }
}

#[derive(Debug, Clone, Copy)]
pub struct PurifyingStorm {
    pub difficulty: Difficulty,
}

impl PurifyingStorm {
    pub fn new(difficulty: Difficulty) -> (r: Self)
        ensures
            r.difficulty == difficulty,
    {
        PurifyingStorm { difficulty }
    }

    pub fn cost(&self) -> (r: u8)
        ensures
            r == 3,
    {
        3
    }

    /// Every target `i` takes the damage that `damage_of` makes for it at 300 times the
    /// coefficient, added to the end of its record `records[i]`.
    pub fn apply<F: Fn(usize, u64, u64) -> Damage>(&self, damage_of: F, records: &mut Vec<Vec<Damage>>)
        requires
            forall|i: usize, num: u64, den: u64| damage_of.requires((i, num, den)),
        ensures
            each_record_grew(
                old(records)@,
                final(records)@,
                |i: int, d: Damage| damage_of.ensures((i as usize, 300u64, 1u64), d),
            ),
    {
        let ghost before = records@;
        let mut i: usize = 0;
        while i < records.len()
            invariant
                i <= before.len(),
                records@.len() == before.len(),
                forall|i: usize, num: u64, den: u64| damage_of.requires((i, num, den)),
                forall|j: int|
                    0 <= j < i ==> (#[trigger] records@[j])@ == before[j]@.push(
                        records@[j]@.last(),
                    ) && damage_of.ensures((j as usize, 300u64, 1u64), records@[j]@.last()),
                forall|j: int| i <= j < before.len() ==> #[trigger] records@[j] == before[j],
            decreases before.len() - i,
        {
            let d = damage_of(i, 300, 1);
            push_record(records, i, d);
            i = i + 1;
        }
        assert forall|j: int| 0 <= j < records@.len() implies (#[trigger] records@[j])@.len()
            == before[j]@.len() + 1 && records@[j]@.drop_last() == before[j]@ by {
            assert(records@[j]@.drop_last() =~= before[j]@);
        }
    }

    /// Every target takes 300 times the coefficient.
    pub fn hit_fraction(&self) -> (r: (u64, u64))
        ensures
            r == (300u64, 1u64),
    {
        (300, 1)
    }
}

} // verus!
