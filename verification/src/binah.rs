//! Binah as a boss of its own: its stats for one attack type and difficulty, and the hp at
//! which it changes phase.
use crate::base::BaseStats;
use crate::boss::{difficulties_unique, find_difficulty, first_key_index, keys_unique, lemma_first_key_index};
use crate::difficulty::Difficulty;
use crate::terrains::Terrain;
use crate::types::AttackType;
use vstd::prelude::*;

verus! {

/// What a boss fights with, apart from its patterns.
#[derive(Debug, Clone, PartialEq, Eq, Hash)]
pub struct BossSpec {
    pub name: String,
    pub base_stats: BaseStats,
    pub terrain: Terrain,
    pub groggy_gauge: u64,
    pub groggy_duration: u8,
}

/// Binah's data at one attack type and difficulty.
#[derive(Debug, Clone, Copy, PartialEq, Eq, Hash)]
pub struct DifficultyWrapper {
    pub stats: BaseStats,
    pub groggy_gauge: u64,
    pub groggy_duration: u8,
    pub phase_switching_hp: [u64; 2],
}

#[derive(Debug, Clone, PartialEq, Eq, Hash)]
pub struct Binah {
    pub stats: BossSpec,
    pub difficulty: Difficulty,
    /// The hp at which each later phase begins.
    pub phase_switching_hp: [u64; 2],
}

/// Why Binah's data has no entry for a fight.
#[derive(Debug, Clone, Copy, PartialEq, Eq, Structural)]
pub enum BinahDataError {
    MissingAttackType { attack_type: AttackType },
    MissingDifficulty { difficulty: Difficulty },
}

/// Binah's data: every attack type, each at every difficulty.
pub type BinahData = Vec<(AttackType, Vec<(Difficulty, DifficultyWrapper)>)>;

/// The first pair of `s` with key `k`, by position.
fn find_attack_type(s: &BinahData, k: AttackType) -> (r: Option<usize>)
    ensures
        r matches Some(i) ==> first_key_index(s@, k) == Some(i as nat),
        r is None ==> first_key_index(s@, k) is None,
{
    let mut i: usize = 0;
    proof {
        lemma_first_key_index(s@, k);
    }
    while i < s.len()
        invariant
            i <= s@.len(),
            forall|j: int| 0 <= j < i ==> s@[j].0 != k,
            first_key_index(s@, k) is None <==> forall|x: int| 0 <= x < s@.len() ==> s@[x].0 != k,
            first_key_index(s@, k) matches Some(x) ==> x < s@.len() && s@[x as int].0 == k
                && forall|j: int| 0 <= j < x ==> s@[j].0 != k,
        decreases s.len() - i,
    {
        if s[i].0 == k {
            return Some(i);
        }
        i = i + 1;
    }
    None
}

/// The attack types of Binah's data and the difficulties under each are keys of maps: none
/// occurs twice.
pub open spec fn binah_data_keys_unique(data: Seq<(AttackType, Vec<(Difficulty, DifficultyWrapper)>)>) -> bool {
    &&& keys_unique(data)
    &&& forall|i: int| 0 <= i < data.len() ==> #[trigger] keys_unique(data[i].1@)
}

/// No attack type occurs twice in `data`, nor any difficulty twice under one attack type, as
/// in the maps the data is written as.
pub fn data_keys_are_unique(data: &BinahData) -> (r: bool)
    ensures
        r == binah_data_keys_unique(data@),
{
    let mut i: usize = 0;
    while i < data.len()
        invariant
            i <= data@.len(),
            forall|a: int, b: int| 0 <= a < i && 0 <= b < data@.len() && a != b ==> data@[a].0 != data@[b].0,
            forall|a: int| 0 <= a < i ==> #[trigger] keys_unique(data@[a].1@),
        decreases data.len() - i,
    {
        if !difficulties_unique(&data[i].1) {
            assert(!keys_unique(data@[i as int].1@));
            return false;
        }
        let mut j: usize = 0;
        while j < data.len()
            invariant
                i < data@.len(),
                j <= data@.len(),
                forall|a: int, b: int| 0 <= a < i && 0 <= b < data@.len() && a != b ==> data@[a].0 != data@[b].0,
                forall|a: int| 0 <= a <= i ==> #[trigger] keys_unique(data@[a].1@),
                forall|b: int| 0 <= b < j && b != i ==> data@[i as int].0 != data@[b].0,
            decreases data.len() - j,
        {
            if j != i && data[i].0 == data[j].0 {
                assert(data@[i as int].0 == data@[j as int].0);
                return false;
            }
            j = j + 1;
        }
        i = i + 1;
    }
    true
}

/// Binah built from the entry `e` of its data.
pub open spec fn binah_from_entry(
    e: DifficultyWrapper,
    difficulty: Difficulty,
    terrain: Terrain,
    r: Binah,
) -> bool {
    &&& r.stats.name@ == "Binah"@
    &&& r.stats.base_stats == e.stats
    &&& r.stats.terrain == terrain
    &&& r.stats.groggy_gauge == e.groggy_gauge
    &&& r.stats.groggy_duration == e.groggy_duration
    &&& r.difficulty == difficulty
    &&& r.phase_switching_hp == e.phase_switching_hp
}

impl Binah {
    /// Binah with the stats of `attack_type` at `difficulty`, as read from its data.
    pub fn from_file(
        data: &BinahData,
        difficulty: Difficulty,
        attack_type: AttackType,
        terrain: Terrain,
    ) -> (r: Result<Binah, BinahDataError>)
        ensures
            first_key_index(data@, attack_type) is None <==> r == Err::<Binah, BinahDataError>(
                BinahDataError::MissingAttackType { attack_type },
            ),
            (r == Err::<Binah, BinahDataError>(BinahDataError::MissingDifficulty { difficulty }))
                <==> (match first_key_index(data@, attack_type) {
                Some(i) => first_key_index(data@[i as int].1@, difficulty) is None,
                None => false,
            }),
            r matches Ok(b) ==> match first_key_index(data@, attack_type) {
                Some(i) => match first_key_index(data@[i as int].1@, difficulty) {
                    Some(j) => binah_from_entry(
                        data@[i as int].1@[j as int].1,
                        difficulty,
                        terrain,
                        b,
                    ),
                    None => false,
                },
                None => false,
            },
            (match first_key_index(data@, attack_type) {
                Some(i) => first_key_index(data@[i as int].1@, difficulty) is Some,
                None => false,
            }) ==> r is Ok,
            r is Ok || r == Err::<Binah, BinahDataError>(BinahDataError::MissingAttackType { attack_type })
                || r == Err::<Binah, BinahDataError>(BinahDataError::MissingDifficulty { difficulty }),
    {
        proof {
            lemma_first_key_index(data@, attack_type);
        }
        let i = match find_attack_type(data, attack_type) {
            Some(i) => i,
            None => {
                return Err(BinahDataError::MissingAttackType { attack_type });
            },
        };
        let entries = &data[i].1;
        proof {
            lemma_first_key_index(entries@, difficulty);
        }
        let j = match find_difficulty(entries, difficulty) {
            Some(j) => j,
            None => {
                return Err(BinahDataError::MissingDifficulty { difficulty });
            },
        };
        let e = entries[j].1;
        let stats = BossSpec {
            name: "Binah".to_owned(),
            base_stats: e.stats,
            terrain,
            groggy_gauge: e.groggy_gauge,
            groggy_duration: e.groggy_duration,
        };
        Ok(Binah { stats, difficulty, phase_switching_hp: e.phase_switching_hp })
    }

    pub fn hp(&self) -> (r: u64)
        ensures
            r == self.stats.base_stats.hp,
    {
        self.stats.base_stats.hp
    }
}

} // verus!
