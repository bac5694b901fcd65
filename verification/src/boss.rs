//! Boss data: stats per armor type and difficulty, and the stats of one chosen fight.
use crate::base::BaseStats;
use crate::boss_skills::BossSkill;
use crate::uid::Uid;
use crate::difficulty::Difficulty;
use crate::locale::{Language, LocalizedName};
use crate::terrains::Terrain;
use crate::types::ArmorType;
use vstd::prelude::*;

verus! {

#[derive(Debug, Clone, PartialEq, Eq, Hash)]
pub struct BossStats {
    pub name: String,
    pub id: u32,
    pub base_stats: BaseStats,
    pub terrain: Terrain,
    pub groggy_gauge: u64,
    pub groggy_duration: u8,
    pub difficulty: Difficulty,
    pub phase_switching_hp: [u64; 3],
}

/// The stats of one armor type at one difficulty.
#[derive(Debug, Clone, Copy, PartialEq, Eq, Hash)]
pub struct DifficultyEntry {
    pub stats: BaseStats,
    pub groggy_gauge: u64,
    pub groggy_duration: u8,
    pub phase_switching_hp: [u64; 3],
}

/// A boss data file: every armor type the boss comes in, each at every difficulty.
#[derive(Debug)]
pub struct BossFile {
    pub id: u32,
    pub name: LocalizedName,
    pub by_armor: Vec<(ArmorType, Vec<(Difficulty, DifficultyEntry)>)>,
}

/// Why the stats of a fight could not be found.
#[derive(Debug, Clone, Copy, PartialEq, Eq, Structural)]
pub enum BossDataError {
    MissingArmor { armor: ArmorType, boss: u32 },
    MissingDifficulty { difficulty: Difficulty, boss: u32 },
    /// The boss's skill numbers could not be read from its data file.
    MissingSkills { boss: u32 },
}

/// Position of the first pair whose key is `k`.
pub open spec fn first_key_index<K, V>(s: Seq<(K, V)>, k: K) -> Option<nat>
    decreases s.len(),
{
    if s.len() == 0 {
        None
    } else if s[0].0 == k {
        Some(0)
    } else {
        match first_key_index(s.drop_first(), k) {
            Some(i) => Some(i + 1),
            None => None,
        }
    }
}

/// `first_key_index` finds the first match, and finds none exactly when no key matches.
pub proof fn lemma_first_key_index<K, V>(s: Seq<(K, V)>, k: K)
    ensures
        first_key_index(s, k) is None <==> forall|i: int| 0 <= i < s.len() ==> s[i].0 != k,
        first_key_index(s, k) matches Some(i) ==> i < s.len() && s[i as int].0 == k && forall|
            j: int,
        |
            0 <= j < i ==> s[j].0 != k,
    decreases s.len(),
{
    if s.len() > 0 {
        lemma_first_key_index(s.drop_first(), k);
        if s[0].0 != k {
            assert forall|i: int| 0 <= i < s.len() && s[i].0 == k implies first_key_index(
                s,
                k,
            ) is Some by {
                assert(s.drop_first()[i - 1] == s[i]);
            }
            if let Some(i) = first_key_index(s, k) {
                assert forall|j: int| 0 <= j < i implies s[j].0 != k by {
                    if j > 0 {
                        assert(s.drop_first()[j - 1] == s[j]);
                    }
                }
            }
        }
    }
}

/// No key occurs twice in `s`: the pairs form a map.
pub open spec fn keys_unique<K, V>(s: Seq<(K, V)>) -> bool {
    forall|i: int, j: int| 0 <= i < s.len() && 0 <= j < s.len() && i != j ==> s[i].0 != s[j].0
}

/// Where no key occurs twice, looking a key up finds the one pair that holds it, wherever it
/// stands: the first match is the only match.
pub proof fn lemma_unique_key_lookup<K, V>(s: Seq<(K, V)>, i: int)
    requires
        keys_unique(s),
        0 <= i < s.len(),
    ensures
        first_key_index(s, s[i].0) == Some(i as nat),
{
    lemma_first_key_index(s, s[i].0);
}

/// The armor types of a boss file and the difficulties under each are keys of maps: none occurs
/// twice.
pub open spec fn boss_file_keys_unique(by_armor: Seq<(ArmorType, Vec<(Difficulty, DifficultyEntry)>)>) -> bool {
    &&& keys_unique(by_armor)
    &&& forall|i: int| 0 <= i < by_armor.len() ==> #[trigger] keys_unique(by_armor[i].1@)
}

/// No difficulty occurs twice among `s`.
pub(crate) fn difficulties_unique<V>(s: &Vec<(Difficulty, V)>) -> (r: bool)
    ensures
        r == keys_unique(s@),
{
    let mut i: usize = 0;
    while i < s.len()
        invariant
            i <= s@.len(),
            forall|a: int, b: int| 0 <= a < i && 0 <= b < s@.len() && a != b ==> s@[a].0 != s@[b].0,
        decreases s.len() - i,
    {
        let mut j: usize = 0;
        while j < s.len()
            invariant
                i < s@.len(),
                j <= s@.len(),
                forall|a: int, b: int| 0 <= a < i && 0 <= b < s@.len() && a != b ==> s@[a].0 != s@[b].0,
                forall|b: int| 0 <= b < j && b != i ==> s@[i as int].0 != s@[b].0,
            decreases s.len() - j,
        {
            if j != i && s[i].0 == s[j].0 {
                return false;
            }
            j = j + 1;
        }
        i = i + 1;
    }
    true
}

impl BossFile {
    /// No armor type occurs twice in the file, nor any difficulty twice under one armor type,
    /// as in the maps the file is written as.
    pub fn keys_are_unique(&self) -> (r: bool)
        ensures
            r == boss_file_keys_unique(self.by_armor@),
    {
        let s = &self.by_armor;
        let mut i: usize = 0;
        while i < s.len()
            invariant
                s@ == self.by_armor@,
                i <= s@.len(),
                forall|a: int, b: int| 0 <= a < i && 0 <= b < s@.len() && a != b ==> s@[a].0 != s@[b].0,
                forall|a: int| 0 <= a < i ==> #[trigger] keys_unique(s@[a].1@),
            decreases s.len() - i,
        {
            if !difficulties_unique(&s[i].1) {
                assert(!keys_unique(s@[i as int].1@));
                return false;
            }
            let mut j: usize = 0;
            while j < s.len()
                invariant
                    s@ == self.by_armor@,
                    i < s@.len(),
                    j <= s@.len(),
                    forall|a: int, b: int| 0 <= a < i && 0 <= b < s@.len() && a != b ==> s@[a].0 != s@[b].0,
                    forall|a: int| 0 <= a <= i ==> #[trigger] keys_unique(s@[a].1@),
                    forall|b: int| 0 <= b < j && b != i ==> s@[i as int].0 != s@[b].0,
                decreases s.len() - j,
            {
                if j != i && s[i].0 == s[j].0 {
                    assert(s@[i as int].0 == s@[j as int].0);
                    return false;
                }
                j = j + 1;
            }
            i = i + 1;
        }
        true
    }
}

/// The stats for one armor type and difficulty of this boss, named in `language`.
pub open spec fn spec_boss_stats(
    file: &BossFile,
    armor_type: ArmorType,
    difficulty: Difficulty,
    terrain: Terrain,
    name: Seq<char>,
    r: BossStats,
) -> bool {
    match first_key_index(file.by_armor@, armor_type) {
        None => false,
        Some(i) => match first_key_index(file.by_armor@[i as int].1@, difficulty) {
            None => false,
            Some(j) => {
                let e = file.by_armor@[i as int].1@[j as int].1;
                &&& r.name@ == name
                &&& r.id == file.id
                &&& r.base_stats == e.stats
                &&& r.terrain == terrain
                &&& r.groggy_gauge == e.groggy_gauge
                &&& r.groggy_duration == e.groggy_duration
                &&& r.difficulty == difficulty
                &&& r.phase_switching_hp == e.phase_switching_hp
            },
        },
    }
}

/// The first pair of `s` with key `k`, by position.
fn find_armor(s: &Vec<(ArmorType, Vec<(Difficulty, DifficultyEntry)>)>, k: ArmorType) -> (r:
    Option<usize>)
    ensures
        r matches Some(i) ==> first_key_index(s@, k) == Some(i as nat),
        r is None ==> first_key_index(s@, k) is None,
{
    let mut i: usize = 0;
    proof {
        lemma_first_key_index(s@, k);
    }
    while i < s.len()
        invariant
            i <= s@.len(),
            forall|j: int| 0 <= j < i ==> s@[j].0 != k,
            first_key_index(s@, k) is None <==> forall|x: int| 0 <= x < s@.len() ==> s@[x].0 != k,
            first_key_index(s@, k) matches Some(x) ==> x < s@.len() && s@[x as int].0 == k
                && forall|j: int| 0 <= j < x ==> s@[j].0 != k,
        decreases s.len() - i,
    {
        if s[i].0 == k {
            return Some(i);
        }
        i = i + 1;
    }
    None
}

/// The first pair of `s` with key `k`, by position.
pub(crate) fn find_difficulty<V>(s: &Vec<(Difficulty, V)>, k: Difficulty) -> (r: Option<usize>)
    ensures
        r matches Some(i) ==> first_key_index(s@, k) == Some(i as nat),
        r is None ==> first_key_index(s@, k) is None,
{
    let mut i: usize = 0;
    proof {
        lemma_first_key_index(s@, k);
    }
    while i < s.len()
        invariant
            i <= s@.len(),
            forall|j: int| 0 <= j < i ==> s@[j].0 != k,
            first_key_index(s@, k) is None <==> forall|x: int| 0 <= x < s@.len() ==> s@[x].0 != k,
            first_key_index(s@, k) matches Some(x) ==> x < s@.len() && s@[x as int].0 == k
                && forall|j: int| 0 <= j < x ==> s@[j].0 != k,
        decreases s.len() - i,
    {
        if s[i].0 == k {
            return Some(i);
        }
        i = i + 1;
    }
    None
}

/// A boss as it enters a fight: its stats and its skills.
#[derive(Debug)]
pub struct Boss {
    pub stats: BossStats,
    pub skills: Vec<BossSkill>,
}

impl Boss {
    /// The boss of `file` at `armor_type` and `difficulty`, named in `language`, fighting with
    /// `skills`.
    pub fn new(
        file: &BossFile,
        armor_type: ArmorType,
        difficulty: Difficulty,
        terrain: Terrain,
        skills: Vec<BossSkill>,
        language: Language,
    ) -> (r: Result<Boss, BossDataError>)
        ensures
            first_key_index(file.by_armor@, armor_type) is None <==> r == Err::<Boss, BossDataError>(
                BossDataError::MissingArmor { armor: armor_type, boss: file.id },
            ),
            (r == Err::<Boss, BossDataError>(
                BossDataError::MissingDifficulty { difficulty, boss: file.id },
            )) <==> (match first_key_index(
                file.by_armor@,
                armor_type,
            ) {
                Some(i) => first_key_index(file.by_armor@[i as int].1@, difficulty) is None,
                None => false,
            }),
            r matches Ok(b) ==> spec_boss_stats(
                file,
                armor_type,
                difficulty,
                terrain,
                file.name.spec_get(language),
                b.stats,
            ) && b.skills@ == skills@,
            (match first_key_index(file.by_armor@, armor_type) {
                Some(i) => first_key_index(file.by_armor@[i as int].1@, difficulty) is Some,
                None => false,
            }) ==> r is Ok,
            r is Ok || r == Err::<Boss, BossDataError>(
                BossDataError::MissingArmor { armor: armor_type, boss: file.id },
            ) || r == Err::<Boss, BossDataError>(
                BossDataError::MissingDifficulty { difficulty, boss: file.id },
            ),
    {
        proof {
            lemma_first_key_index(file.by_armor@, armor_type);
        }
        let i = match find_armor(&file.by_armor, armor_type) {
            Some(i) => i,
            None => {
                return Err(BossDataError::MissingArmor { armor: armor_type, boss: file.id });
            },
        };
        let entries = &file.by_armor[i].1;
        proof {
            assert(first_key_index(file.by_armor@, armor_type) == Some(i as nat));
            assert(entries@ == file.by_armor@[i as int].1@);
            lemma_first_key_index(entries@, difficulty);
        }
        let j = match find_difficulty(entries, difficulty) {
            Some(j) => j,
            None => {
                return Err(BossDataError::MissingDifficulty { difficulty, boss: file.id });
            },
        };
        let entry = entries[j].1;
        assert(first_key_index(entries@, difficulty) == Some(j as nat));
        let name = file.name.get(language).to_owned();
        let stats = BossStats {
            name,
            id: file.id,
            base_stats: entry.stats,
            terrain,
            groggy_gauge: entry.groggy_gauge,
            groggy_duration: entry.groggy_duration,
            difficulty,
            phase_switching_hp: entry.phase_switching_hp,
        };
        Ok(Boss { stats, skills })
    }

    /// The boss's identifier in the fight, made from its id.
    pub fn id(&self) -> (r: Uid)
        ensures
            r == Uid(self.stats.id as u64),
    {
        Uid::new(self.stats.id as u64)
    }

    pub fn stats(&self) -> (r: &BaseStats)
        ensures
            *r == self.stats.base_stats,
    {
        &self.stats.base_stats
    }

    pub fn skills(&self) -> (r: &Vec<BossSkill>)
        ensures
            r@ == self.skills@,
    {
        &self.skills
    }
}

} // verus!
