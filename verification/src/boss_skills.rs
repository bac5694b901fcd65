//! The skills a boss fights with, built from its data file and the difficulty of the fight.
use crate::actions::BossKind;
use crate::binah_params::{
    AtsilutsLightParams, FiresOfSeverityParams, PurifyingStormParams, RawSkills,
};
use crate::boss::{BossDataError, BossFile};
use crate::difficulty::Difficulty;
use crate::goz;
use crate::locale::Language;
use crate::perorodzilla::{self, spec_params_of, Params};
use crate::skill::{SkillNumbers, SkillType};
use crate::uid::{SkillUid, Uid};
use vstd::prelude::*;

verus! {

/// What every skill carries besides its own numbers: who owns it, where it sits, and when it
/// can be cast.
#[derive(Debug, Clone, PartialEq, Eq)]
pub struct SkillHeader {
    pub owner: Uid,
    /// Position of the skill among its owner's own skills.
    pub owner_offset: usize,
    pub name: String,
    /// Position of the skill among every skill of the fight.
    pub skill_offset: usize,
    pub skill_type: SkillType,
    pub cost: u8,
    /// Time from the cast to its end.
    pub duration: u16,
    /// Time from the trigger to the cast.
    pub frames: u16,
}

impl SkillHeader {
    pub fn new(
        owner: Uid,
        owner_offset: usize,
        name: &str,
        skill_offset: usize,
        skill_type: SkillType,
        cost: u8,
        duration: u16,
        frames: u16,
    ) -> (r: Self)
        ensures
            r.owner == owner,
            r.owner_offset == owner_offset,
            r.name@ == name@,
            r.skill_offset == skill_offset,
            r.skill_type == skill_type,
            r.cost == cost,
            r.duration == duration,
            r.frames == frames,
    {
        SkillHeader {
            owner,
            owner_offset,
            name: name.to_owned(),
            skill_offset,
            skill_type,
            cost,
            duration,
            frames,
        }
    }

    pub fn name(&self) -> (r: &str)
        ensures
            r@ == self.name@,
    {
        self.name.as_str()
    }

    /// The skill's identifier: its owner and its position among every skill of the fight.
    pub fn uid(&self) -> (r: SkillUid)
        ensures
            r == SkillUid(self.owner, self.skill_offset),
    {
        SkillUid::new(self.owner, self.skill_offset)
    }

    pub fn owner_uid(&self) -> (r: Uid)
        ensures
            r == self.owner,
    {
        self.owner
    }

    pub fn cost(&self) -> (r: u8)
        ensures
            r == self.cost,
    {
        self.cost
    }

    pub fn duration(&self) -> (r: u16)
        ensures
            r == self.duration,
    {
        self.duration
    }

    pub fn frames(&self) -> (r: u16)
        ensures
            r == self.frames,
    {
        self.frames
    }

    pub fn skill_offset(&self) -> (r: usize)
        ensures
            r == self.skill_offset,
    {
        self.skill_offset
    }

    pub fn skill_type(&self) -> (r: SkillType)
        ensures
            r == self.skill_type,
    {
        self.skill_type
    }
}

/// Every boss skill the library knows.
#[derive(Debug, Clone, Copy, PartialEq, Eq, Hash, Structural)]
pub enum BossSkillKind {
    BinahAtsilutsLight,
    BinahFiresofSeverity,
    BinahPurifyingStorm,
    GozNowYouSeeUs,
    GozThreeLightMonte,
    GozMagicalCoinHat,
    PerorodzillaWhiteHotHeatVision,
    PerorodzillaAquaBall,
    PerorodzillaSummonMinion,
    PerorodzillaAbsorbMinion,
    PerorodzillaHyperSpiralGlareBeam,
    PerorodzillaBurningPerorodzilla,
}

impl BossSkillKind {
    /// Position of the skill among its boss's own skills.
    pub open spec fn spec_owner_offset(self) -> usize {
        match self {
            BossSkillKind::BinahAtsilutsLight => 0,
            BossSkillKind::BinahFiresofSeverity => 1,
            BossSkillKind::BinahPurifyingStorm => 2,
            BossSkillKind::GozNowYouSeeUs => 0,
            BossSkillKind::GozThreeLightMonte => 1,
            BossSkillKind::GozMagicalCoinHat => 2,
            BossSkillKind::PerorodzillaWhiteHotHeatVision => 0,
            BossSkillKind::PerorodzillaAquaBall => 1,
            BossSkillKind::PerorodzillaSummonMinion => 2,
            BossSkillKind::PerorodzillaAbsorbMinion => 3,
            BossSkillKind::PerorodzillaHyperSpiralGlareBeam => 4,
            BossSkillKind::PerorodzillaBurningPerorodzilla => 5,
        }
    }

    /// Burning Perorodzilla is a passive; every other boss skill is an ex skill.
    pub open spec fn spec_skill_type(self) -> SkillType {
        match self {
            BossSkillKind::PerorodzillaBurningPerorodzilla => SkillType::Passive,
            _ => SkillType::Ex,
        }
    }

    pub fn owner_offset(self) -> (r: usize)
        ensures
            r == self.spec_owner_offset(),
    {
        match self {
            BossSkillKind::BinahAtsilutsLight => 0,
            BossSkillKind::BinahFiresofSeverity => 1,
            BossSkillKind::BinahPurifyingStorm => 2,
            BossSkillKind::GozNowYouSeeUs => 0,
            BossSkillKind::GozThreeLightMonte => 1,
            BossSkillKind::GozMagicalCoinHat => 2,
            BossSkillKind::PerorodzillaWhiteHotHeatVision => 0,
            BossSkillKind::PerorodzillaAquaBall => 1,
            BossSkillKind::PerorodzillaSummonMinion => 2,
            BossSkillKind::PerorodzillaAbsorbMinion => 3,
            BossSkillKind::PerorodzillaHyperSpiralGlareBeam => 4,
            BossSkillKind::PerorodzillaBurningPerorodzilla => 5,
        }
    }

    pub fn skill_type(self) -> (r: SkillType)
        ensures
            r == self.spec_skill_type(),
    {
        match self {
            BossSkillKind::PerorodzillaBurningPerorodzilla => SkillType::Passive,
            _ => SkillType::Ex,
        }
    }
}

/// The numbers a boss skill works with beyond its header.
#[derive(Debug, Clone, Copy)]
pub enum BossSkillParams {
    AtsilutsLight(AtsilutsLightParams),
    FiresOfSeverity(FiresOfSeverityParams),
    PurifyingStorm(PurifyingStormParams),
    /// Goz's skills carry no numbers of their own.
    Goz,
    Perorodzilla(Params),
}

/// One skill of a boss: which it is, its header and its numbers.
#[derive(Debug, Clone)]
pub struct BossSkill {
    pub kind: BossSkillKind,
    pub header: SkillHeader,
    pub params: BossSkillParams,
}

impl BossSkill {
    /// A skill of `kind`, owned by `owner` and at `skill_offset` among every skill of the
    /// fight; its own offset and type follow from its kind.
    pub fn new(
        kind: BossSkillKind,
        owner: Uid,
        skill_offset: usize,
        name: String,
        numbers: SkillNumbers,
        params: BossSkillParams,
    ) -> (r: Self)
        ensures
            r.kind == kind,
            r.header.owner == owner,
            r.header.owner_offset == kind.spec_owner_offset(),
            r.header.name@ == name@,
            r.header.skill_offset == skill_offset,
            r.header.skill_type == kind.spec_skill_type(),
            r.header.cost == numbers.cost,
            r.header.duration == numbers.duration,
            r.header.frames == numbers.frames,
            r.params == params,
    {
        BossSkill {
            kind,
            header: SkillHeader {
                owner,
                owner_offset: kind.owner_offset(),
                name,
                skill_offset,
                skill_type: kind.skill_type(),
                cost: numbers.cost,
                duration: numbers.duration,
                frames: numbers.frames,
            },
            params,
        }
    }
}

/// The skills of each boss, in the order the fight lists them.
pub open spec fn boss_skill_kinds(kind: BossKind) -> Seq<BossSkillKind> {
    match kind {
        BossKind::Binah => seq![
            BossSkillKind::BinahAtsilutsLight,
            BossSkillKind::BinahFiresofSeverity,
            BossSkillKind::BinahPurifyingStorm,
        ],
        BossKind::Goz => seq![
            BossSkillKind::GozMagicalCoinHat,
            BossSkillKind::GozNowYouSeeUs,
            BossSkillKind::GozThreeLightMonte,
        ],
        BossKind::Perorodzilla => seq![
            BossSkillKind::PerorodzillaWhiteHotHeatVision,
            BossSkillKind::PerorodzillaAquaBall,
            BossSkillKind::PerorodzillaSummonMinion,
            BossSkillKind::PerorodzillaAbsorbMinion,
            BossSkillKind::PerorodzillaHyperSpiralGlareBeam,
            BossSkillKind::PerorodzillaBurningPerorodzilla,
        ],
    }
}

/// Each boss numbers its own skills from 0: Binah's Atsilut's Light, Fires of Severity and
/// Purifying Storm; Goz's Now You See Us, Three-Light Monte and Magical Coin Hat; and
/// Perorodzilla's Heat Vision, Aqua Ball, Summon Minion, Absorb Minion, Hyper Spiral Glare Beam
/// and Burning Perorodzilla, in that order.
pub proof fn lemma_boss_skill_offsets(k: BossSkillKind)
    ensures
        k.spec_owner_offset() == 0 <==> (k == BossSkillKind::BinahAtsilutsLight || k
            == BossSkillKind::GozNowYouSeeUs || k == BossSkillKind::PerorodzillaWhiteHotHeatVision),
        k.spec_owner_offset() == 1 <==> (k == BossSkillKind::BinahFiresofSeverity || k
            == BossSkillKind::GozThreeLightMonte || k == BossSkillKind::PerorodzillaAquaBall),
        k.spec_owner_offset() == 2 <==> (k == BossSkillKind::BinahPurifyingStorm || k
            == BossSkillKind::GozMagicalCoinHat || k == BossSkillKind::PerorodzillaSummonMinion),
        k.spec_owner_offset() == 3 <==> k == BossSkillKind::PerorodzillaAbsorbMinion,
        k.spec_owner_offset() == 4 <==> k == BossSkillKind::PerorodzillaHyperSpiralGlareBeam,
        k.spec_owner_offset() == 5 <==> k == BossSkillKind::PerorodzillaBurningPerorodzilla,
{
}

/// Every boss skill is an ex skill except Burning Perorodzilla, a passive held for the whole
/// fight.
pub proof fn lemma_boss_skill_types(k: BossSkillKind)
    ensures
        k.spec_skill_type() == SkillType::Passive <==> k == BossSkillKind::PerorodzillaBurningPerorodzilla,
        k.spec_skill_type() == SkillType::Ex <==> k != BossSkillKind::PerorodzillaBurningPerorodzilla,
{
}

/// The name a built skill takes: Binah's skills are named in its data file, every other
/// boss's skills take the boss's name.
pub open spec fn built_name(
    k: BossSkillKind,
    file: &BossFile,
    raw: Option<&RawSkills>,
    language: Language,
) -> Seq<char> {
    match (k, raw) {
        (BossSkillKind::BinahAtsilutsLight, Some(rs)) => rs.atsiluts_light.name.spec_get(language),
        (BossSkillKind::BinahFiresofSeverity, Some(rs)) => rs.fires_of_severity.name.spec_get(
            language,
        ),
        (BossSkillKind::BinahPurifyingStorm, Some(rs)) => rs.purifying_storm.name.spec_get(
            language,
        ),
        _ => file.name.spec_get(language),
    }
}

/// The numbers a built skill carries in its header.
pub open spec fn built_numbers(k: BossSkillKind, raw: Option<&RawSkills>, d: Difficulty) -> (
    u8,
    u16,
    u16,
) {
    match (k, raw) {
        (BossSkillKind::BinahAtsilutsLight, Some(rs)) => {
            let p = rs.atsiluts_light.spec_pick(d);
            (p.cost, p.duration, p.frames)
        },
        (BossSkillKind::BinahFiresofSeverity, Some(rs)) => {
            let p = rs.fires_of_severity.spec_pick(d);
            (p.cost, p.duration, p.frames)
        },
        (BossSkillKind::BinahPurifyingStorm, Some(rs)) => {
            let p = rs.purifying_storm.spec_pick(d);
            (p.cost, p.duration, p.frames)
        },
        (BossSkillKind::GozMagicalCoinHat, _) => (
            0,
            goz::MAGICAL_COIN_HAT_DURATION,
            goz::MAGICAL_COIN_HAT_FRAMES,
        ),
        (BossSkillKind::GozThreeLightMonte, _) => (
            goz::THREE_LIGHT_MONTE_COST,
            goz::THREE_LIGHT_MONTE_DURATION,
            goz::THREE_LIGHT_MONTE_FRAMES,
        ),
        (BossSkillKind::PerorodzillaWhiteHotHeatVision, _) => (
            0,
            perorodzilla::DOT_DURATION,
            perorodzilla::WHITE_HOT_HEAT_VISION_FRAMES,
        ),
        (BossSkillKind::PerorodzillaAquaBall, _) => (0, 0, perorodzilla::AQUA_BALL_FRAMES),
        (BossSkillKind::PerorodzillaSummonMinion, _) => (0, 0, perorodzilla::SUMMON_MINION_FRAMES),
        (BossSkillKind::PerorodzillaAbsorbMinion, _) => (0, 0, perorodzilla::ABSORB_MINION_FRAMES),
        (BossSkillKind::PerorodzillaHyperSpiralGlareBeam, _) => (
            0,
            0,
            perorodzilla::HYPER_SPIRAL_GLARE_BEAM_FRAMES,
        ),
        _ => (0, 0, 0),
    }
}

/// The numbers a built skill works with.
pub open spec fn built_params(k: BossSkillKind, raw: Option<&RawSkills>, d: Difficulty) -> BossSkillParams {
    match (k, raw) {
        (BossSkillKind::BinahAtsilutsLight, Some(rs)) => BossSkillParams::AtsilutsLight(
            rs.atsiluts_light.spec_pick(d),
        ),
        (BossSkillKind::BinahFiresofSeverity, Some(rs)) => BossSkillParams::FiresOfSeverity(
            rs.fires_of_severity.spec_pick(d),
        ),
        (BossSkillKind::BinahPurifyingStorm, Some(rs)) => BossSkillParams::PurifyingStorm(
            rs.purifying_storm.spec_pick(d),
        ),
        (BossSkillKind::GozMagicalCoinHat, _) | (BossSkillKind::GozNowYouSeeUs, _) | (
            BossSkillKind::GozThreeLightMonte,
            _,
        ) => BossSkillParams::Goz,
        _ => BossSkillParams::Perorodzilla(spec_params_of(d)),
    }
}

/// `s` is the skill of kind `k` at `skill_offset`, owned by the boss of `file`.
pub open spec fn built_as(
    s: BossSkill,
    k: BossSkillKind,
    file: &BossFile,
    raw: Option<&RawSkills>,
    d: Difficulty,
    skill_offset: int,
    language: Language,
) -> bool {
    let (cost, duration, frames) = built_numbers(k, raw, d);
    &&& s.kind == k
    &&& s.header.owner == Uid(file.id as u64)
    &&& s.header.owner_offset == k.spec_owner_offset()
    &&& s.header.name@ == built_name(k, file, raw, language)
    &&& s.header.skill_offset == skill_offset
    &&& s.header.skill_type == k.spec_skill_type()
    &&& s.header.cost == cost
    &&& s.header.duration == duration
    &&& s.header.frames == frames
    &&& s.params == built_params(k, raw, d)
}

/// The skills of a boss of `kind` at `difficulty`, numbered from `offset` among every skill of
/// the fight. Binah's numbers come from the `skills` object of its data file, read into `raw`;
/// without it Binah has no skills to build. The other bosses' numbers are fixed in the library.
pub fn build_skills(
    kind: BossKind,
    file: &BossFile,
    raw: Option<&RawSkills>,
    difficulty: Difficulty,
    offset: usize,
    language: Language,
) -> (r: Result<Vec<BossSkill>, BossDataError>)
    requires
        offset + boss_skill_kinds(kind).len() - 1 <= usize::MAX,
    ensures
        r is Err <==> kind == BossKind::Binah && raw is None,
        r matches Err(e) ==> e == (BossDataError::MissingSkills { boss: file.id }),
        r matches Ok(v) ==> {
            &&& v@.len() == boss_skill_kinds(kind).len()
            &&& forall|i: int|
                0 <= i < v@.len() ==> built_as(
                    #[trigger] v@[i],
                    boss_skill_kinds(kind)[i],
                    file,
                    raw,
                    difficulty,
                    offset + i,
                    language,
                )
        },
{
    let owner = Uid::new(file.id as u64);
    match kind {
        BossKind::Binah => {
            let rs = match raw {
                Some(rs) => rs,
                None => {
                    return Err(BossDataError::MissingSkills { boss: file.id });
                },
            };
            let atsiluts_light = rs.atsiluts_light.pick(difficulty);
            let fires_of_severity = rs.fires_of_severity.pick(difficulty);
            let purifying_storm = rs.purifying_storm.pick(difficulty);
            let v = vec![
                BossSkill::new(
                    BossSkillKind::BinahAtsilutsLight,
                    owner,
                    offset,
                    rs.atsiluts_light.name.get(language).to_owned(),
                    SkillNumbers::of(&atsiluts_light),
                    BossSkillParams::AtsilutsLight(atsiluts_light),
                ),
                BossSkill::new(
                    BossSkillKind::BinahFiresofSeverity,
                    owner,
                    offset + 1,
                    rs.fires_of_severity.name.get(language).to_owned(),
                    SkillNumbers::of(&fires_of_severity),
                    BossSkillParams::FiresOfSeverity(fires_of_severity),
                ),
                BossSkill::new(
                    BossSkillKind::BinahPurifyingStorm,
                    owner,
                    offset + 2,
                    rs.purifying_storm.name.get(language).to_owned(),
                    SkillNumbers::of(&purifying_storm),
                    BossSkillParams::PurifyingStorm(purifying_storm),
                ),
            ];
            assert forall|i: int| 0 <= i < v@.len() implies built_as(
                #[trigger] v@[i],
                boss_skill_kinds(kind)[i],
                file,
                raw,
                difficulty,
                offset + i,
                language,
            ) by {}
            Ok(v)
        },
        BossKind::Goz => {
            let v = vec![
                BossSkill::new(
                    BossSkillKind::GozMagicalCoinHat,
                    owner,
                    offset,
                    file.name.get(language).to_owned(),
                    SkillNumbers {
                        cost: 0,
                        duration: goz::MAGICAL_COIN_HAT_DURATION,
                        frames: goz::MAGICAL_COIN_HAT_FRAMES,
                    },
                    BossSkillParams::Goz,
                ),
                BossSkill::new(
                    BossSkillKind::GozNowYouSeeUs,
                    owner,
                    offset + 1,
                    file.name.get(language).to_owned(),
                    SkillNumbers { cost: 0, duration: 0, frames: 0 },
                    BossSkillParams::Goz,
                ),
                BossSkill::new(
                    BossSkillKind::GozThreeLightMonte,
                    owner,
                    offset + 2,
                    file.name.get(language).to_owned(),
                    SkillNumbers {
                        cost: goz::THREE_LIGHT_MONTE_COST,
                        duration: goz::THREE_LIGHT_MONTE_DURATION,
                        frames: goz::THREE_LIGHT_MONTE_FRAMES,
                    },
                    BossSkillParams::Goz,
                ),
            ];
            assert forall|i: int| 0 <= i < v@.len() implies built_as(
                #[trigger] v@[i],
                boss_skill_kinds(kind)[i],
                file,
                raw,
                difficulty,
                offset + i,
                language,
            ) by {}
            Ok(v)
        },
        BossKind::Perorodzilla => {
            let params = Params::of(difficulty);
            let v = vec![
                BossSkill::new(
                    BossSkillKind::PerorodzillaWhiteHotHeatVision,
                    owner,
                    offset,
                    file.name.get(language).to_owned(),
                    SkillNumbers {
                        cost: 0,
                        duration: perorodzilla::DOT_DURATION,
                        frames: perorodzilla::WHITE_HOT_HEAT_VISION_FRAMES,
                    },
                    BossSkillParams::Perorodzilla(params),
                ),
                BossSkill::new(
                    BossSkillKind::PerorodzillaAquaBall,
                    owner,
                    offset + 1,
                    file.name.get(language).to_owned(),
                    SkillNumbers { cost: 0, duration: 0, frames: perorodzilla::AQUA_BALL_FRAMES },
                    BossSkillParams::Perorodzilla(params),
                ),
                BossSkill::new(
                    BossSkillKind::PerorodzillaSummonMinion,
                    owner,
                    offset + 2,
                    file.name.get(language).to_owned(),
                    SkillNumbers {
                        cost: 0,
                        duration: 0,
                        frames: perorodzilla::SUMMON_MINION_FRAMES,
                    },
                    BossSkillParams::Perorodzilla(params),
                ),
                BossSkill::new(
                    BossSkillKind::PerorodzillaAbsorbMinion,
                    owner,
                    offset + 3,
                    file.name.get(language).to_owned(),
                    SkillNumbers {
                        cost: 0,
                        duration: 0,
                        frames: perorodzilla::ABSORB_MINION_FRAMES,
                    },
                    BossSkillParams::Perorodzilla(params),
                ),
                BossSkill::new(
                    BossSkillKind::PerorodzillaHyperSpiralGlareBeam,
                    owner,
                    offset + 4,
                    file.name.get(language).to_owned(),
                    SkillNumbers {
                        cost: 0,
                        duration: 0,
                        frames: perorodzilla::HYPER_SPIRAL_GLARE_BEAM_FRAMES,
                    },
                    BossSkillParams::Perorodzilla(params),
                ),
                BossSkill::new(
                    BossSkillKind::PerorodzillaBurningPerorodzilla,
                    owner,
                    offset + 5,
                    file.name.get(language).to_owned(),
                    SkillNumbers { cost: 0, duration: 0, frames: 0 },
                    BossSkillParams::Perorodzilla(params),
                ),
            ];
            assert forall|i: int| 0 <= i < v@.len() implies built_as(
                #[trigger] v@[i],
                boss_skill_kinds(kind)[i],
                file,
                raw,
                difficulty,
                offset + i,
                language,
            ) by {}
            Ok(v)
        },
    }
}

} // verus!
