//! Binah's pattern numbers: per-difficulty tables as read from the data file, and the numbers
//! of one difficulty picked out of them.
use crate::difficulty::{ByDifficulty, Difficulty};
use crate::locale::LocalizedName;
use crate::skill::SkillParams;
use vstd::prelude::*;

verus! {

/// Coefficients are all percentages, so the denominator is fixed.
pub const PERCENT_DEN: u16 = 100;

/// On-field capacity for this fight: the bound that effects are declared with, not the party
/// size.
pub const ON_FIELD_COUNT: u8 = 4;

/// The numbers of Atsilut's Light at one difficulty. The area the light covers is geometry and
/// is kept beside these numbers, not among them.
#[derive(Debug, Clone, Copy)]
pub struct AtsilutsLightParams {
    pub cost: u8,
    pub duration: u16,
    pub frames: u16,
    pub instant_percent: u16,
    pub dot_percent: u16,
    pub dot_interval: u16,
    pub dot_duration: u16,
}

#[derive(Debug)]
pub struct RawAtsilutsLight {
    pub name: LocalizedName,
    pub cost: ByDifficulty<u8>,
    pub duration: ByDifficulty<u16>,
    pub frames: ByDifficulty<u16>,
    pub instant_percent: ByDifficulty<u16>,
    pub dot_percent: ByDifficulty<u16>,
    pub dot_interval: ByDifficulty<u16>,
    pub dot_duration: ByDifficulty<u16>,
}

impl RawAtsilutsLight {
    /// The numbers of one difficulty.
    pub open spec fn spec_pick(&self, difficulty: Difficulty) -> AtsilutsLightParams {
        let i = difficulty.spec_index() as int;
        AtsilutsLightParams {
            cost: self.cost.0@[i],
            duration: self.duration.0@[i],
            frames: self.frames.0@[i],
            instant_percent: self.instant_percent.0@[i],
            dot_percent: self.dot_percent.0@[i],
            dot_interval: self.dot_interval.0@[i],
            dot_duration: self.dot_duration.0@[i],
        }
    }

    pub fn pick(&self, difficulty: Difficulty) -> (r: AtsilutsLightParams)
        ensures
            r == self.spec_pick(difficulty),
    {
        AtsilutsLightParams {
            cost: self.cost[difficulty],
            duration: self.duration[difficulty],
            frames: self.frames[difficulty],
            instant_percent: self.instant_percent[difficulty],
            dot_percent: self.dot_percent[difficulty],
            dot_interval: self.dot_interval[difficulty],
            dot_duration: self.dot_duration[difficulty],
        }
    }
}

/// The `skills` object of Binah's data file: every pattern's numbers at every difficulty.
#[derive(Debug)]
pub struct RawSkills {
    pub atsiluts_light: RawAtsilutsLight,
    pub fires_of_severity: RawFiresOfSeverity,
    pub purifying_storm: RawPurifyingStorm,
}

/// Fires twice at once: one hit on everyone, plus one on each of the four nearest strikers.
#[derive(Debug, Clone, Copy)]
pub struct FiresOfSeverityParams {
    pub cost: u8,
    pub duration: u16,
    pub frames: u16,
    pub all_percent: u16,
    /// Applied in order of distance from Binah.
    pub nearest_percents: [u16; 4],
}

#[derive(Debug)]
pub struct RawFiresOfSeverity {
    pub name: LocalizedName,
    pub cost: ByDifficulty<u8>,
    pub duration: ByDifficulty<u16>,
    pub frames: ByDifficulty<u16>,
    pub all_percent: ByDifficulty<u16>,
    pub nearest_percents: ByDifficulty<[u16; 4]>,
}

impl RawFiresOfSeverity {
    /// The numbers of one difficulty.
    pub open spec fn spec_pick(&self, difficulty: Difficulty) -> FiresOfSeverityParams {
        let i = difficulty.spec_index() as int;
        FiresOfSeverityParams {
            cost: self.cost.0@[i],
            duration: self.duration.0@[i],
            frames: self.frames.0@[i],
            all_percent: self.all_percent.0@[i],
            nearest_percents: self.nearest_percents.0@[i],
        }
    }

    pub fn pick(&self, difficulty: Difficulty) -> (r: FiresOfSeverityParams)
        ensures
            r == self.spec_pick(difficulty),
    {
        FiresOfSeverityParams {
            cost: self.cost[difficulty],
            duration: self.duration[difficulty],
            frames: self.frames[difficulty],
            all_percent: self.all_percent[difficulty],
            nearest_percents: self.nearest_percents[difficulty],
        }
    }
}

#[derive(Debug, Clone, Copy)]
pub struct PurifyingStormParams {
    pub cost: u8,
    pub duration: u16,
    pub frames: u16,
    pub percent: u16,
    pub def_down_scale: u16,
    pub def_down_duration: u16,
    pub count: u8,
}

#[derive(Debug)]
pub struct RawPurifyingStorm {
    pub name: LocalizedName,
    pub cost: ByDifficulty<u8>,
    pub duration: ByDifficulty<u16>,
    pub frames: ByDifficulty<u16>,
    pub percent: ByDifficulty<u16>,
    pub def_down_scale: ByDifficulty<u16>,
    pub def_down_duration: ByDifficulty<u16>,
    pub count: ByDifficulty<u8>,
}

impl RawPurifyingStorm {
    /// The numbers of one difficulty.
    pub open spec fn spec_pick(&self, difficulty: Difficulty) -> PurifyingStormParams {
        let i = difficulty.spec_index() as int;
        PurifyingStormParams {
            cost: self.cost.0@[i],
            duration: self.duration.0@[i],
            frames: self.frames.0@[i],
            percent: self.percent.0@[i],
            def_down_scale: self.def_down_scale.0@[i],
            def_down_duration: self.def_down_duration.0@[i],
            count: self.count.0@[i],
        }
    }

    pub fn pick(&self, difficulty: Difficulty) -> (r: PurifyingStormParams)
        ensures
            r == self.spec_pick(difficulty),
    {
        PurifyingStormParams {
            cost: self.cost[difficulty],
            duration: self.duration[difficulty],
            frames: self.frames[difficulty],
            percent: self.percent[difficulty],
            def_down_scale: self.def_down_scale[difficulty],
            def_down_duration: self.def_down_duration[difficulty],
            count: self.count[difficulty],
        }
    }
}

impl SkillParams for AtsilutsLightParams {
    fn cost(&self) -> (r: u8)
        ensures
            r == self.cost,
    {
        self.cost
    }

    fn duration(&self) -> (r: u16)
        ensures
            r == self.duration,
    {
        self.duration
    }

    fn frames(&self) -> (r: u16)
        ensures
            r == self.frames,
    {
        self.frames
    }
}

impl SkillParams for FiresOfSeverityParams {
    fn cost(&self) -> (r: u8)
        ensures
            r == self.cost,
    {
        self.cost
    }

    fn duration(&self) -> (r: u16)
        ensures
            r == self.duration,
    {
        self.duration
    }

    fn frames(&self) -> (r: u16)
        ensures
            r == self.frames,
    {
        self.frames
    }
}

impl SkillParams for PurifyingStormParams {
    fn cost(&self) -> (r: u8)
        ensures
            r == self.cost,
    {
        self.cost
    }

    fn duration(&self) -> (r: u16)
        ensures
            r == self.duration,
    {
        self.duration
    }

    fn frames(&self) -> (r: u16)
        ensures
            r == self.frames,
    {
        self.frames
    }
}

} // verus!
