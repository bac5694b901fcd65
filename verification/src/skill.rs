//! Kinds of skill and the numbers every skill header carries.
use vstd::prelude::*;

verus! {

#[derive(Debug, Clone, Copy, PartialEq, Eq, Hash, Structural)]
pub enum SkillType {
    Ex,
    Basic,
    Enhanced,
    Sub,
    NormalAttack,
    /// A boss passive, applied at the start of a fight and held for its duration.
    Passive,
}

/// Numeric parameters of a skill. All three default to 0, for skills that carry no such
/// number.
pub trait SkillParams {
    fn cost(&self) -> (r: u8)
        default_ensures
            r == 0,
    {
        0
    }

    fn duration(&self) -> (r: u16)
        default_ensures
            r == 0,
    {
        0
    }

    fn frames(&self) -> (r: u16)
        default_ensures
            r == 0,
    {
        0
    }
}

/// For skills that carry no numbers.
impl SkillParams for () {
}

/// The three numbers a skill header carries. A struct rather than three positional
/// arguments, so that the two `u16`s cannot be swapped at a call site unnoticed.
#[derive(Debug, Clone, Copy, Default, PartialEq, Eq, Structural)]
pub struct SkillNumbers {
    pub cost: u8,
    pub duration: u16,
    pub frames: u16,
}

impl SkillNumbers {
    /// The cost, duration and frames that `params` reports.
    pub fn of<P: SkillParams>(params: &P) -> (r: Self)
        ensures
            call_ensures(P::cost, (params,), r.cost),
            call_ensures(P::duration, (params,), r.duration),
            call_ensures(P::frames, (params,), r.frames),
    {
        SkillNumbers { cost: params.cost(), duration: params.duration(), frames: params.frames() }
    }
}

} // verus!
