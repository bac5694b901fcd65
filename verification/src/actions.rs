//! A move in the search: who casts which skill on whom.
use crate::uid::{SkillUid, Uid};
use vstd::prelude::*;

verus! {

#[derive(Debug, Clone, PartialEq, Eq, Hash)]
pub struct ActionContext {
    pub caster: Uid,
    pub targets: Vec<Uid>,
    pub skill: SkillUid,
}

/// The bosses whose skills the library knows.
#[derive(Debug, Clone, Copy, PartialEq, Eq, Hash, Structural)]
pub enum BossKind {
    Binah,
    Goz,
    Perorodzilla,
}

} // verus!
