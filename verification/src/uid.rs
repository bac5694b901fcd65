//! Identifiers of characters and of their skills.
use vstd::prelude::*;

verus! {

#[derive(Debug, Clone, Copy, PartialEq, Eq, Hash, Structural)]
pub struct Uid(pub u64);

impl Uid {
    pub fn new(uid: u64) -> (r: Self)
        ensures
            r.0 == uid,
    {
        Uid(uid)
    }
}

/// A skill, named by its owner and its global skill index.
#[derive(Debug, Clone, Copy, PartialEq, Eq, Hash, Structural)]
pub struct SkillUid(pub Uid, pub usize);

impl SkillUid {
    pub fn new(owner: Uid, index: usize) -> (r: Self)
        ensures
            r.0 == owner && r.1 == index,
    {
        SkillUid(owner, index)
    }

    pub fn owner(&self) -> (r: Uid)
        ensures
            r == self.0,
    {
        self.0
    }

    /// Global skill index.
    pub fn skill_index(&self) -> (r: usize)
        ensures
            r == self.1,
    {
        self.1
    }
}

/// A skill uid gives back the owner and index it was made from.
pub proof fn lemma_skill_uid_roundtrip(owner: Uid, index: usize)
    ensures
        SkillUid(owner, index).0 == owner,
        SkillUid(owner, index).1 == index,
{
}

} // verus!
