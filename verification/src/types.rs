use vstd::prelude::*;

verus! {

/// How an attack hits.
#[derive(Debug, Clone, Copy, PartialEq, Eq, Hash, Default, Structural)]
pub enum AttackType {
    #[default]
    Normal,
    Explosive,
    Piercing,
    Corrosive,
    Mystic,
    Sonic,
}

/// What an attack hits.
#[derive(Debug, Clone, Copy, PartialEq, Eq, Hash, Default, Structural)]
pub enum ArmorType {
    #[default]
    Normal,
    Light,
    Heavy,
    Composite,
    Special,
    Elastic,
    Structure,
}

/// Damage multiplier in percent of an attack type against an armor type.
pub open spec fn spec_damage_scale(atk_type: AttackType, armor_type: ArmorType) -> u32 {
    match atk_type {
        AttackType::Normal => 100,
        AttackType::Explosive => match armor_type {
            ArmorType::Light => 200,
            ArmorType::Normal | ArmorType::Heavy | ArmorType::Composite => 100,
            ArmorType::Special | ArmorType::Elastic | ArmorType::Structure => 50,
        },
        AttackType::Piercing => match armor_type {
            ArmorType::Heavy => 200,
            ArmorType::Light | ArmorType::Structure => 50,
            _ => 100,
        },
        AttackType::Corrosive => match armor_type {
            ArmorType::Composite => 200,
            ArmorType::Heavy => 150,
            ArmorType::Light | ArmorType::Structure => 50,
            _ => 100,
        },
        AttackType::Mystic => match armor_type {
            ArmorType::Special => 200,
            ArmorType::Heavy | ArmorType::Composite | ArmorType::Structure => 50,
            _ => 100,
        },
        AttackType::Sonic => match armor_type {
            ArmorType::Elastic => 200,
            ArmorType::Special => 150,
            ArmorType::Normal | ArmorType::Light => 100,
            _ => 50,
        },
    }
}

/// The five attack/armor pairs where the attack is super effective.
pub open spec fn spec_is_weak(atk_type: AttackType, armor_type: ArmorType) -> bool {
    ||| atk_type == AttackType::Explosive && armor_type == ArmorType::Light
    ||| atk_type == AttackType::Piercing && armor_type == ArmorType::Heavy
    ||| atk_type == AttackType::Mystic && armor_type == ArmorType::Special
    ||| atk_type == AttackType::Corrosive && armor_type == ArmorType::Composite
    ||| atk_type == AttackType::Sonic && armor_type == ArmorType::Elastic
}

pub fn damage_scale(atk_type: &AttackType, armor_type: &ArmorType) -> (r: u32)
    ensures
        r == spec_damage_scale(*atk_type, *armor_type),
{
    match atk_type {
        AttackType::Normal => 100,
        AttackType::Explosive => match armor_type {
            ArmorType::Light => 200,
            ArmorType::Normal | ArmorType::Heavy | ArmorType::Composite => 100,
            ArmorType::Special | ArmorType::Elastic | ArmorType::Structure => 50,
        },
        AttackType::Piercing => match armor_type {
            ArmorType::Heavy => 200,
            ArmorType::Light | ArmorType::Structure => 50,
            _ => 100,
        },
        AttackType::Corrosive => match armor_type {
            ArmorType::Composite => 200,
            ArmorType::Heavy => 150,
            ArmorType::Light | ArmorType::Structure => 50,
            _ => 100,
        },
        AttackType::Mystic => match armor_type {
            ArmorType::Special => 200,
            ArmorType::Heavy | ArmorType::Composite | ArmorType::Structure => 50,
            _ => 100,
        },
        AttackType::Sonic => match armor_type {
            ArmorType::Elastic => 200,
            ArmorType::Special => 150,
            ArmorType::Normal | ArmorType::Light => 100,
            _ => 50,
        },
    }
}

pub fn is_weak(atk_type: AttackType, armor_type: ArmorType) -> (r: bool)
    ensures
        r == spec_is_weak(atk_type, armor_type),
{
    if atk_type == AttackType::Explosive && armor_type == ArmorType::Light {
        true
    } else if atk_type == AttackType::Piercing && armor_type == ArmorType::Heavy {
        true
    } else if atk_type == AttackType::Mystic && armor_type == ArmorType::Special {
        true
    } else if atk_type == AttackType::Corrosive && armor_type == ArmorType::Composite {
        true
    } else {
        atk_type == AttackType::Sonic && armor_type == ArmorType::Elastic
    }
}

/// An attack is weak-hitting exactly where its damage scale is doubled.
pub proof fn lemma_weak_iff_double_damage(atk_type: AttackType, armor_type: ArmorType)
    ensures
        spec_is_weak(atk_type, armor_type) <==> spec_damage_scale(atk_type, armor_type) == 200,
{
}

/// The matchup table: an attack deals double damage to the one armor it is made for, one and a
/// half times to two pairings, half to the armors that resist it, and plain damage elsewhere.
/// Normal attacks deal plain damage to everything.
pub proof fn lemma_damage_scale_matchups(atk_type: AttackType, armor_type: ArmorType)
    ensures
        spec_damage_scale(atk_type, armor_type) == 200 <==> {
            ||| atk_type == AttackType::Explosive && armor_type == ArmorType::Light
            ||| atk_type == AttackType::Piercing && armor_type == ArmorType::Heavy
            ||| atk_type == AttackType::Corrosive && armor_type == ArmorType::Composite
            ||| atk_type == AttackType::Mystic && armor_type == ArmorType::Special
            ||| atk_type == AttackType::Sonic && armor_type == ArmorType::Elastic
        },
        spec_damage_scale(atk_type, armor_type) == 150 <==> {
            ||| atk_type == AttackType::Corrosive && armor_type == ArmorType::Heavy
            ||| atk_type == AttackType::Sonic && armor_type == ArmorType::Special
        },
        spec_damage_scale(atk_type, armor_type) == 50 <==> {
            ||| atk_type == AttackType::Explosive && (armor_type == ArmorType::Special || armor_type
                == ArmorType::Elastic || armor_type == ArmorType::Structure)
            ||| atk_type == AttackType::Piercing && (armor_type == ArmorType::Light || armor_type
                == ArmorType::Structure)
            ||| atk_type == AttackType::Corrosive && (armor_type == ArmorType::Light || armor_type
                == ArmorType::Structure)
            ||| atk_type == AttackType::Mystic && (armor_type == ArmorType::Heavy || armor_type
                == ArmorType::Composite || armor_type == ArmorType::Structure)
            ||| atk_type == AttackType::Sonic && (armor_type == ArmorType::Heavy || armor_type
                == ArmorType::Composite || armor_type == ArmorType::Structure)
        },
        atk_type == AttackType::Normal ==> spec_damage_scale(atk_type, armor_type) == 100,
        armor_type == ArmorType::Normal && atk_type != AttackType::Sonic ==> spec_damage_scale(
            atk_type,
            armor_type,
        ) == 100,
{
}

/// Every damage scale is one of 50, 100, 150 or 200 percent.
pub proof fn lemma_damage_scale_range(atk_type: AttackType, armor_type: ArmorType)
    ensures
        50 <= spec_damage_scale(atk_type, armor_type) <= 200,
        spec_damage_scale(atk_type, armor_type) % 50 == 0,
{
}

} // verus!
