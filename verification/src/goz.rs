//! Goz's pattern numbers, not yet in its data file.
use crate::constants::TPS;
use vstd::prelude::*;

verus! {

pub const THREE_LIGHT_MONTE_COST: u8 = 3;

/// Seven seconds.
pub const THREE_LIGHT_MONTE_DURATION: u16 = 7 * TPS;

/// 1.6 seconds.
pub const THREE_LIGHT_MONTE_FRAMES: u16 = 16 * TPS / 10;

/// Seven seconds.
pub const MAGICAL_COIN_HAT_DURATION: u16 = 7 * TPS;

/// Five seconds.
pub const MAGICAL_COIN_HAT_FRAMES: u16 = 5 * TPS;

} // verus!
