//! Numbers the whole simulation shares.
use vstd::prelude::*;

verus! {

/// Simulation ticks per second.
pub const TPS: u16 = 30;

/// Highest level of any skill.
pub const MAX_SKILL_LEVEL: usize = 10;

/// Largest party: the final restriction release fields ten students.
pub const MAX_STUDENT_COUNT: usize = 10;

/// Ticks in `time_num / time_den` seconds, rounded down.
pub fn time_to_ticks(time_num: u16, time_den: u16) -> (r: u16)
    requires
        time_den > 0,
        time_num * TPS <= u16::MAX,
    ensures
        r == (time_num * TPS) / (time_den as int),
{
    time_num * TPS / time_den
}

} // verus!
