//! Combat simulation core: damage rules, skill bitmasks, exact decimal ratios, gear tables,
//! boss data and patterns, the state of a fight and how time moves it on, and a fixed-capacity
//! slot pool, each stated and proved with Verus.

pub mod types;
pub mod key;
pub mod ratio;
pub mod terrains;
pub mod constants;
pub mod difficulty;
pub mod locale;
pub mod uid;
pub mod stat;
pub mod gear;
pub mod base;
pub mod damage;
pub mod effect;
pub mod context;
pub mod states;
pub mod state;
pub mod simulator;
pub mod skill;
pub mod binah_params;
pub mod binah_skills;
pub mod binah;
pub mod perorodzilla;
pub mod goz;
pub mod boss_skills;
pub mod boss;
pub mod pool;
pub mod actions;
pub mod student;
pub mod kei;
pub mod skill_effect;
