//! Weighted/conditional settings resolver and generation orchestrator for a
//! seed-generation tool.
//!
//! A declarative, weighted rule set (a [`Weights`] document) is turned into one
//! concrete, fully resolved configuration (a [`Plando`]) by drawing from a
//! randomness source, and the orchestration core drives an external tool to
//! completion with two nested bounded retry loops.

pub mod draws;
pub mod generate;
pub mod icons;
pub mod presets;
pub mod release;
pub mod resolve;
pub mod rules;
pub mod settings;
pub mod text;
pub mod values;

pub use draws::RandomSource;
pub use generate::CompressRom;
pub use generate::GenError;
pub use generate::GenSession;
pub use generate::RandoSettings;
pub use generate::SessionStep;
pub use generate::ToolOutcome;
pub use generate::cache_dir;
pub use icons::HashIcon;
pub use presets::GenOptions;
pub use presets::Preset;
pub use presets::PresetAssets;
pub use presets::PresetOptions;
pub use presets::PresetParseError;
pub use resolve::Plando;
pub use resolve::ResolutionError;
pub use rules::Conditional;
pub use rules::Distribution;
pub use rules::ItemPools;
pub use rules::Override;
pub use rules::Weights;
pub use rules::WeightsRule;
pub use settings::SettingsMap;
pub use values::SettingValue;

use vstd::prelude::*;

verus! {

/// Number of fresh settings draws the orchestrator makes before giving up.
pub const NUM_RANDO_RANDO_TRIES: u8 = 20;

/// Number of times one settings draw is retried before a fresh draw is made.
pub const NUM_TRIES_PER_SETTINGS: u8 = 3;

} // verus!
