//! A ProTracker MOD music player with a fixed-point mixer.
pub mod types;
pub mod model;
pub mod player;
pub mod laws;

pub use player::ModPlayer;
pub use types::{ModAction, ModRule, Oscillator, PaulaChannel, Sample, SampleHeader, TrackerChannel};
