//! Game logic for a small 3D arena shooter, and a ProTracker MOD music player.
use vstd::prelude::*;

pub mod assets;
pub mod audio;
pub mod controller;
pub mod modplay;
pub mod playfield;
pub mod scene;
pub mod util;

verus! {
} // verus!
