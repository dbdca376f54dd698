//! The game's actors: bullets, enemies, powerups, the player and the camera.
pub mod bullet;
pub mod camera;
pub mod enemy;
pub mod player;
pub mod powerup;
pub mod slots;
