//! Core simulation of a 2D arcade space shooter.
//!
//! The library holds the gameplay logic — enemy spawning with weighted tier
//! selection, AABB collision detection and damage resolution, scoring,
//! powerup drop-and-pickup, and the player animation state machine — as
//! verified code. Geometry is carried in integer milli-pixels (1 pixel =
//! 1000 units) and rates in per-mille fixed point, so every quantity the
//! rules read is a plain integer. Rendering, audio, asset loading and input
//! polling are left to the host around the library.

pub mod anim;
pub mod collisions;
pub mod components;
pub mod config;
pub mod enemies;
pub mod explosion;
pub mod game;
pub mod game_state;
pub mod geom;
pub mod movement;
pub mod player;
pub mod powerups;
pub mod registry;
pub mod rng;
pub mod scoreboard;
pub mod settings;
pub mod theme;
pub mod throttler;
