//! Simulation core of a small fixed-timestep arcade shooter.
//!
//! Positions and sizes are integers in fine units (60 units to one screen
//! pixel), so that one simulation tick (1/60 s) advances a unit-velocity
//! entity by an exact integer step. All game rules — movement, wrapping and
//! despawning at the play-area edge, orbital enemy formations, axis-aligned
//! collision, spawn caps, respawn delays and sprite animation — live here
//! and are verified; a host front end only feeds input flags in and draws
//! the resulting entity records.
use vstd::prelude::*;

pub mod combat;
pub mod components;
pub mod enemy;
pub mod formation;
pub mod game;
pub mod laws;
pub mod lifecycle;
pub mod player;
pub mod world;
pub mod geom;
mod rng;

verus! {

/// Fine units per tick that a velocity component of 1 moves an entity.
pub const BASE_STEP: i64 = 500;

/// Fine units per tick that an enemy in formation may travel: 500 fine
/// units per tick is 500 pixels per second at 60 ticks of 60 fine units
/// each.
pub const BASE_SPEED: i64 = 500;

/// Extra band, in fine units, beyond the window edge before an entity is
/// despawned or wrapped (50 screen pixels).
pub const EDGE_MARGIN: i64 = 3000;

/// Most enemies alive at once.
pub const ENEMY_MAX: u32 = 2;

/// Number of frames in the explosion sheet; an explosion despawns when its
/// frame index reaches this.
pub const EXPLOSION_LEN: u32 = 10;

/// Ticks a dead player waits before it may respawn (2 s).
pub const PLAYER_RESPAWN_DELAY: i64 = 120;

/// Ticks between runs of the enemy spawn check (1 s).
pub const ENEMY_SPAWN_PERIOD: i64 = 60;

/// Ticks between runs of the player respawn check (0.5 s).
pub const PLAYER_SPAWN_PERIOD: i64 = 30;

/// Sprite scale applied to most sheets, in percent.
pub const SPRITE_SCALE_PCT: i64 = 50;

/// Largest magnitude any stored coordinate may take.
pub const COORD_LIMIT: i64 = 4_000_000;

/// Largest magnitude of a velocity component.
pub const VEL_LIMIT: i64 = 1_000;

/// Largest sprite extent, in fine units.
pub const SIZE_LIMIT: i64 = 100_000;

/// Window dimensions accepted by the simulation, in fine units.
pub const WIN_MIN: i64 = 10_000;

/// Upper bound on window dimensions, in fine units.
pub const WIN_MAX: i64 = 1_000_000;

/// Angle units in a full turn (tenths of a degree).
pub const ANGLE_FULL: i64 = 3600;

/// Angle units advanced per tick for each whole ratio of step length to
/// minimum orbit radius; approximates a quarter-turn pace.
pub const ANGLE_RATE: i64 = 365;

/// Sprite extents in fine units (60 units per pixel).
pub const PLAYER_W: i64 = 8400;

pub const PLAYER_H: i64 = 10080;

pub const PLAYER_FIRE_W: i64 = 4200;

pub const PLAYER_FIRE_H: i64 = 4200;

pub const ENEMY_W: i64 = 15360;

pub const ENEMY_H: i64 = 13320;

pub const ENEMY_FIRE_W: i64 = 4320;

pub const ENEMY_FIRE_H: i64 = 3840;

/// Ticks between explosion frame advances (0.1 s).
pub const EXPLOSION_FRAME_TICKS: u32 = 6;

/// Ticks between generic animation frame advances (0.5 s).
pub const ANIMATE_FRAME_TICKS: u32 = 30;

/// Upper bound on the tick counter the simulation accepts; far beyond any
/// real session, it keeps every time sum within range.
pub const TICK_LIMIT: i64 = 1_000_000_000_000;

} // verus!
