//! The fixed numbers of the game, in the library's units.
//!
//! Lengths count millionths of a pixel, velocities millionths of a pixel per
//! millisecond, and a direction of length one has length `SCALE`.

use vstd::prelude::*;

verus! {

/// One pixel; also the length of a unit direction.
pub const SCALE: i64 = 1_000_000;

/// Width of the play field.
pub const WINDOW_X: i64 = 800_000_000;

/// Height of the play field.
pub const WINDOW_Y: i64 = 600_000_000;

/// Downward acceleration added to a velocity each tick.
pub const GRAVITY: i64 = 12_000;

/// Duration of one tick in microseconds (16.667 ms).
pub const DELTAT_US: i64 = 16_667;

/// Microseconds per millisecond: the divisor that goes with `DELTAT_US`.
pub const US_PER_MS: i64 = 1_000;

/// Width and height of a player's hit-box.
pub const GORILLA_WIDTH: i64 = 64_000_000;

pub const GORILLA_HEIGHT: i64 = 96_000_000;

/// Radius of the projectile.
pub const SHOT_RADIUS: i64 = 10_000_000;

/// Number of frames of the explosion animation; each frame lasts two ticks.
pub const EXPLOSION_FRAMES: u32 = 12;

/// Half the side of the explosion sprite, which is drawn centred on the impact.
pub const EXPLOSION_HALF: i64 = 48_000_000;

/// The splash circle's radius is this many projectile radii.
pub const EXPLOSION_DESTROY_SCALE: i64 = 4;

/// Largest value of the charge counter.
pub const POWER_MAX: i32 = 200;

/// Rise of the charge counter per tick while charging.
pub const POWER_RISE: i32 = 3;

/// Fall of the charge counter per tick while idle.
pub const POWER_FALL: i32 = 4;

/// Launch speed per point of charge, in thousandths of a unit direction.
pub const LAUNCH_SPEED_MILLIS: i64 = 6;

/// A human's shot starts this many projectile radii from the player's centre.
pub const HUMAN_START_RADII: i64 = 6;

/// A bot's shot starts this many projectile radii from the player's centre.
pub const BOT_START_RADII: i64 = 4;

/// Fewest buildings between the middle of the skyline and a player.
pub const DISTANCE_MIN: usize = 2;

/// A rectangle narrower and lower than this is no longer subdivided.
pub const PARTS_GRID_MIN: i64 = 4_000_000;

/// Charge at which a bot fires.
pub const BOT_COUNTER_MAX: i32 = 200;

/// Step of a bot's aim correction, on the vertical component of a unit direction.
pub const BOT_AIM_INC_Y: i64 = 100_000;

/// Side of a terrain tile in pixels.
pub const TILE_SIZE: u32 = 16;

/// Number of colours a particle can take.
pub const PALETTE_LEN: usize = 10;

/// Number of particles spawned when a player is hit.
pub const PARTICLE_COUNT: usize = 1024;

/// Slowest and fastest particle.
pub const PARTICLE_MIN_VEL: i64 = 20_000;

pub const PARTICLE_MAX_VEL: i64 = 300_000;

/// The wind's pull on a shot per tick, in thousandths of the wind vector.
pub const WIND_PLAY_MILLIS: i64 = 3;

/// Degrees by which the projectile's sprite turns each tick.
pub const BANANA_ANG_SPEED: u32 = 5;

/// Number of building slots of a skyline.
pub const BUILDING_SLOTS: usize = 11;

/// Gap between two neighbouring buildings in pixels.
pub const BUILDING_GAP: u32 = 8;

} // verus!
