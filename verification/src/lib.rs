//! A turn-based artillery duel on a destructible skyline, in integer arithmetic.
//!
//! Every length is a whole number of millionths of a pixel, so that the
//! ballistics, the collision tests and the terrain subdivision are exact and
//! their behaviour can be stated and proved.

pub mod game_common;
pub mod game_constants;
pub mod game_net;
pub mod bot;
pub mod building;
pub mod circle;
pub mod game;
pub mod geom;
pub mod menu;
pub mod physics;
pub mod rain;
pub mod rng;
pub mod round;
pub mod scene;
pub mod shot;
pub mod ws;
