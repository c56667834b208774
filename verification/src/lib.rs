//! A flock of cats on a bounded plane, shooed by a cursor-driven player.
//!
//! Every quantity is a fixed-point integer: one whole unit (a pixel, a radian,
//! a unit of energy) is [`units::SCALE`] steps. A tick is four steps, taken
//! once per frame and in this order: [`player::update_me`],
//! [`stir::stir_cats`], [`integrator::update_positions`],
//! [`score::draw_overlay`]. The library does no trigonometry: the caller
//! hands the behaviour step each cat's bearings and the integrator each
//! cat's heading vector.

pub mod config;
pub mod flock;
pub mod geometry;
pub mod integrator;
pub mod model;
pub mod player;
pub mod random;
pub mod score;
pub mod setup;
pub mod spread;
pub mod stir;
pub mod tick;
pub mod units;
