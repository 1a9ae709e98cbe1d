//! Encounter simulation core of a fixed-arena arcade shooter: motion curves,
//! procedural encounter timelines, combat resolution and encounter direction.
//!
//! Every quantity is an integer: lengths in millionths of a pixel, velocities
//! in millionths of a pixel per millisecond, health and damage in thousandths
//! of a hit point, multipliers in per-mille, angles in millidegrees, and time
//! in milliseconds of scaled simulation time.
mod random;

pub mod arena;
pub mod fixed;
pub mod ships;
pub mod combat;
pub mod field;
pub mod motion;
pub mod timeline;
pub mod generator;
pub mod director;
pub mod route;
pub mod items;
pub mod text;
pub mod weapons;
pub mod gear;
