//! Core logic for a 2D tile-based game prototype: a pushdown (stack-based)
//! state machine driving per-entity behaviour, a tile map with pixel/tile
//! coordinate conversions and entity occupancy bookkeeping, and a tween
//! primitive for animating transitions between tiles.
//!
//! Pixel coordinates and times are integers: positions are in pixels and
//! durations in ticks (a fixed subdivision of a second), so that all
//! arithmetic is exact.

pub mod anim;
pub mod character;
pub mod common;
pub mod entity;
pub mod input;
pub mod map;
pub mod state;
pub mod tween;
pub mod util;
