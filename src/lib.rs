//! Axis-aligned box collision for a top-down 2D game.
//!
//! Positions, half-extents and per-tick movements are integers in world
//! units of the caller's choosing, each within `vector::WORLD_BOUND` of the
//! origin. The library covers overlap tests, minimum-translation correction
//! of resting boxes, swept (line-clip) collision of a moving box against a
//! resting one, the per-tick resolution pass over all actors, projectile
//! dropoff and hits, AI target perception, and a grid of world fields.
//! `laws` states what holds of these for all inputs.

use vstd::prelude::*;

pub mod vector;
pub mod aabb;
pub mod path;
pub mod resolution;
pub mod bullet;
pub mod ai;
pub mod grid;
pub mod laws;
