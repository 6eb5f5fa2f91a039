//! A verified sprite-animation and behavioral-state engine for 2D characters.
//!
//! The engine selects which frame of a sprite sheet an entity displays,
//! advances that selection over time, and cycles the entity's coarse
//! behavioral state (idle, walking, attacking, hit, dead) on an independent
//! timer. Rendering, asset loading and input handling are collaborators that
//! live outside this crate; they only hand plain values in and read the
//! current frame index back out.

pub mod animation;
pub mod clock;
pub mod entity;
pub mod laws;
pub mod state;
pub mod table;
