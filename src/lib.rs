//! World-simulation core of a raft-survival game: the entity store with its
//! kind and spatial indexes, the per-kind entity rules, the spawn scheduler,
//! the grappling hook's state machine and the view projector.
//!
//! All quantities are fixed-point integers: a coordinate is in thousandths of
//! a world unit, a time in milliseconds, and a velocity in thousandths of a
//! unit per millisecond (that is, in world units per second).
//!
//! - `geometry`: points, squared distances, integer square root.
//! - `entity`, `factory`: the entity kinds and their advance, removal and
//!   drawing rules.
//! - `spatial`, `store`: the grid index and the entity store built on it.
//! - `hook`: the hook's phases and motion.
//! - `spawn`: rate-limited spawn timers and the request queue.
//! - `world`: one frame of the world, hooks and collection included.
//! - `projector`: world to screen for the two views.
//! - `item`, `inventory`, `crafting`, `raft`, `scene`, `terrain`, `color`,
//!   `input`: the models those build on.

pub mod color;
pub mod crafting;
pub mod entity;
pub mod factory;
pub mod geometry;
pub mod hook;
pub mod input;
pub mod inventory;
pub mod item;
pub mod projector;
pub mod raft;
pub mod scene;
pub mod spatial;
pub mod spawn;
pub mod store;
pub mod terrain;
pub mod world;
