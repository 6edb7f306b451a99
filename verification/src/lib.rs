//! Core simulation logic of an arena action game: plane/mesh slicing with
//! fragment and shard lifecycles, a gesture state machine for slice input, a
//! capacity-constrained spawn-slot pool with deferred release, and a
//! difficulty-scaled scoring state machine.
//!
//! Geometry is carried in fixed-point integer coordinates so that every
//! geometric decision (which side of a cut plane a vertex falls on, whether a
//! gesture is degenerate) is exact. The engine shell around this crate decides
//! the scale of one integer unit when it converts to and from its own vectors,
//! and, since world transforms are modelled as translations, it also rotates
//! points into a target's axis-aligned local frame during that conversion.

pub mod vec3;
pub mod plane;
pub mod mesh;
pub mod slicer;
pub mod rng;
pub mod arena;
pub mod score;
pub mod cycle;
pub mod gesture;
pub mod slot_pool;
pub mod timers;
pub mod fragments;
pub mod resolver;
pub mod shatter;
pub mod dummies;
pub mod throwers;
pub mod collisions;
