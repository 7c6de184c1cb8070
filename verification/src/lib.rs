//! Core logic of a small interactive 3D scene: a two-phase lifecycle gate,
//! a repeating fire trigger, delayed entity removal, collision-layer
//! configuration, and a collision response that averages contact-manifold
//! points into world-space impact locations.
//!
//! Time is measured in integer ticks and coordinates in fixed-point
//! integer units, so that every rule can be stated and proved exactly.
//! Floating-point concerns (rendering, quaternion orientation) live in the
//! unverified shell around this library.

pub mod collision;
pub mod game;
pub mod layers;
pub mod timers;
pub mod vecmath;
pub mod world;
