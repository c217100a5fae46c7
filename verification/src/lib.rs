//! Simulation core of a two-dimensional bullet-curtain game engine.
//!
//! The crate owns entity identities, event delivery, per-entity timers,
//! collision detection between moving objects, and the procedural
//! generation of bullet curtains from parametric paths and emission
//! patterns, sequenced by a scripted event graph.
//!
//! All geometry and time is kept in scaled integers: positions and
//! distances in thousandths of a world unit, angles in thousandths of a
//! degree, time in milliseconds. Trigonometry is rational approximation
//! over the same scale, specified exactly, so every advance of every
//! generator is pinned down to the integer.

pub mod action;
pub mod engine;
pub mod entities;
pub mod events;
pub mod geom;
pub mod level;
pub mod motion;
pub mod num;
pub mod path;
pub mod pattern;
pub mod physics;
pub mod point;
pub mod registry;
pub mod spawn;
pub mod timers;

pub use num::Milli;
