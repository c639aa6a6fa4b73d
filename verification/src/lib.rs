//! A small collision core for two-dimensional games.
//!
//! An [`Engine`] knows elements by name. An element stands at a position and
//! owns collision bodies; a body is a rectangle or a circle with a size, an
//! offset, a rotation and a set of group tags. The query
//! [`physics::get_collision_between_two_colliders`] says whether the
//! boundaries of two named elements cross.
//!
//! All numbers are integers: positions in thousandths of a unit, sines and
//! cosines in millionths. Every function is verified against a contract over
//! mathematical integers, sequences, sets and maps.
pub mod engine;
pub mod geometry;
pub mod physics;
pub mod utils;

pub use engine::Engine;
