//! Core of a 2D rigid-body sandbox: a world of circular dynamic bodies and
//! static axis-aligned walls, advanced tick by tick.  Geometric collision
//! detection is left to an external collaborator; the world consumes the
//! contact events it reports and applies its own contact resolution.
//!
//! All state is kept in exact rational arithmetic, so the physical laws of
//! the resolution step (conservation of momentum and kinetic energy in a
//! circle-circle collision, reflection invariants against walls) are proved
//! exactly rather than up to rounding.

pub mod rat;
pub mod vec2;
pub mod body;
pub mod collision;
pub mod world;
