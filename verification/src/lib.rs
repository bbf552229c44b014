//! A software 3D rendering core built on saturating fixed-point arithmetic.
//!
//! The pipeline loads a triangle mesh, transforms it through world, view and
//! projection matrices, clips against the near plane and the four screen
//! edges, and orders the resulting screen-space triangles back to front for a
//! painter's-algorithm fill. All geometry is carried by the [`fx::Fx`] scalar,
//! a 48.16-style fixed-point number, so every arithmetic step has an exact
//! integer meaning that the contracts in this crate state and prove.

pub mod camera;
pub mod clock;
pub mod fx;
pub mod matrix;
pub mod mesh;
pub mod pipeline;
pub mod trig;
pub mod triangle;
pub mod vec;
