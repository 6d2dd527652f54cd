//! The Clifford algebra of three-dimensional Euclidean space over the integers.
//!
//! An element of the algebra is a combination of eight basis blades: the
//! scalar, the vectors `e_x`, `e_y`, `e_z`, the bivectors `e_x e_y`, `e_x e_z`,
//! `e_y e_z` and the trivector `e_x e_y e_z`.
//!
//! - `blade` multiplies two blades from the defining relations alone: a basis
//!   vector squares to one, and two different basis vectors change sign when
//!   they change places.
//! - `model` states the algebra over mathematical integers.
//! - `terms` lays the products out as rows of signed pairs of blades, for
//!   coefficients of any kind of number.
//! - `multivector` holds the machine type, with 32-bit coefficients.
//! - `render` writes a multivector as text.
//! - `laws` and `associativity` prove what holds of every multivector.

pub mod associativity;
pub mod blade;
pub mod laws;
pub mod model;
pub mod multivector;
pub mod render;
pub mod terms;

pub use crate::multivector::Multivector;
