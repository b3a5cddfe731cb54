//! The verified core of a two-dimensional circle sandbox: a scalar type that
//! can never hold a NaN, vectors of two such scalars, and a store of circles
//! and distance constraints behind generation-stamped handles, together with
//! the rules by which a simulation tick decides what to test and what to move.

pub mod scalar;
pub mod vector2;
pub mod store;
pub mod world;
pub mod collision;
pub mod solver;
pub mod picking;
pub mod tick;
