//! Simulation core of a small arcade game: pine cones ("matubokkuri") fall from
//! a tree, birds try to carry the landed ones away, and the player shoots the
//! birds down.
//!
//! Entities and their components live in a `specs` world. Once per frame the
//! world is read into a table of rows, the systems transform the table, and
//! the table is written back. All coordinates are fixed-point numbers.

pub mod types;
pub mod components;
pub mod store;
pub mod table;
pub mod systems;
pub mod scenes;
pub mod laws;
