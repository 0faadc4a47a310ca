//! The comparison logic of a small ray tracer, verified: the values are
//! `f32`s held as their IEEE 754 bit patterns, compared against an exact
//! integer model of binary32 (`binary32`); on top of it, the choice of the
//! hit among intersections and their order (`intersection`), the
//! intersections a sphere yields (`sphere`), shadows (`world`), and points
//! and vectors (`tuple`).
pub mod binary32;
pub mod intersection;
pub mod sphere;
pub mod tuple;
pub mod world;
