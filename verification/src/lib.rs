//! Core of a hexagonal-chunk world simulation.
//!
//! The library has three tightly coupled parts:
//!
//! * [`hex`] — axial/cube coordinate algebra on a pointy-top hexagonal grid
//!   (neighbors, distance, directions);
//! * [`terrain`] — a deterministic, seeded multi-octave terrain generator that
//!   assigns an elevation and a biome to every tile of a chunk;
//! * [`streaming`] — a chunk streaming manager that keeps exactly the chunks
//!   within a configured radius of the current loaders resident.
//!
//! Elevations are fixed-point fractions, so the whole pipeline is exact
//! integer arithmetic.

pub mod chunk;
pub mod hex;
pub mod job;
pub mod streaming;
pub mod terrain;
