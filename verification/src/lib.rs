//! A particle simulation core: falling, gravity-affected circular particles
//! spawned in bursts, with object-pool slot reuse so that the collection
//! never shrinks and allocation stays bounded by the peak particle count.
//!
//! Geometry and colour are held in fixed-point steps of one thousandth of a
//! unit, so every quantity is an integer and every contract is exact: gravity
//! of a tenth of a unit per tick squared is one hundred steps, and a colour
//! channel ranges over zero to one thousand steps.

pub mod particle;
pub mod pool;
pub mod rng;
pub mod sim;
pub mod laws;
