//! Deterministic physics core of a voxel game: a fixed-timestep interpolator
//! that decouples the simulation rate from the caller's cadence, and per-axis
//! swept collision of the player's box against a voxel grid. All quantities
//! are fixed-point integers, so a run is reproducible bit for bit.
pub mod fixed;
pub mod physics;
pub mod voxel;
pub mod collision;
pub mod player;
pub mod texture_pack;
pub mod inventory;
