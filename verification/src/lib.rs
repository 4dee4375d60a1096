//! Core simulation of a small arcade shooter: a player ship dodges and shoots
//! falling enemies, accumulating a score and a persisted high score.
//!
//! All geometry is carried in whole millipixels (one thousandth of a screen
//! pixel), so every rule of the simulation is stated and proved over plain
//! integers. Speeds are measured in millipixels per second and frame times in
//! milliseconds, so one frame's travel is `speed * dt / 1000` millipixels.

pub mod cleanup;
pub mod collide;
pub mod entity;
pub mod geom;
pub mod rng;
pub mod session;
pub mod spawn;
pub mod storage;
