//! Host-side model of an ensemble Lorenz-attractor visualizer.
//!
//! All quantities are fixed-point integers: a value of `SCALE` raw units
//! stands for 1.0. The library holds the simulation mathematics (the Lorenz
//! derivative and one explicit Euler step over a buffer of points), the
//! free-fly camera model (rotation, pitch clamp, translation, view and
//! projection matrices) and the frame orchestration rules (pause,
//! single-step, cursor capture). GPU submission, windowing and raw input
//! events live outside the library and hand it plain values.

pub mod camera;
pub mod compute;
pub mod config;
pub mod fixed;
pub mod input;
pub mod instance;
pub mod lorenz;
pub mod state;
pub mod trig;
pub mod vec3;
pub mod vertex;
