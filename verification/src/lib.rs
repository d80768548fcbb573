//! A micro-benchmark harness core for 2D rendering backends.
//!
//! The crate measures the throughput of interchangeable rendering
//! configurations over a matrix of drawing tests and shape sizes.  It
//! contains the deterministic workload generator, the adaptive calibration
//! algorithm that turns noisy wall-clock samples into stable throughput
//! numbers, the backend contract, the baseline comparator used for
//! regression detection, and the table / result-document assembly.
//!
//! Throughput values are held as fixed-point numbers with four decimal
//! places (an `u64` counting ten-thousandths of an operation per
//! millisecond), so all arithmetic on them is exact.

pub mod backend;
pub mod baseline;
pub mod buffer;
pub mod calibrate;
pub mod catalog;
pub mod config;
pub mod rng;
pub mod runner;
pub mod format;
pub mod json;
pub mod text;
