//! A micro-benchmark harness core for dense square-matrix multiplication.
//!
//! The library holds the deterministic matrix generator, the naive
//! multiplication kernel, the result-record formatter, and the per-size
//! bookkeeping of the benchmark driver.  Timing and file output are left to
//! the surrounding binary, which hands measured durations in as plain
//! microsecond counts and writes the formatted record bytes out.

pub mod driver;
pub mod generator;
pub mod kernel;
pub mod matrix;
pub mod recorder;
pub mod sums;
