//! Calibrated micro-benchmarks that produce "napkin math" reference numbers.
pub mod barrier;
pub mod clock;
pub mod disk;
pub mod memory;
pub mod report;
pub mod runner;
pub mod select;
pub mod suite;
pub mod text;
