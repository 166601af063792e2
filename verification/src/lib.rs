//! A test-and-benchmark orchestration engine.
//!
//! Cases (tests and benchmarks) are registered into a [`registry::CaseRegistry`],
//! drained once per run, filtered and ordered deterministically, and executed
//! with failure isolation.  Benchmarks additionally run a calibrated
//! measurement protocol (warmup, repeated timing, overhead compensation) and
//! report summary statistics.
//!
//! The host environment (scene graph, wall clock, panic isolation) is reached
//! only through the [`runner::CaseHost`] capability trait; the engine itself is
//! pure and fully specified.

pub mod cases;
pub mod config;
pub mod context;
pub mod print;
pub mod registry;
pub mod runner;
pub mod utils;
