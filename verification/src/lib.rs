//! Sampling primitives and an instrumentation substrate for an iterative
//! mixture-model fitting procedure.
//!
//! The crate provides three randomized sampling primitives (uniform
//! reservoir sampling, weighted reservoir sampling, and weighted sampling
//! with replacement), a reproducibly seeded evaluation-data selector, and a
//! callback/metric framework that lets a fitting loop be observed without
//! coupling it to any particular reporting or evaluation logic.

pub mod eval;
pub mod monitor;
pub mod rng;
pub mod sampling;
pub mod table;
