//! Verified workload model of a cross-engine ECS benchmark suite: the
//! benchmark catalog, the deterministic workload generators, the gameplay
//! trace, and the bookkeeping used when publishing results.

pub mod text;
pub mod engine;
pub mod common;
pub mod publish;
