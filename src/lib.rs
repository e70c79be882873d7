//! Scheduling core of a concurrent HTTP load generator: the burst/delay policy
//! of each worker, the control loop's cooperative cancellation, and the
//! orchestration order of spawning, joining and shutting down.

pub mod worker;
pub mod control;
pub mod orchestrator;
pub mod config;
pub mod executor;
