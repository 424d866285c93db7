//! A procedurally expanding forest of synthetic tasks, generated from a seed
//! and executed by a work-stealing scheduler whose results are merged into one
//! order-independent summary.

pub mod aggregate;
pub mod evaluate;
pub mod queues;
pub mod rng;
pub mod scheduler;
pub mod task;
