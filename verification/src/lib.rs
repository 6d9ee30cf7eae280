//! Coordination core of a memoizing query engine.
//!
//! Every query is identified by a `u64`. A [`Context`] holds what all worker
//! threads share: the storage of entries, the wait-for graph between threads
//! and the steal queue. A [`Worker`] holds what belongs to one thread: its
//! active call chain and its dependency buffer. Each method is one atomic step
//! of the protocol; the caller runs rules, parks and wakes threads between
//! the steps.

pub mod context;
pub mod dash;
pub mod entry;
pub mod error;
pub mod graph;
pub mod laws;
pub mod model;
pub mod park;
pub mod storage;
pub mod worker;

pub use context::Context;
pub use entry::{Entry, Stealable, TryFetch};
pub use error::CyclicQuery;
pub use graph::WaitGraph;
pub use storage::Storage;
pub use worker::Worker;
