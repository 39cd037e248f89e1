//! Runtime bridge between a single-threaded embedding host and an external
//! graph database engine.
//!
//! The crate holds the verified core of the bridge: the bidirectional value
//! mapper between the host's dynamic values and the engine's typed values,
//! the immutable query builder, the transaction lifecycle state machine, the
//! callback dispatcher that hands results back to the host exactly once, and
//! the task registry behind graceful shutdown. All engine I/O, the worker
//! pool and the host embedding live outside this crate and drive it through
//! plain values.

pub mod bridge;
pub mod dispatch;
pub mod errors;
pub mod host;
pub mod mapper;
pub mod options;
pub mod query;
pub mod txn;
pub mod value;
