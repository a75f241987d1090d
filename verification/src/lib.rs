//! A small distributed GPU-inference broker: worker nodes register with a
//! coordinator, stream heartbeats, and serve prediction requests that the
//! coordinator routes to the best eligible worker.
//!
//! The crate holds the broker's core logic with contracts: the worker
//! registry with its liveness and selection policy, request validation and
//! routing, the worker agent's lifecycle state machine, the wire codec, and
//! the parsers for GPU probe output and structured log lines.

pub mod types;
pub mod host;
pub mod strutil;
pub mod registry;
pub mod coordinator;
pub mod worker;
pub mod probe;
pub mod codec;
pub mod logparse;
