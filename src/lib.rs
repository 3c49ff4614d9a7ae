//! Connected-client engine for a NATS-style publish/subscribe broker.
//!
//! The engine is free of I/O: callers hand it inbound frames, timer ticks and
//! transport events, and take back the frames to write and the items to
//! deliver to subscription streams.
use vstd::prelude::*;

pub mod client;
pub mod connection;
pub mod endpoint;
pub mod error;
pub mod ops;
pub mod registry;
