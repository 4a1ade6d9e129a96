//! Core of an optimistic (Time Warp) distributed-simulation runtime.
//!
//! A federation of simulation components exchanges timestamped messages and
//! processes them speculatively.  Each component keeps enough history, in the
//! form of state checkpoints and saved messages, to rewind to an earlier
//! virtual time when a straggler message arrives, and to cancel effects it
//! emitted too eagerly by sending anti-messages.

mod history;

pub mod async_component_data;
pub mod async_component_manager;
pub mod component;
pub mod dependency_vector;
pub mod execution;
pub mod gateway;
pub mod message_queue;
pub mod models;
pub mod order;
pub mod rollback_manager;
pub mod translator;
pub mod wire;

pub use models::{Checkpoint, ComponentCfg, ComponentId, Message, MsgCore, Timestamp};
