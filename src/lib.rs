//! A synchronous bridge between application threads and a WebSocket server
//! that runs on its own event-loop thread.
//!
//! The verified part of the bridge is the message taxonomy that crosses the
//! thread boundary, the registry of connected peers that answers peer
//! queries, the dispatch of control messages, and the backpressure
//! discipline that protects the bounded control channel.

pub mod event;
pub mod backpressure;
pub mod control;
pub mod registry;

pub use event::{ConnectionId, WebSocketEvent};
pub use backpressure::{next_step, DeliveryError, DeliveryOutcome, RetryStep, RETRY_DELAY_MS};
pub use control::{dispatch, ServerAction, WebSocketInternalMessage};
pub use registry::Connections;
