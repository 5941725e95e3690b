//! What the server reports about a connection.

use vstd::prelude::*;

verus! {

/// Identifies one registered connection for as long as it stays registered.
///
/// The value is the reactor token under which the connection's socket is
/// registered; a token may be handed out again once its connection has closed.
#[derive(Clone, Copy, Debug, PartialEq, Eq, Hash, Structural)]
pub struct ConnectionId(pub usize);

/// An inbound occurrence on one connection.
#[derive(Clone, Debug)]
pub enum WebSocketEvent {
    Connect,
    /// The connection closed with the given status code.
    Close(u16),
    Ping(Vec<u8>),
    Pong(Vec<u8>),
    TextMessage(String),
    BinaryMessage(Vec<u8>),
}

} // verus!
