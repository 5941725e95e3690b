//! Instructions that application threads send to the server, and what the
//! server does with each of them.

use vstd::prelude::*;

use crate::event::{ConnectionId, WebSocketEvent};
use crate::registry::Connections;

verus! {

/// The sending half of a std channel: it carries the reply to a peer query.
/// Opaque here; the server only hands it on.
#[verifier::external_type_specification]
#[verifier::external_body]
#[verifier::reject_recursive_types(T)]
pub struct ExStdSender<T>(std::sync::mpsc::Sender<T>);

/// An instruction from the application to the server.
pub enum WebSocketInternalMessage {
    /// Ask for the registered ids; the reply goes to this one-shot channel.
    GetPeers(std::sync::mpsc::Sender<Vec<ConnectionId>>),
    /// Write an event to a connection.
    SendMessage((ConnectionId, WebSocketEvent)),
    /// Re-arm the reactor's interest in a connection.
    Reregister(ConnectionId),
}

/// What the server does in answer to one instruction.
pub enum ServerAction {
    /// Send these ids, once, on this reply channel.
    ReplyPeers(std::sync::mpsc::Sender<Vec<ConnectionId>>, Vec<ConnectionId>),
    /// Encode and write this event on this registered connection.
    Write(ConnectionId, WebSocketEvent),
    /// Re-arm the reactor's interest in this registered connection.
    Rearm(ConnectionId),
    /// Nothing: the instruction names a connection that is not registered.
    Ignore,
}

/// Whether `a` is what the server does with `msg` while the ids in
/// `registered` are registered.
pub open spec fn dispatched(
    registered: Set<ConnectionId>,
    msg: WebSocketInternalMessage,
    a: ServerAction,
) -> bool {
    match msg {
        WebSocketInternalMessage::GetPeers(reply) => match a {
            ServerAction::ReplyPeers(to, ids) => to == reply && ids@.no_duplicates() && ids@.to_set()
                == registered,
            _ => false,
        },
        WebSocketInternalMessage::SendMessage((id, event)) => if registered.contains(id) {
            a == ServerAction::Write(id, event)
        } else {
            a is Ignore
        },
        WebSocketInternalMessage::Reregister(id) => if registered.contains(id) {
            a == ServerAction::Rearm(id)
        } else {
            a is Ignore
        },
    }
}

/// Decides what the server does with `msg` while `connections` are registered.
///
/// A peer query is answered on its own reply channel with every registered id,
/// each once. An instruction for a connection that is not registered (one that
/// has closed, say) is dropped rather than treated as an error.
pub fn dispatch(connections: &Connections, msg: WebSocketInternalMessage) -> (a: ServerAction)
    requires
        connections.wf(),
    ensures
        dispatched(connections@, msg, a),
{
    match msg {
        WebSocketInternalMessage::GetPeers(reply) => ServerAction::ReplyPeers(reply, connections.peers()),
        WebSocketInternalMessage::SendMessage((id, event)) => {
            if connections.contains(id) {
                ServerAction::Write(id, event)
            } else {
                ServerAction::Ignore
            }
        },
        WebSocketInternalMessage::Reregister(id) => {
            if connections.contains(id) {
                ServerAction::Rearm(id)
            } else {
                ServerAction::Ignore
            }
        },
    }
}

/// Two peer queries with their own reply channels, dispatched one after the
/// other whatever the order their callers sent them in, are each answered on
/// their own channel with the ids registered when that query was dispatched:
/// no answer is delivered to the other caller's channel.
pub proof fn lemma_replies_are_not_crossed(
    first_registered: Set<ConnectionId>,
    second_registered: Set<ConnectionId>,
    first_reply: std::sync::mpsc::Sender<Vec<ConnectionId>>,
    second_reply: std::sync::mpsc::Sender<Vec<ConnectionId>>,
    first: ServerAction,
    second: ServerAction,
)
    requires
        first_reply != second_reply,
        dispatched(first_registered, WebSocketInternalMessage::GetPeers(first_reply), first),
        dispatched(second_registered, WebSocketInternalMessage::GetPeers(second_reply), second),
    ensures
        first matches ServerAction::ReplyPeers(to, ids) && to == first_reply && to != second_reply
            && ids@.no_duplicates() && ids@.to_set() == first_registered,
        second matches ServerAction::ReplyPeers(to, ids) && to == second_reply && to != first_reply
            && ids@.no_duplicates() && ids@.to_set() == second_registered,
{
}

} // verus!
