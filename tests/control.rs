use std::sync::mpsc;

use ws_bridge::{dispatch, ConnectionId, Connections, ServerAction, WebSocketEvent, WebSocketInternalMessage};

/// Plays the server's part for a peer query: dispatches it and delivers the reply.
fn answer(c: &Connections, reply: mpsc::Sender<Vec<ConnectionId>>) {
    match dispatch(c, WebSocketInternalMessage::GetPeers(reply)) {
        ServerAction::ReplyPeers(to, ids) => to.send(ids).unwrap(),
        _ => panic!("a peer query must be answered"),
    }
}

fn get_connected(c: &Connections) -> Vec<ConnectionId> {
    let (tx, rx) = mpsc::channel();
    answer(c, tx);
    rx.recv().unwrap()
}

#[test]
fn peer_query_on_empty_registry() {
    let c = Connections::new();
    assert_eq!(get_connected(&c), Vec::<ConnectionId>::new());
}

#[test]
fn send_to_registered_connection_is_written() {
    let mut c = Connections::new();
    c.register(ConnectionId(7));
    let msg = WebSocketInternalMessage::SendMessage((ConnectionId(7), WebSocketEvent::TextMessage("hi".to_string())));
    match dispatch(&c, msg) {
        ServerAction::Write(id, WebSocketEvent::TextMessage(t)) => {
            assert_eq!(id, ConnectionId(7));
            assert_eq!(t, "hi");
        }
        _ => panic!("expected a write"),
    }
}

#[test]
fn reregister_only_registered_connections() {
    let mut c = Connections::new();
    c.register(ConnectionId(4));
    assert!(matches!(dispatch(&c, WebSocketInternalMessage::Reregister(ConnectionId(4))), ServerAction::Rearm(ConnectionId(4))));
    assert!(matches!(dispatch(&c, WebSocketInternalMessage::Reregister(ConnectionId(5))), ServerAction::Ignore));
}

#[test]
fn connect_then_peer_query_lists_the_peer() {
    let mut c = Connections::new();
    let id = ConnectionId(1);
    c.observe(id, &WebSocketEvent::Connect);
    assert_eq!(get_connected(&c), vec![id]);
}

#[test]
fn close_then_peer_query_is_empty() {
    let mut c = Connections::new();
    let id = ConnectionId(1);
    c.observe(id, &WebSocketEvent::Connect);
    assert_eq!(get_connected(&c), vec![id]);
    c.observe(id, &WebSocketEvent::Close(1000));
    assert_eq!(get_connected(&c), Vec::<ConnectionId>::new());
}

#[test]
fn send_to_closed_connection_is_ignored() {
    let mut c = Connections::new();
    let id = ConnectionId(1);
    c.observe(id, &WebSocketEvent::Connect);
    c.observe(id, &WebSocketEvent::Close(1000));
    let msg = WebSocketInternalMessage::SendMessage((id, WebSocketEvent::TextMessage("hi".to_string())));
    assert!(matches!(dispatch(&c, msg), ServerAction::Ignore));
    assert_eq!(get_connected(&c), Vec::<ConnectionId>::new());
}

#[test]
fn two_peer_queries_get_their_own_replies() {
    let mut c = Connections::new();
    c.register(ConnectionId(1));
    let (tx1, rx1) = mpsc::channel();
    let (tx2, rx2) = mpsc::channel();
    answer(&c, tx2);
    c.register(ConnectionId(2));
    answer(&c, tx1);
    assert_eq!(rx1.recv().unwrap(), vec![ConnectionId(1), ConnectionId(2)]);
    assert_eq!(rx2.recv().unwrap(), vec![ConnectionId(1)]);
    assert!(rx1.try_recv().is_err());
    assert!(rx2.try_recv().is_err());
}
