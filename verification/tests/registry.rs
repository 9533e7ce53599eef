use multiplayer_game::message::{
    Circle, ClientToServerMessage, PeerId, ServerToClientMessage,
};
use multiplayer_game::registry::Registry;
use tokio::sync::mpsc::{unbounded_channel, UnboundedReceiver};

fn peer(n: u128) -> PeerId {
    PeerId { bits: n }
}

fn circle(radius: u32) -> Circle {
    Circle {
        position_x: 1,
        position_y: 2,
        color_r: 3,
        color_g: 4,
        color_b: 5,
        radius,
    }
}

fn drain(rx: &mut UnboundedReceiver<ServerToClientMessage>) -> Vec<ServerToClientMessage> {
    let mut got = Vec::new();
    while let Ok(m) = rx.try_recv() {
        got.push(m);
    }
    got
}

#[test]
fn join_queues_handshake_then_broadcasts_join() {
    let mut reg = Registry::new();
    let (tx_a, mut rx_a) = unbounded_channel();
    let a = peer(1);
    let sent = reg.join(a, tx_a);
    assert!(reg.contains(a));
    assert_eq!(
        sent,
        vec![
            (a, ServerToClientMessage::Handshake(a)),
            (a, ServerToClientMessage::ClientConnected(a)),
        ]
    );
    assert_eq!(
        drain(&mut rx_a),
        vec![
            ServerToClientMessage::Handshake(a),
            ServerToClientMessage::ClientConnected(a),
        ]
    );
}

#[test]
fn second_join_sees_both_entries_in_the_broadcast() {
    let mut reg = Registry::new();
    let (tx_a, mut rx_a) = unbounded_channel();
    let (tx_b, mut rx_b) = unbounded_channel();
    let a = peer(1);
    let b = peer(2);
    reg.join(a, tx_a);
    drain(&mut rx_a);
    let sent = reg.join(b, tx_b);
    assert_eq!(
        sent,
        vec![
            (b, ServerToClientMessage::Handshake(b)),
            (a, ServerToClientMessage::ClientConnected(b)),
            (b, ServerToClientMessage::ClientConnected(b)),
        ]
    );
    assert_eq!(drain(&mut rx_a), vec![ServerToClientMessage::ClientConnected(b)]);
    assert_eq!(
        drain(&mut rx_b),
        vec![
            ServerToClientMessage::Handshake(b),
            ServerToClientMessage::ClientConnected(b),
        ]
    );
}

#[test]
fn registry_holds_exactly_the_joined_not_left_peers() {
    let mut reg = Registry::new();
    let (tx_a, _rx_a) = unbounded_channel();
    let (tx_b, _rx_b) = unbounded_channel();
    let (tx_c, _rx_c) = unbounded_channel();
    let a = peer(1);
    let b = peer(2);
    let c = peer(3);
    reg.join(a, tx_a);
    reg.join(b, tx_b);
    reg.join(c, tx_c);
    reg.handle_client_message(b, ClientToServerMessage::Disconnect);
    assert!(reg.contains(a));
    assert!(!reg.contains(b));
    assert!(reg.contains(c));
    // The heartbeat plan shows the exact membership size.
    assert_eq!(reg.heartbeat().len(), 2);
}

#[test]
fn rejoining_the_same_identity_keeps_one_entry() {
    let mut reg = Registry::new();
    let (tx_a1, _rx_a1) = unbounded_channel();
    let (tx_a2, _rx_a2) = unbounded_channel();
    let a = peer(7);
    reg.join(a, tx_a1);
    reg.join(a, tx_a2);
    assert!(reg.contains(a));
    assert_eq!(reg.heartbeat().len(), 1);
}

#[test]
fn player_changed_fans_out_to_everyone_exactly_once() {
    let mut reg = Registry::new();
    let (tx_a, mut rx_a) = unbounded_channel();
    let (tx_b, mut rx_b) = unbounded_channel();
    let (tx_c, mut rx_c) = unbounded_channel();
    let a = peer(1);
    let b = peer(2);
    let c = peer(3);
    reg.join(a, tx_a);
    reg.join(b, tx_b);
    reg.join(c, tx_c);
    drain(&mut rx_a);
    drain(&mut rx_b);
    drain(&mut rx_c);
    let payload = circle(42);
    let sent = reg.handle_client_message(a, ClientToServerMessage::PlayerChanged(payload));
    let expected = ServerToClientMessage::PlayerChanged(a, payload);
    assert_eq!(sent, vec![(a, expected), (b, expected), (c, expected)]);
    assert_eq!(drain(&mut rx_a), vec![expected]);
    assert_eq!(drain(&mut rx_b), vec![expected]);
    assert_eq!(drain(&mut rx_c), vec![expected]);
}

#[test]
fn broadcasts_reach_a_peer_in_submission_order() {
    let mut reg = Registry::new();
    let (tx_a, _rx_a) = unbounded_channel();
    let (tx_b, mut rx_b) = unbounded_channel();
    let a = peer(1);
    let b = peer(2);
    reg.join(a, tx_a);
    reg.join(b, tx_b);
    drain(&mut rx_b);
    reg.handle_client_message(a, ClientToServerMessage::PlayerChanged(circle(1)));
    reg.handle_client_message(a, ClientToServerMessage::PlayerChanged(circle(2)));
    assert_eq!(
        drain(&mut rx_b),
        vec![
            ServerToClientMessage::PlayerChanged(a, circle(1)),
            ServerToClientMessage::PlayerChanged(a, circle(2)),
        ]
    );
}

#[test]
fn ping_has_no_registry_effect() {
    let mut reg = Registry::new();
    let (tx_a, mut rx_a) = unbounded_channel();
    let a = peer(1);
    reg.join(a, tx_a);
    drain(&mut rx_a);
    let sent = reg.handle_client_message(a, ClientToServerMessage::Ping);
    assert!(sent.is_empty());
    assert!(drain(&mut rx_a).is_empty());
    assert!(reg.contains(a));
}

#[test]
fn messages_from_unregistered_peers_are_ignored() {
    let mut reg = Registry::new();
    let (tx_a, mut rx_a) = unbounded_channel();
    let a = peer(1);
    let ghost_peer = peer(99);
    reg.join(a, tx_a);
    drain(&mut rx_a);
    let sent =
        reg.handle_client_message(ghost_peer, ClientToServerMessage::PlayerChanged(circle(1)));
    assert!(sent.is_empty());
    assert!(drain(&mut rx_a).is_empty());
}

#[test]
fn heartbeat_pings_every_peer_each_tick() {
    let mut reg = Registry::new();
    let (tx_a, mut rx_a) = unbounded_channel();
    let (tx_b, mut rx_b) = unbounded_channel();
    let a = peer(1);
    let b = peer(2);
    reg.join(a, tx_a);
    reg.join(b, tx_b);
    drain(&mut rx_a);
    drain(&mut rx_b);
    let first = reg.heartbeat();
    let second = reg.heartbeat();
    assert_eq!(
        first,
        vec![
            (a, ServerToClientMessage::Ping),
            (b, ServerToClientMessage::Ping),
        ]
    );
    assert_eq!(first, second);
    assert_eq!(
        drain(&mut rx_a),
        vec![ServerToClientMessage::Ping, ServerToClientMessage::Ping]
    );
    assert_eq!(
        drain(&mut rx_b),
        vec![ServerToClientMessage::Ping, ServerToClientMessage::Ping]
    );
}

#[test]
fn disconnect_reaches_all_remaining_peers_and_removes_the_sender() {
    let mut reg = Registry::new();
    let (tx_a, mut rx_a) = unbounded_channel();
    let (tx_b, mut rx_b) = unbounded_channel();
    let (tx_c, mut rx_c) = unbounded_channel();
    let a = peer(1);
    let b = peer(2);
    let c = peer(3);
    reg.join(a, tx_a);
    reg.join(b, tx_b);
    reg.join(c, tx_c);
    drain(&mut rx_a);
    drain(&mut rx_b);
    drain(&mut rx_c);
    let sent = reg.handle_client_message(a, ClientToServerMessage::Disconnect);
    let expected = ServerToClientMessage::ClientDisconnected(a);
    assert_eq!(sent, vec![(b, expected), (c, expected)]);
    assert_eq!(drain(&mut rx_a), Vec::<ServerToClientMessage>::new());
    assert_eq!(drain(&mut rx_b), vec![expected]);
    assert_eq!(drain(&mut rx_c), vec![expected]);
    assert!(!reg.contains(a));
    // A later broadcast never addresses the departed peer.
    let later = reg.handle_client_message(b, ClientToServerMessage::PlayerChanged(circle(9)));
    assert!(later.iter().all(|(dest, _)| *dest != a));
    assert!(drain(&mut rx_a).is_empty());
}

#[test]
fn send_failures_are_dropped_silently() {
    let mut reg = Registry::new();
    let (tx_a, rx_a) = unbounded_channel();
    let (tx_b, mut rx_b) = unbounded_channel();
    let a = peer(1);
    let b = peer(2);
    reg.join(a, tx_a);
    reg.join(b, tx_b);
    drain(&mut rx_b);
    drop(rx_a);
    // The plan still lists the dead peer; delivery simply fails silently,
    // and the registry is untouched until a leave event arrives.
    let sent = reg.handle_client_message(b, ClientToServerMessage::PlayerChanged(circle(1)));
    assert_eq!(sent.len(), 2);
    assert!(reg.contains(a));
    assert_eq!(
        drain(&mut rx_b),
        vec![ServerToClientMessage::PlayerChanged(b, circle(1))]
    );
}
