use multiplayer_game::client::{
    classify_poll, classify_submit, connect_core, create_local_core, expect_handshake,
    heartbeat_reply,
};
use multiplayer_game::message::{
    Circle, ClientToServerMessage, Disconnected, PeerId, ProtocolViolation, RecvPoll,
    ServerToClientMessage,
};
use multiplayer_game::pump::{pump_step, PumpAction, PumpEvent};

fn circle(radius: u32) -> Circle {
    Circle {
        position_x: 10,
        position_y: 20,
        color_r: 30,
        color_g: 40,
        color_b: 50,
        radius,
    }
}

#[test]
fn local_peer_is_registered_and_handshaken() {
    let (mut client, reg, _tx, _from_clients) = create_local_core();
    let id = client.id();
    assert!(reg.contains(id));
    assert_eq!(
        client.get_message(),
        Some(Ok(ServerToClientMessage::Handshake(id)))
    );
    assert_eq!(
        client.get_message(),
        Some(Ok(ServerToClientMessage::ClientConnected(id)))
    );
    assert_eq!(client.get_message(), None);
    // The embedded peer is part of every broadcast plan.
    assert_eq!(reg.heartbeat(), vec![(id, ServerToClientMessage::Ping)]);
    assert_eq!(
        client.get_message(),
        Some(Ok(ServerToClientMessage::Ping))
    );
}

#[test]
fn local_submit_reaches_the_relay_inbox() {
    let (client, _reg, _tx, mut from_clients) = create_local_core();
    let m = ClientToServerMessage::PlayerChanged(circle(5));
    assert_eq!(client.send_message(m), Ok(()));
    assert_eq!(from_clients.try_recv().unwrap(), (m, client.id()));
}

#[test]
fn submit_after_relay_teardown_is_disconnected() {
    let (client, reg, tx, from_clients) = create_local_core();
    drop(reg);
    drop(tx);
    drop(from_clients);
    assert_eq!(
        client.send_message(ClientToServerMessage::Ping),
        Err(Disconnected)
    );
}

#[test]
fn connect_core_builds_a_facade_from_a_handshake() {
    let id = PeerId { bits: 77 };
    let first = ServerToClientMessage::Handshake(id);
    let (mut client, mut from_client, to_client) = connect_core(&first).unwrap();
    assert_eq!(client.id(), id);

    // Outbound messages appear on the pump's end, tagged with the identity.
    let m = ClientToServerMessage::PlayerChanged(circle(1));
    assert_eq!(client.send_message(m), Ok(()));
    assert_eq!(from_client.try_recv().unwrap(), (m, id));

    // Inbound events surface through poll in arrival order.
    let e1 = ServerToClientMessage::ClientConnected(PeerId { bits: 78 });
    let e2 = ServerToClientMessage::Ping;
    to_client.send(e1).unwrap();
    to_client.send(e2).unwrap();
    assert_eq!(client.get_message(), Some(Ok(e1)));
    assert_eq!(client.get_message(), Some(Ok(e2)));
    assert_eq!(client.get_message(), None);
}

#[test]
fn poll_is_sticky_after_teardown() {
    let first = ServerToClientMessage::Handshake(PeerId { bits: 5 });
    let (mut client, _from_client, to_client) = connect_core(&first).unwrap();
    to_client.send(ServerToClientMessage::Ping).unwrap();
    drop(to_client);
    // The buffered message still drains, then the error is sticky.
    assert_eq!(client.get_message(), Some(Ok(ServerToClientMessage::Ping)));
    assert_eq!(client.get_message(), Some(Err(Disconnected)));
    assert_eq!(client.get_message(), Some(Err(Disconnected)));
}

#[test]
fn a_non_handshake_first_frame_is_a_protocol_violation() {
    assert!(connect_core(&ServerToClientMessage::Ping).is_err());
    assert_eq!(
        expect_handshake(&ServerToClientMessage::Ping),
        Err(ProtocolViolation)
    );
    assert_eq!(
        expect_handshake(&ServerToClientMessage::ClientConnected(PeerId { bits: 1 })),
        Err(ProtocolViolation)
    );
    let id = PeerId { bits: 9 };
    assert_eq!(
        expect_handshake(&ServerToClientMessage::Handshake(id)),
        Ok(id)
    );
}

#[test]
fn poll_outcomes_classify_as_the_facade_contract_says() {
    let m = ServerToClientMessage::Ping;
    assert_eq!(classify_poll(RecvPoll::Received(m)), Some(Ok(m)));
    assert_eq!(classify_poll(RecvPoll::Empty), None);
    assert_eq!(classify_poll(RecvPoll::Closed), Some(Err(Disconnected)));
    assert_eq!(classify_submit(true), Ok(()));
    assert_eq!(classify_submit(false), Err(Disconnected));
}

#[test]
fn only_ping_is_answered_automatically() {
    assert_eq!(
        heartbeat_reply(&ServerToClientMessage::Ping),
        Some(ClientToServerMessage::Ping)
    );
    assert_eq!(
        heartbeat_reply(&ServerToClientMessage::ClientConnected(PeerId { bits: 3 })),
        None
    );
}

#[test]
fn pump_policy_matches_the_termination_design() {
    assert_eq!(pump_step(PumpEvent::OutboundMessage), PumpAction::WriteFrame);
    assert_eq!(pump_step(PumpEvent::OutboundClosed), PumpAction::ShutdownCleanly);
    assert_eq!(pump_step(PumpEvent::FrameRead), PumpAction::ForwardFrame);
    assert_eq!(pump_step(PumpEvent::InboundClosed), PumpAction::ExitSilently);
    assert_eq!(pump_step(PumpEvent::IoError), PumpAction::ReportDisconnect);
}
