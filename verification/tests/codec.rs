use multiplayer_game::codec::{decode_c2s, decode_s2c, encode_c2s, encode_s2c, frame_payload_len};
use multiplayer_game::message::{
    Circle, ClientToServerMessage, CodecError, PeerId, ServerToClientMessage,
};

fn sample_circle() -> Circle {
    Circle {
        position_x: 0x3f80_0000,
        position_y: 0xbf00_0000,
        color_r: 0,
        color_g: 0x3e80_0000,
        color_b: 0x3f80_0000,
        radius: 0x3f00_0000,
    }
}

fn sample_id() -> PeerId {
    PeerId {
        bits: 0x0001_0203_0405_0607_0809_0a0b_0c0d_0e0f,
    }
}

fn c2s_samples() -> Vec<ClientToServerMessage> {
    vec![
        ClientToServerMessage::Disconnect,
        ClientToServerMessage::Ping,
        ClientToServerMessage::PlayerChanged(sample_circle()),
    ]
}

fn s2c_samples() -> Vec<ServerToClientMessage> {
    vec![
        ServerToClientMessage::Handshake(sample_id()),
        ServerToClientMessage::ClientConnected(PeerId { bits: u128::MAX }),
        ServerToClientMessage::ClientDisconnected(PeerId { bits: 0 }),
        ServerToClientMessage::Ping,
        ServerToClientMessage::PlayerChanged(sample_id(), sample_circle()),
    ]
}

#[test]
fn round_trip_c2s_all_variants() {
    for m in c2s_samples() {
        let bytes = encode_c2s(&m);
        assert_eq!(decode_c2s(&bytes), Ok(m));
    }
}

#[test]
fn round_trip_s2c_all_variants() {
    for m in s2c_samples() {
        let bytes = encode_s2c(&m);
        assert_eq!(decode_s2c(&bytes), Ok(m));
    }
}

#[test]
fn exact_bytes_c2s_ping() {
    let bytes = encode_c2s(&ClientToServerMessage::Ping);
    assert_eq!(bytes, vec![0, 0, 0, 0, 0, 0, 0, 1, 1]);
}

#[test]
fn exact_bytes_handshake() {
    let bytes = encode_s2c(&ServerToClientMessage::Handshake(sample_id()));
    let mut expected = vec![0u8, 0, 0, 0, 0, 0, 0, 17, 0];
    expected.extend((0u8..16).collect::<Vec<u8>>());
    assert_eq!(bytes, expected);
}

#[test]
fn exact_bytes_player_changed() {
    let m = ClientToServerMessage::PlayerChanged(sample_circle());
    let bytes = encode_c2s(&m);
    let mut expected = vec![0u8, 0, 0, 0, 0, 0, 0, 25, 2];
    expected.extend(0x3f80_0000u32.to_be_bytes());
    expected.extend(0xbf00_0000u32.to_be_bytes());
    expected.extend(0u32.to_be_bytes());
    expected.extend(0x3e80_0000u32.to_be_bytes());
    expected.extend(0x3f80_0000u32.to_be_bytes());
    expected.extend(0x3f00_0000u32.to_be_bytes());
    assert_eq!(bytes, expected);
}

#[test]
fn truncated_c2s_frames_never_decode() {
    for m in c2s_samples() {
        let bytes = encode_c2s(&m);
        for k in 0..bytes.len() {
            let t = bytes[..k].to_vec();
            assert_eq!(decode_c2s(&t), Err(CodecError::TruncatedStream));
        }
    }
}

#[test]
fn truncated_s2c_frames_never_decode() {
    for m in s2c_samples() {
        let bytes = encode_s2c(&m);
        for k in 0..bytes.len() {
            let t = bytes[..k].to_vec();
            assert_eq!(decode_s2c(&t), Err(CodecError::TruncatedStream));
        }
    }
}

#[test]
fn trailing_bytes_belong_to_the_next_frame() {
    let mut bytes = encode_c2s(&ClientToServerMessage::Ping);
    bytes.extend([0xde, 0xad, 0xbe, 0xef]);
    assert_eq!(decode_c2s(&bytes), Ok(ClientToServerMessage::Ping));
}

#[test]
fn unknown_tag_is_malformed() {
    let bytes = vec![0, 0, 0, 0, 0, 0, 0, 1, 9];
    assert_eq!(decode_c2s(&bytes), Err(CodecError::MalformedPayload));
    assert_eq!(decode_s2c(&bytes), Err(CodecError::MalformedPayload));
}

#[test]
fn wrong_payload_length_is_malformed() {
    // A disconnect payload with a stray extra byte.
    let bytes = vec![0, 0, 0, 0, 0, 0, 0, 2, 0, 0];
    assert_eq!(decode_c2s(&bytes), Err(CodecError::MalformedPayload));
    // An empty payload.
    let bytes = vec![0, 0, 0, 0, 0, 0, 0, 0];
    assert_eq!(decode_c2s(&bytes), Err(CodecError::MalformedPayload));
}

#[test]
fn frame_payload_len_reads_the_prefix() {
    let header: Vec<u8> = vec![0, 0, 0, 0, 0, 0, 0];
    assert_eq!(frame_payload_len(&header), Err(CodecError::TruncatedStream));
    let bytes = encode_c2s(&ClientToServerMessage::Ping);
    assert_eq!(frame_payload_len(&bytes), Ok(1));
}
