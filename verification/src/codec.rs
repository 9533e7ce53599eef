//! Wire codec: every message crosses the network as one frame, an 8-byte
//! big-endian unsigned length prefix followed by exactly that many payload
//! bytes. The payload is a tagged encoding of one message value: a variant
//! tag byte followed by the variant's fields, integers big-endian.
use crate::message::{Circle, ClientToServerMessage, CodecError, PeerId, ServerToClientMessage};
use vstd::prelude::*;

verus! {

pub const TAG_C2S_DISCONNECT: u8 = 0;
pub const TAG_C2S_PING: u8 = 1;
pub const TAG_C2S_PLAYER_CHANGED: u8 = 2;

pub const TAG_S2C_HANDSHAKE: u8 = 0;
pub const TAG_S2C_CONNECTED: u8 = 1;
pub const TAG_S2C_DISCONNECTED: u8 = 2;
pub const TAG_S2C_PING: u8 = 3;
pub const TAG_S2C_PLAYER_CHANGED: u8 = 4;

// ---------------------------------------------------------------------------
// Byte-level layouts
// ---------------------------------------------------------------------------

pub open spec fn u32_be(n: u32) -> Seq<u8> {
    seq![
        ((n >> 24) & 0xff) as u8,
        ((n >> 16) & 0xff) as u8,
        ((n >> 8) & 0xff) as u8,
        (n & 0xff) as u8,
    ]
}

pub open spec fn u64_be(n: u64) -> Seq<u8> {
    seq![
        ((n >> 56) & 0xff) as u8,
        ((n >> 48) & 0xff) as u8,
        ((n >> 40) & 0xff) as u8,
        ((n >> 32) & 0xff) as u8,
        ((n >> 24) & 0xff) as u8,
        ((n >> 16) & 0xff) as u8,
        ((n >> 8) & 0xff) as u8,
        (n & 0xff) as u8,
    ]
}

pub open spec fn u128_be(n: u128) -> Seq<u8> {
    u64_be((n >> 64) as u64) + u64_be(n as u64)
}

pub open spec fn u32_of_be(s: Seq<u8>) -> u32
    recommends
        s.len() == 4,
{
    (((s[0] as u32) << 24) | ((s[1] as u32) << 16) | ((s[2] as u32) << 8) | (s[3] as u32))
}

pub open spec fn u64_of_be(s: Seq<u8>) -> u64
    recommends
        s.len() == 8,
{
    (((s[0] as u64) << 56) | ((s[1] as u64) << 48) | ((s[2] as u64) << 40) | ((s[3] as u64) << 32)
        | ((s[4] as u64) << 24) | ((s[5] as u64) << 16) | ((s[6] as u64) << 8) | (s[7] as u64))
}

pub open spec fn u128_of_be(s: Seq<u8>) -> u128
    recommends
        s.len() == 16,
{
    (((u64_of_be(s.subrange(0, 8)) as u128) << 64) | (u64_of_be(s.subrange(8, 16)) as u128))
}

pub open spec fn circle_bytes(c: Circle) -> Seq<u8> {
    u32_be(c.position_x) + u32_be(c.position_y) + u32_be(c.color_r) + u32_be(c.color_g) + u32_be(
        c.color_b,
    ) + u32_be(c.radius)
}

pub open spec fn circle_of_bytes(s: Seq<u8>) -> Circle
    recommends
        s.len() == 24,
{
    Circle {
        position_x: u32_of_be(s.subrange(0, 4)),
        position_y: u32_of_be(s.subrange(4, 8)),
        color_r: u32_of_be(s.subrange(8, 12)),
        color_g: u32_of_be(s.subrange(12, 16)),
        color_b: u32_of_be(s.subrange(16, 20)),
        radius: u32_of_be(s.subrange(20, 24)),
    }
}

// ---------------------------------------------------------------------------
// Payload layouts and their parsers
// ---------------------------------------------------------------------------

pub open spec fn c2s_payload(m: ClientToServerMessage) -> Seq<u8> {
    match m {
        ClientToServerMessage::Disconnect => seq![TAG_C2S_DISCONNECT],
        ClientToServerMessage::Ping => seq![TAG_C2S_PING],
        ClientToServerMessage::PlayerChanged(c) => seq![TAG_C2S_PLAYER_CHANGED] + circle_bytes(c),
    }
}

pub open spec fn s2c_payload(m: ServerToClientMessage) -> Seq<u8> {
    match m {
        ServerToClientMessage::Handshake(id) => seq![TAG_S2C_HANDSHAKE] + u128_be(id.bits),
        ServerToClientMessage::ClientConnected(id) => seq![TAG_S2C_CONNECTED] + u128_be(id.bits),
        ServerToClientMessage::ClientDisconnected(id) => seq![TAG_S2C_DISCONNECTED] + u128_be(
            id.bits,
        ),
        ServerToClientMessage::Ping => seq![TAG_S2C_PING],
        ServerToClientMessage::PlayerChanged(id, c) => seq![TAG_S2C_PLAYER_CHANGED] + u128_be(
            id.bits,
        ) + circle_bytes(c),
    }
}

pub open spec fn parse_c2s_payload(p: Seq<u8>) -> Option<ClientToServerMessage> {
    if p.len() < 1 {
        None
    } else if p[0] == TAG_C2S_DISCONNECT {
        if p.len() == 1 {
            Some(ClientToServerMessage::Disconnect)
        } else {
            None
        }
    } else if p[0] == TAG_C2S_PING {
        if p.len() == 1 {
            Some(ClientToServerMessage::Ping)
        } else {
            None
        }
    } else if p[0] == TAG_C2S_PLAYER_CHANGED {
        if p.len() == 25 {
            Some(ClientToServerMessage::PlayerChanged(circle_of_bytes(p.subrange(1, 25))))
        } else {
            None
        }
    } else {
        None
    }
}

pub open spec fn parse_s2c_payload(p: Seq<u8>) -> Option<ServerToClientMessage> {
    if p.len() < 1 {
        None
    } else if p[0] == TAG_S2C_HANDSHAKE {
        if p.len() == 17 {
            Some(ServerToClientMessage::Handshake(PeerId { bits: u128_of_be(p.subrange(1, 17)) }))
        } else {
            None
        }
    } else if p[0] == TAG_S2C_CONNECTED {
        if p.len() == 17 {
            Some(
                ServerToClientMessage::ClientConnected(
                    PeerId { bits: u128_of_be(p.subrange(1, 17)) },
                ),
            )
        } else {
            None
        }
    } else if p[0] == TAG_S2C_DISCONNECTED {
        if p.len() == 17 {
            Some(
                ServerToClientMessage::ClientDisconnected(
                    PeerId { bits: u128_of_be(p.subrange(1, 17)) },
                ),
            )
        } else {
            None
        }
    } else if p[0] == TAG_S2C_PING {
        if p.len() == 1 {
            Some(ServerToClientMessage::Ping)
        } else {
            None
        }
    } else if p[0] == TAG_S2C_PLAYER_CHANGED {
        if p.len() == 41 {
            Some(
                ServerToClientMessage::PlayerChanged(
                    PeerId { bits: u128_of_be(p.subrange(1, 17)) },
                    circle_of_bytes(p.subrange(17, 41)),
                ),
            )
        } else {
            None
        }
    } else {
        None
    }
}

// ---------------------------------------------------------------------------
// Framing
// ---------------------------------------------------------------------------

pub open spec fn frame_bytes(payload: Seq<u8>) -> Seq<u8> {
    u64_be(payload.len() as u64) + payload
}

/// One frame parsed off the front of a byte stream: the length prefix, then
/// exactly that many payload bytes. Anything past the frame belongs to the
/// next frame and is ignored here.
pub open spec fn parse_frame(bytes: Seq<u8>) -> Result<Seq<u8>, CodecError> {
    if bytes.len() < 8 {
        Err(CodecError::TruncatedStream)
    } else {
        let n = u64_of_be(bytes.subrange(0, 8)) as int;
        if bytes.len() < 8 + n {
            Err(CodecError::TruncatedStream)
        } else {
            Ok(bytes.subrange(8, 8 + n))
        }
    }
}

pub open spec fn encode_c2s_spec(m: ClientToServerMessage) -> Seq<u8> {
    frame_bytes(c2s_payload(m))
}

pub open spec fn encode_s2c_spec(m: ServerToClientMessage) -> Seq<u8> {
    frame_bytes(s2c_payload(m))
}

pub open spec fn decode_c2s_spec(bytes: Seq<u8>) -> Result<ClientToServerMessage, CodecError> {
    match parse_frame(bytes) {
        Err(e) => Err(e),
        Ok(p) => match parse_c2s_payload(p) {
            Some(m) => Ok(m),
            None => Err(CodecError::MalformedPayload),
        },
    }
}

pub open spec fn decode_s2c_spec(bytes: Seq<u8>) -> Result<ServerToClientMessage, CodecError> {
    match parse_frame(bytes) {
        Err(e) => Err(e),
        Ok(p) => match parse_s2c_payload(p) {
            Some(m) => Ok(m),
            None => Err(CodecError::MalformedPayload),
        },
    }
}

// ---------------------------------------------------------------------------
// Executable encoding
// ---------------------------------------------------------------------------

fn push_u32_be(out: &mut Vec<u8>, n: u32)
    ensures
        final(out)@ == old(out)@ + u32_be(n),
{
    out.push(((n >> 24) & 0xff) as u8);
    out.push(((n >> 16) & 0xff) as u8);
    out.push(((n >> 8) & 0xff) as u8);
    out.push((n & 0xff) as u8);
    proof {
        assert(out@ =~= old(out)@ + u32_be(n));
    }
}

fn push_u64_be(out: &mut Vec<u8>, n: u64)
    ensures
        final(out)@ == old(out)@ + u64_be(n),
{
    out.push(((n >> 56) & 0xff) as u8);
    out.push(((n >> 48) & 0xff) as u8);
    out.push(((n >> 40) & 0xff) as u8);
    out.push(((n >> 32) & 0xff) as u8);
    out.push(((n >> 24) & 0xff) as u8);
    out.push(((n >> 16) & 0xff) as u8);
    out.push(((n >> 8) & 0xff) as u8);
    out.push((n & 0xff) as u8);
    proof {
        assert(out@ =~= old(out)@ + u64_be(n));
    }
}

fn push_u128_be(out: &mut Vec<u8>, n: u128)
    ensures
        final(out)@ == old(out)@ + u128_be(n),
{
    push_u64_be(out, (n >> 64) as u64);
    push_u64_be(out, n as u64);
    proof {
        assert(out@ =~= old(out)@ + u128_be(n));
    }
}

fn push_circle(out: &mut Vec<u8>, c: &Circle)
    ensures
        final(out)@ == old(out)@ + circle_bytes(*c),
{
    push_u32_be(out, c.position_x);
    push_u32_be(out, c.position_y);
    push_u32_be(out, c.color_r);
    push_u32_be(out, c.color_g);
    push_u32_be(out, c.color_b);
    push_u32_be(out, c.radius);
    proof {
        assert(out@ =~= old(out)@ + circle_bytes(*c));
    }
}

/// Wraps a finished payload into a frame: length prefix, then the payload.
fn frame_payload(payload: Vec<u8>) -> (r: Vec<u8>)
    ensures
        r@ == frame_bytes(payload@),
{
    let ghost orig = payload@;
    let mut out: Vec<u8> = Vec::new();
    push_u64_be(&mut out, payload.len() as u64);
    let mut p = payload;
    out.append(&mut p);
    proof {
        assert(out@ =~= frame_bytes(orig));
    }
    out
}

/// Encodes one peer -> relay message as a complete frame.
pub fn encode_c2s(m: &ClientToServerMessage) -> (r: Vec<u8>)
    ensures
        r@ == encode_c2s_spec(*m),
{
    let mut payload: Vec<u8> = Vec::new();
    match m {
        ClientToServerMessage::Disconnect => {
            payload.push(TAG_C2S_DISCONNECT);
        },
        ClientToServerMessage::Ping => {
            payload.push(TAG_C2S_PING);
        },
        ClientToServerMessage::PlayerChanged(c) => {
            payload.push(TAG_C2S_PLAYER_CHANGED);
            push_circle(&mut payload, c);
        },
    }
    proof {
        assert(payload@ =~= c2s_payload(*m));
    }
    frame_payload(payload)
}

/// Encodes one relay -> peer message as a complete frame.
pub fn encode_s2c(m: &ServerToClientMessage) -> (r: Vec<u8>)
    ensures
        r@ == encode_s2c_spec(*m),
{
    let mut payload: Vec<u8> = Vec::new();
    match m {
        ServerToClientMessage::Handshake(id) => {
            payload.push(TAG_S2C_HANDSHAKE);
            push_u128_be(&mut payload, id.bits);
        },
        ServerToClientMessage::ClientConnected(id) => {
            payload.push(TAG_S2C_CONNECTED);
            push_u128_be(&mut payload, id.bits);
        },
        ServerToClientMessage::ClientDisconnected(id) => {
            payload.push(TAG_S2C_DISCONNECTED);
            push_u128_be(&mut payload, id.bits);
        },
        ServerToClientMessage::Ping => {
            payload.push(TAG_S2C_PING);
        },
        ServerToClientMessage::PlayerChanged(id, c) => {
            payload.push(TAG_S2C_PLAYER_CHANGED);
            push_u128_be(&mut payload, id.bits);
            push_circle(&mut payload, c);
        },
    }
    proof {
        assert(payload@ =~= s2c_payload(*m));
    }
    frame_payload(payload)
}

// ---------------------------------------------------------------------------
// Executable decoding
// ---------------------------------------------------------------------------

fn read_u32_be(b: &Vec<u8>, off: usize) -> (r: u32)
    requires
        off + 4 <= b@.len(),
    ensures
        r == u32_of_be(b@.subrange(off as int, off as int + 4)),
{
    let blen = b.len();
    assert(off + 4 <= blen);
    let r = ((b[off] as u32) << 24) | ((b[off + 1] as u32) << 16) | ((b[off + 2] as u32) << 8) | (
    b[off + 3] as u32);
    proof {
        let s = b@.subrange(off as int, off as int + 4);
        assert(s[0] == b@[off as int] && s[1] == b@[off as int + 1] && s[2] == b@[off as int + 2]
            && s[3] == b@[off as int + 3]);
    }
    r
}

fn read_u64_be(b: &Vec<u8>, off: usize) -> (r: u64)
    requires
        off + 8 <= b@.len(),
    ensures
        r == u64_of_be(b@.subrange(off as int, off as int + 8)),
{
    let blen = b.len();
    assert(off + 8 <= blen);
    let r = ((b[off] as u64) << 56) | ((b[off + 1] as u64) << 48) | ((b[off + 2] as u64) << 40) | ((
    b[off + 3] as u64) << 32) | ((b[off + 4] as u64) << 24) | ((b[off + 5] as u64) << 16) | ((b[off
        + 6] as u64) << 8) | (b[off + 7] as u64);
    proof {
        let s = b@.subrange(off as int, off as int + 8);
        assert(s[0] == b@[off as int] && s[1] == b@[off as int + 1] && s[2] == b@[off as int + 2]
            && s[3] == b@[off as int + 3] && s[4] == b@[off as int + 4] && s[5] == b@[off as int
            + 5] && s[6] == b@[off as int + 6] && s[7] == b@[off as int + 7]);
    }
    r
}

fn read_u128_be(b: &Vec<u8>, off: usize) -> (r: u128)
    requires
        off + 16 <= b@.len(),
    ensures
        r == u128_of_be(b@.subrange(off as int, off as int + 16)),
{
    let blen = b.len();
    assert(off + 16 <= blen);
    let hi = read_u64_be(b, off);
    let lo = read_u64_be(b, off + 8);
    proof {
        let s = b@.subrange(off as int, off as int + 16);
        assert(s.subrange(0, 8) =~= b@.subrange(off as int, off as int + 8));
        assert(s.subrange(8, 16) =~= b@.subrange(off as int + 8, off as int + 16));
    }
    ((hi as u128) << 64) | (lo as u128)
}

fn read_circle(b: &Vec<u8>, off: usize) -> (r: Circle)
    requires
        off + 24 <= b@.len(),
    ensures
        r == circle_of_bytes(b@.subrange(off as int, off as int + 24)),
{
    let blen = b.len();
    assert(off + 24 <= blen);
    let r = Circle {
        position_x: read_u32_be(b, off),
        position_y: read_u32_be(b, off + 4),
        color_r: read_u32_be(b, off + 8),
        color_g: read_u32_be(b, off + 12),
        color_b: read_u32_be(b, off + 16),
        radius: read_u32_be(b, off + 20),
    };
    proof {
        let s = b@.subrange(off as int, off as int + 24);
        assert(s.subrange(0, 4) =~= b@.subrange(off as int, off as int + 4));
        assert(s.subrange(4, 8) =~= b@.subrange(off as int + 4, off as int + 8));
        assert(s.subrange(8, 12) =~= b@.subrange(off as int + 8, off as int + 12));
        assert(s.subrange(12, 16) =~= b@.subrange(off as int + 12, off as int + 16));
        assert(s.subrange(16, 20) =~= b@.subrange(off as int + 16, off as int + 20));
        assert(s.subrange(20, 24) =~= b@.subrange(off as int + 20, off as int + 24));
    }
    r
}

fn parse_c2s_region(b: &Vec<u8>, off: usize, n: usize) -> (r: Result<
    ClientToServerMessage,
    CodecError,
>)
    requires
        off + n <= b@.len(),
    ensures
        r == (match parse_c2s_payload(b@.subrange(off as int, off as int + n as int)) {
            Some(m) => Ok::<ClientToServerMessage, CodecError>(m),
            None => Err::<ClientToServerMessage, CodecError>(CodecError::MalformedPayload),
        }),
{
    let ghost p = b@.subrange(off as int, off as int + n as int);
    let blen = b.len();
    assert(off + n <= blen);
    if n < 1 {
        return Err(CodecError::MalformedPayload);
    }
    let tag = b[off];
    proof {
        assert(p[0] == b@[off as int]);
    }
    if tag == TAG_C2S_DISCONNECT {
        if n == 1 {
            Ok(ClientToServerMessage::Disconnect)
        } else {
            Err(CodecError::MalformedPayload)
        }
    } else if tag == TAG_C2S_PING {
        if n == 1 {
            Ok(ClientToServerMessage::Ping)
        } else {
            Err(CodecError::MalformedPayload)
        }
    } else if tag == TAG_C2S_PLAYER_CHANGED {
        if n == 25 {
            let c = read_circle(b, off + 1);
            proof {
                assert(p.subrange(1, 25) =~= b@.subrange(off as int + 1, off as int + 25));
            }
            Ok(ClientToServerMessage::PlayerChanged(c))
        } else {
            Err(CodecError::MalformedPayload)
        }
    } else {
        Err(CodecError::MalformedPayload)
    }
}

fn parse_s2c_region(b: &Vec<u8>, off: usize, n: usize) -> (r: Result<
    ServerToClientMessage,
    CodecError,
>)
    requires
        off + n <= b@.len(),
    ensures
        r == (match parse_s2c_payload(b@.subrange(off as int, off as int + n as int)) {
            Some(m) => Ok::<ServerToClientMessage, CodecError>(m),
            None => Err::<ServerToClientMessage, CodecError>(CodecError::MalformedPayload),
        }),
{
    let ghost p = b@.subrange(off as int, off as int + n as int);
    let blen = b.len();
    assert(off + n <= blen);
    if n < 1 {
        return Err(CodecError::MalformedPayload);
    }
    let tag = b[off];
    proof {
        assert(p[0] == b@[off as int]);
    }
    if tag == TAG_S2C_HANDSHAKE || tag == TAG_S2C_CONNECTED || tag == TAG_S2C_DISCONNECTED {
        if n == 17 {
            let bits = read_u128_be(b, off + 1);
            proof {
                assert(p.subrange(1, 17) =~= b@.subrange(off as int + 1, off as int + 17));
            }
            let id = PeerId { bits };
            if tag == TAG_S2C_HANDSHAKE {
                Ok(ServerToClientMessage::Handshake(id))
            } else if tag == TAG_S2C_CONNECTED {
                Ok(ServerToClientMessage::ClientConnected(id))
            } else {
                Ok(ServerToClientMessage::ClientDisconnected(id))
            }
        } else {
            Err(CodecError::MalformedPayload)
        }
    } else if tag == TAG_S2C_PING {
        if n == 1 {
            Ok(ServerToClientMessage::Ping)
        } else {
            Err(CodecError::MalformedPayload)
        }
    } else if tag == TAG_S2C_PLAYER_CHANGED {
        if n == 41 {
            let bits = read_u128_be(b, off + 1);
            let c = read_circle(b, off + 17);
            proof {
                assert(p.subrange(1, 17) =~= b@.subrange(off as int + 1, off as int + 17));
                assert(p.subrange(17, 41) =~= b@.subrange(off as int + 17, off as int + 41));
            }
            Ok(ServerToClientMessage::PlayerChanged(PeerId { bits }, c))
        } else {
            Err(CodecError::MalformedPayload)
        }
    } else {
        Err(CodecError::MalformedPayload)
    }
}

/// Reads the length prefix off a buffered frame header.
pub fn frame_payload_len(header: &Vec<u8>) -> (r: Result<u64, CodecError>)
    ensures
        r == (if header@.len() < 8 {
            Err::<u64, CodecError>(CodecError::TruncatedStream)
        } else {
            Ok::<u64, CodecError>(u64_of_be(header@.subrange(0, 8)))
        }),
{
    if header.len() < 8 {
        Err(CodecError::TruncatedStream)
    } else {
        Ok(read_u64_be(header, 0))
    }
}

/// Decodes one peer -> relay message from the front of a byte buffer.
pub fn decode_c2s(bytes: &Vec<u8>) -> (r: Result<ClientToServerMessage, CodecError>)
    ensures
        r == decode_c2s_spec(bytes@),
{
    if bytes.len() < 8 {
        return Err(CodecError::TruncatedStream);
    }
    let n64 = read_u64_be(bytes, 0);
    if ((bytes.len() - 8) as u64) < n64 {
        return Err(CodecError::TruncatedStream);
    }
    let n = n64 as usize;
    parse_c2s_region(bytes, 8, n)
}

/// Decodes one relay -> peer message from the front of a byte buffer.
pub fn decode_s2c(bytes: &Vec<u8>) -> (r: Result<ServerToClientMessage, CodecError>)
    ensures
        r == decode_s2c_spec(bytes@),
{
    if bytes.len() < 8 {
        return Err(CodecError::TruncatedStream);
    }
    let n64 = read_u64_be(bytes, 0);
    if ((bytes.len() - 8) as u64) < n64 {
        return Err(CodecError::TruncatedStream);
    }
    let n = n64 as usize;
    parse_s2c_region(bytes, 8, n)
}


// ---------------------------------------------------------------------------
// Laws: round trip and truncation
// ---------------------------------------------------------------------------

proof fn lemma_u32_be_roundtrip(n: u32)
    ensures
        u32_of_be(u32_be(n)) == n,
{
    assert((((((n >> 24) & 0xff) as u8) as u32) << 24 | ((((n >> 16) & 0xff) as u8) as u32) << 16
        | ((((n >> 8) & 0xff) as u8) as u32) << 8 | (((n & 0xff) as u8) as u32)) == n)
        by (bit_vector);
}

proof fn lemma_u64_be_roundtrip(n: u64)
    ensures
        u64_of_be(u64_be(n)) == n,
{
    assert((((((n >> 56) & 0xff) as u8) as u64) << 56 | ((((n >> 48) & 0xff) as u8) as u64) << 48
        | ((((n >> 40) & 0xff) as u8) as u64) << 40 | ((((n >> 32) & 0xff) as u8) as u64) << 32
        | ((((n >> 24) & 0xff) as u8) as u64) << 24 | ((((n >> 16) & 0xff) as u8) as u64) << 16
        | ((((n >> 8) & 0xff) as u8) as u64) << 8 | (((n & 0xff) as u8) as u64)) == n)
        by (bit_vector);
}

proof fn lemma_u128_be_roundtrip(n: u128)
    ensures
        u128_of_be(u128_be(n)) == n,
{
    let s = u128_be(n);
    assert(s.subrange(0, 8) =~= u64_be((n >> 64) as u64));
    assert(s.subrange(8, 16) =~= u64_be(n as u64));
    lemma_u64_be_roundtrip((n >> 64) as u64);
    lemma_u64_be_roundtrip(n as u64);
    assert(((((n >> 64) as u64) as u128) << 64 | ((n as u64) as u128)) == n) by (bit_vector);
}

proof fn lemma_circle_roundtrip(c: Circle)
    ensures
        circle_of_bytes(circle_bytes(c)) == c,
{
    let s = circle_bytes(c);
    assert(s.subrange(0, 4) =~= u32_be(c.position_x));
    assert(s.subrange(4, 8) =~= u32_be(c.position_y));
    assert(s.subrange(8, 12) =~= u32_be(c.color_r));
    assert(s.subrange(12, 16) =~= u32_be(c.color_g));
    assert(s.subrange(16, 20) =~= u32_be(c.color_b));
    assert(s.subrange(20, 24) =~= u32_be(c.radius));
    lemma_u32_be_roundtrip(c.position_x);
    lemma_u32_be_roundtrip(c.position_y);
    lemma_u32_be_roundtrip(c.color_r);
    lemma_u32_be_roundtrip(c.color_g);
    lemma_u32_be_roundtrip(c.color_b);
    lemma_u32_be_roundtrip(c.radius);
}

proof fn lemma_frame_roundtrip(p: Seq<u8>)
    requires
        p.len() < 0x1_0000_0000_0000_0000,
    ensures
        parse_frame(frame_bytes(p)) == Ok::<Seq<u8>, CodecError>(p),
{
    let f = frame_bytes(p);
    let len64 = p.len() as u64;
    assert(f.subrange(0, 8) =~= u64_be(len64));
    lemma_u64_be_roundtrip(len64);
    assert(f.subrange(8, 8 + len64 as int) =~= p);
}

proof fn lemma_frame_truncated(p: Seq<u8>, k: int)
    requires
        p.len() < 0x1_0000_0000_0000_0000,
        0 <= k < frame_bytes(p).len(),
    ensures
        parse_frame(frame_bytes(p).take(k)) == Err::<Seq<u8>, CodecError>(
            CodecError::TruncatedStream,
        ),
{
    let f = frame_bytes(p);
    let t = f.take(k);
    if k >= 8 {
        assert(t.subrange(0, 8) =~= u64_be(p.len() as u64));
        lemma_u64_be_roundtrip(p.len() as u64);
    }
}

proof fn lemma_c2s_payload_shape(m: ClientToServerMessage)
    ensures
        1 <= c2s_payload(m).len() <= 25,
        parse_c2s_payload(c2s_payload(m)) == Some(m),
{
    let p = c2s_payload(m);
    match m {
        ClientToServerMessage::Disconnect => {
        },
        ClientToServerMessage::Ping => {
        },
        ClientToServerMessage::PlayerChanged(c) => {
            assert(p.subrange(1, 25) =~= circle_bytes(c));
            lemma_circle_roundtrip(c);
        },
    }
}

proof fn lemma_s2c_payload_shape(m: ServerToClientMessage)
    ensures
        1 <= s2c_payload(m).len() <= 41,
        parse_s2c_payload(s2c_payload(m)) == Some(m),
{
    let p = s2c_payload(m);
    match m {
        ServerToClientMessage::Handshake(id) => {
            assert(p.subrange(1, 17) =~= u128_be(id.bits));
            lemma_u128_be_roundtrip(id.bits);
        },
        ServerToClientMessage::ClientConnected(id) => {
            assert(p.subrange(1, 17) =~= u128_be(id.bits));
            lemma_u128_be_roundtrip(id.bits);
        },
        ServerToClientMessage::ClientDisconnected(id) => {
            assert(p.subrange(1, 17) =~= u128_be(id.bits));
            lemma_u128_be_roundtrip(id.bits);
        },
        ServerToClientMessage::Ping => {
        },
        ServerToClientMessage::PlayerChanged(id, c) => {
            assert(p.subrange(1, 17) =~= u128_be(id.bits));
            assert(p.subrange(17, 41) =~= circle_bytes(c));
            lemma_u128_be_roundtrip(id.bits);
            lemma_circle_roundtrip(c);
        },
    }
}

/// Round-trip law: every peer -> relay message value decodes back from its
/// own encoding.
pub proof fn lemma_round_trip_c2s(m: ClientToServerMessage)
    ensures
        decode_c2s_spec(encode_c2s_spec(m)) == Ok::<ClientToServerMessage, CodecError>(m),
{
    lemma_c2s_payload_shape(m);
    lemma_frame_roundtrip(c2s_payload(m));
}

/// Round-trip law: every relay -> peer message value decodes back from its
/// own encoding.
pub proof fn lemma_round_trip_s2c(m: ServerToClientMessage)
    ensures
        decode_s2c_spec(encode_s2c_spec(m)) == Ok::<ServerToClientMessage, CodecError>(m),
{
    lemma_s2c_payload_shape(m);
    lemma_frame_roundtrip(s2c_payload(m));
}

/// Truncation law: a peer -> relay frame cut short at any byte offset
/// decodes to `TruncatedStream`, never to a message.
pub proof fn lemma_truncated_c2s(m: ClientToServerMessage, k: int)
    requires
        0 <= k < encode_c2s_spec(m).len(),
    ensures
        decode_c2s_spec(encode_c2s_spec(m).take(k)) == Err::<ClientToServerMessage, CodecError>(
            CodecError::TruncatedStream,
        ),
{
    lemma_c2s_payload_shape(m);
    lemma_frame_truncated(c2s_payload(m), k);
}

/// Truncation law: a relay -> peer frame cut short at any byte offset
/// decodes to `TruncatedStream`, never to a message.
pub proof fn lemma_truncated_s2c(m: ServerToClientMessage, k: int)
    requires
        0 <= k < encode_s2c_spec(m).len(),
    ensures
        decode_s2c_spec(encode_s2c_spec(m).take(k)) == Err::<ServerToClientMessage, CodecError>(
            CodecError::TruncatedStream,
        ),
{
    lemma_s2c_payload_shape(m);
    lemma_frame_truncated(s2c_payload(m), k);
}

} // verus!
