//! What travels between a client and the relay: audio datagrams, control messages, and the
//! length-prefixed frames that carry the latter.

use crate::bytes::{push_bytes, push_le_u32, read_le_u32};
use vstd::prelude::*;
use vstd::slice::{slice_subrange, slice_to_vec};

verus! {

broadcast use vstd::seq_lib::group_seq_properties;

/// The largest audio payload a client accepts, in bytes.
pub const MAX_AUDIO_PACKET_SIZE: usize = 1200;

/// The largest control message a joined client accepts, in bytes.
pub const MAX_CONTROL_MESSAGE_SIZE: usize = 65536;

/// Control messages sent by a client over a reliable stream.
#[derive(Debug, Clone, PartialEq, Eq)]
pub enum ClientMessage {
    /// Request to join a room with a microphone of so many channels.
    JoinRoom { room_name: String, channels: u8 },
    /// Graceful disconnect from the current room.
    LeaveRoom,
    /// So many of the frames expected from a peer never arrived. The loss rate is their quotient.
    ReportPeerLoss { peer_id: u32, lost: u32, expected: u32 },
    /// The sender enters or leaves a silent state, so that missing audio is no loss.
    SetSilence(bool),
    /// The microphone now has so many channels.
    SetChannels(u8),
}

/// Control messages sent by the relay.
#[derive(Debug, Clone, PartialEq, Eq)]
pub enum ServerMessage {
    RoomJoined { peer_id: u32, channels: u8 },
    PeerJoined { peer_id: u32, channels: u8 },
    PeerLeft { peer_id: u32 },
    PeerSilence { peer_id: u32, silenced: bool },
    PeerChannels { peer_id: u32, channels: u8 },
    PeerPing { peer_id: u32, ping_ms: u32 },
    /// The loss that the encoder should guard against, in whole percent.
    TargetLossRate { percent: i32 },
    Error(String),
}

/// An audio datagram from a client: `[sequence (4 bytes)][payload]`.
pub struct ClientAudioPacket<'a> {
    pub sequence: u32,
    /// Opus encoded payload.
    pub payload: &'a [u8],
}

/// The bytes of a client datagram.
pub open spec fn client_packet_bytes(sequence: u32, payload: Seq<u8>) -> Seq<u8> {
    crate::bytes::le_bytes(sequence) + payload
}

/// The bytes of a relay datagram.
pub open spec fn server_packet_bytes(peer_id: u32, sequence: u32, payload: Seq<u8>) -> Seq<u8> {
    crate::bytes::le_bytes(peer_id) + crate::bytes::le_bytes(sequence) + payload
}

impl<'a> ClientAudioPacket<'a> {
    pub fn serialize(sequence: u32, payload: &[u8]) -> (data: Vec<u8>)
        ensures
            data@ == client_packet_bytes(sequence, payload@),
    {
        let mut buf: Vec<u8> = Vec::new();
        push_le_u32(&mut buf, sequence);
        push_bytes(&mut buf, payload);
        assert(buf@ =~= client_packet_bytes(sequence, payload@));
        buf
    }

    /// Reads a datagram. It fails exactly when there is no room for the sequence number.
    pub fn deserialize(data: &'a [u8]) -> (packet: Option<Self>)
        ensures
            packet is Some <==> data@.len() >= 4,
            packet matches Some(p) ==> {
                &&& p.sequence == crate::bytes::le_value(data@, 0)
                &&& p.payload@ == data@.subrange(4, data@.len() as int)
                &&& data@ == client_packet_bytes(p.sequence, p.payload@)
            },
    {
        if data.len() < 4 {
            return None;
        }
        let sequence: u32 = read_le_u32(data, 0);
        let payload = slice_subrange(data, 4, data.len());
        proof {
            crate::bytes::lemma_le_canonical(data@, 0);
            assert(data@ =~= data@.subrange(0, 4) + data@.subrange(4, data@.len() as int));
        }
        Some(ClientAudioPacket { sequence, payload })
    }
}

/// An audio datagram from the relay: `[peer_id (4 bytes)][sequence (4 bytes)][payload]`.
#[derive(Debug, Clone)]
pub struct ServerAudioPacket {
    pub peer_id: u32,
    pub sequence: u32,
    /// Opus encoded payload.
    pub payload: Vec<u8>,
}

impl ServerAudioPacket {
    pub fn serialize(&self) -> (data: Vec<u8>)
        ensures
            data@ == server_packet_bytes(self.peer_id, self.sequence, self.payload@),
    {
        let mut buf: Vec<u8> = Vec::new();
        push_le_u32(&mut buf, self.peer_id);
        push_le_u32(&mut buf, self.sequence);
        push_bytes(&mut buf, self.payload.as_slice());
        assert(buf@ =~= server_packet_bytes(self.peer_id, self.sequence, self.payload@));
        buf
    }

    /// Reads a datagram. It fails exactly when there is no room for the two numbers.
    pub fn deserialize(data: &[u8]) -> (packet: Option<Self>)
        ensures
            packet is Some <==> data@.len() >= 8,
            packet matches Some(p) ==> {
                &&& p.peer_id == crate::bytes::le_value(data@, 0)
                &&& p.sequence == crate::bytes::le_value(data@, 4)
                &&& p.payload@ == data@.subrange(8, data@.len() as int)
                &&& data@ == server_packet_bytes(p.peer_id, p.sequence, p.payload@)
            },
    {
        if data.len() < 8 {
            return None;
        }
        let peer_id: u32 = read_le_u32(data, 0);
        let sequence: u32 = read_le_u32(data, 4);
        let payload = slice_to_vec(slice_subrange(data, 8, data.len()));
        proof {
            crate::bytes::lemma_le_canonical(data@, 0);
            crate::bytes::lemma_le_canonical(data@, 4);
            assert(data@ =~= data@.subrange(0, 4) + data@.subrange(4, 8) + data@.subrange(
                8,
                data@.len() as int,
            ));
        }
        Some(ServerAudioPacket { peer_id, sequence, payload })
    }
}

/// The bytes of a control message on the stream: its length, then the message.
pub open spec fn control_frame_bytes(body: Seq<u8>) -> Seq<u8> {
    crate::bytes::le_bytes(body.len() as u32) + body
}

/// Puts the length in front of a control message.
pub fn control_frame(body: &[u8]) -> (frame: Vec<u8>)
    requires
        body@.len() <= u32::MAX,
    ensures
        frame@ == control_frame_bytes(body@),
{
    let mut frame: Vec<u8> = Vec::new();
    push_le_u32(&mut frame, body.len() as u32);
    push_bytes(&mut frame, body);
    assert(frame@ =~= control_frame_bytes(body@));
    frame
}

/// The length that stands in front of a control message.
pub fn control_length(header: &[u8]) -> (len: u32)
    requires
        header@.len() >= 4,
    ensures
        len == crate::bytes::le_value(header@, 0),
{
    read_le_u32(header, 0)
}

/// Control messages can be told apart on the stream: what a reader takes off the front, by the
/// length that stands there, is the message that was written, and what follows is left for later.
pub proof fn law_control_frames_are_unambiguous(
    body: Seq<u8>,
    rest: Seq<u8>,
)
    requires
        body.len() <= u32::MAX,
    ensures
        ({
            let stream = control_frame_bytes(body) + rest;
            let len = crate::bytes::le_value(stream, 0);
            &&& len == body.len()
            &&& stream.subrange(4, 4 + len) == body
            &&& stream.skip(4 + len) == rest
        }),
{
    let stream = control_frame_bytes(body) + rest;
    assert(stream.subrange(0, 4) =~= crate::bytes::le_bytes(body.len() as u32));
    crate::bytes::lemma_le_round_trip(body.len() as u32, stream, 0);
    assert(stream.subrange(4, 4 + body.len() as int) =~= body);
    assert(stream.skip(4 + body.len() as int) =~= rest);
}

/// No two client packets share a datagram, so what `deserialize` reads from the bytes that
/// `serialize` wrote is what was written.
pub proof fn law_client_packet_bytes_are_unambiguous(
    sequence1: u32,
    payload1: Seq<u8>,
    sequence2: u32,
    payload2: Seq<u8>,
)
    requires
        client_packet_bytes(sequence1, payload1) == client_packet_bytes(sequence2, payload2),
    ensures
        sequence1 == sequence2,
        payload1 == payload2,
{
    let s = client_packet_bytes(sequence1, payload1);
    assert(s.subrange(0, 4) =~= crate::bytes::le_bytes(sequence1));
    assert(s.subrange(0, 4) =~= crate::bytes::le_bytes(sequence2));
    crate::bytes::lemma_le_round_trip(sequence1, s, 0);
    crate::bytes::lemma_le_round_trip(sequence2, s, 0);
    assert(s.subrange(4, s.len() as int) =~= payload1);
    assert(s.subrange(4, s.len() as int) =~= payload2);
}

/// No two relay packets share a datagram, so what `deserialize` reads from the bytes that
/// `serialize` wrote is what was written.
pub proof fn law_server_packet_bytes_are_unambiguous(
    peer1: u32,
    sequence1: u32,
    payload1: Seq<u8>,
    peer2: u32,
    sequence2: u32,
    payload2: Seq<u8>,
)
    requires
        server_packet_bytes(peer1, sequence1, payload1) == server_packet_bytes(
            peer2,
            sequence2,
            payload2,
        ),
    ensures
        peer1 == peer2,
        sequence1 == sequence2,
        payload1 == payload2,
{
    let s = server_packet_bytes(peer1, sequence1, payload1);
    assert(s.subrange(0, 4) =~= crate::bytes::le_bytes(peer1));
    assert(s.subrange(0, 4) =~= crate::bytes::le_bytes(peer2));
    crate::bytes::lemma_le_round_trip(peer1, s, 0);
    crate::bytes::lemma_le_round_trip(peer2, s, 0);
    assert(s.subrange(4, 8) =~= crate::bytes::le_bytes(sequence1));
    assert(s.subrange(4, 8) =~= crate::bytes::le_bytes(sequence2));
    crate::bytes::lemma_le_round_trip(sequence1, s, 4);
    crate::bytes::lemma_le_round_trip(sequence2, s, 4);
    assert(s.subrange(8, s.len() as int) =~= payload1);
    assert(s.subrange(8, s.len() as int) =~= payload2);
}

} // verus!
