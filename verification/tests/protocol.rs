use proxa::bytes::{push_bytes, push_le_u32, read_le_u32};
use proxa::protocol::{
    control_frame, control_length, ClientAudioPacket, ServerAudioPacket, MAX_AUDIO_PACKET_SIZE,
    MAX_CONTROL_MESSAGE_SIZE,
};

#[test]
fn limits() {
    assert_eq!(MAX_AUDIO_PACKET_SIZE, 1200);
    assert_eq!(MAX_CONTROL_MESSAGE_SIZE, 65536);
}

#[test]
fn numbers_are_little_endian() {
    let mut out = vec![9];
    push_le_u32(&mut out, 0x0403_0201);
    assert_eq!(out, vec![9, 1, 2, 3, 4]);
    assert_eq!(read_le_u32(&out, 1), 0x0403_0201);
    push_le_u32(&mut out, u32::MAX);
    assert_eq!(read_le_u32(&out, 5), u32::MAX);
    push_bytes(&mut out, &[7, 8]);
    assert_eq!(out.len(), 11);
    assert_eq!(&out[9..], &[7, 8]);
}

#[test]
fn client_packet_layout() {
    let data = ClientAudioPacket::serialize(0x1234, &[1, 2, 3]);
    assert_eq!(data, vec![0x34, 0x12, 0, 0, 1, 2, 3]);
}

#[test]
fn client_packet_comes_back() {
    let data = ClientAudioPacket::serialize(4000000000, &[5, 6]);
    let packet = ClientAudioPacket::deserialize(&data).unwrap();
    assert_eq!(packet.sequence, 4000000000);
    assert_eq!(packet.payload, &[5, 6]);
}

#[test]
fn client_packet_may_be_empty_but_not_short() {
    let packet = ClientAudioPacket::deserialize(&[1, 0, 0, 0]).unwrap();
    assert_eq!(packet.sequence, 1);
    assert!(packet.payload.is_empty());
    assert!(ClientAudioPacket::deserialize(&[1, 0, 0]).is_none());
    assert!(ClientAudioPacket::deserialize(&[]).is_none());
}

#[test]
fn server_packet_layout() {
    let packet = ServerAudioPacket { peer_id: 2, sequence: 0x01020304, payload: vec![0xaa] };
    assert_eq!(packet.serialize(), vec![2, 0, 0, 0, 4, 3, 2, 1, 0xaa]);
}

#[test]
fn server_packet_comes_back() {
    let packet = ServerAudioPacket { peer_id: 77, sequence: 88, payload: vec![1, 2, 3] };
    let read = ServerAudioPacket::deserialize(&packet.serialize()).unwrap();
    assert_eq!(read.peer_id, 77);
    assert_eq!(read.sequence, 88);
    assert_eq!(read.payload, vec![1, 2, 3]);
}

#[test]
fn server_packet_may_be_empty_but_not_short() {
    let packet = ServerAudioPacket::deserialize(&[1, 0, 0, 0, 2, 0, 0, 0]).unwrap();
    assert_eq!((packet.peer_id, packet.sequence), (1, 2));
    assert!(packet.payload.is_empty());
    assert!(ServerAudioPacket::deserialize(&[0; 7]).is_none());
}

#[test]
fn control_frames_follow_each_other() {
    let mut stream = control_frame(&[10, 20, 30]);
    assert_eq!(stream, vec![3, 0, 0, 0, 10, 20, 30]);
    stream.extend(control_frame(&[]));
    let len = control_length(&stream) as usize;
    assert_eq!(len, 3);
    assert_eq!(&stream[4..4 + len], &[10, 20, 30]);
    assert_eq!(control_length(&stream[4 + len..]), 0);
    assert_eq!(control_length(&[0, 0, 1, 0]), 65536);
}
