use proxa::client::{ClientState, Sound};
use proxa::protocol::{ClientMessage, ServerMessage};
use proxa::session::{host_port, pick_address, NetAction, NetEvent, NetPhase, Session};
use proxa::types::Channels;
use std::collections::HashMap;

fn session() -> Session {
    Session::new(&"relay.example".to_string(), "lobby".to_string(), Channels::Stereo)
}

fn running() -> Session {
    let mut s = session();
    s.step(NetEvent::Rested);
    s.step(NetEvent::Resolved(vec![false]));
    s.step(NetEvent::Connected);
    s.step(NetEvent::Opened);
    s.step(NetEvent::Length(5));
    s.step(NetEvent::Body(Some(ServerMessage::RoomJoined { peer_id: 4, channels: 2 })));
    assert_eq!(s.phase, NetPhase::Running);
    s
}

fn retry() -> NetAction {
    NetAction::Rest { millis: 2000, sound: None }
}

fn reconnect() -> NetAction {
    NetAction::Rest { millis: 500, sound: Some(Sound::Error) }
}

#[test]
fn default_port() {
    assert_eq!(host_port(&"relay.example".to_string()), "relay.example:39201");
    assert_eq!(host_port(&"relay.example:99".to_string()), "relay.example:99");
    assert_eq!(host_port(&"[::1]:39201".to_string()), "[::1]:39201");
    assert_eq!(host_port(&"".to_string()), ":39201");
    assert_eq!(host_port(&"größe".to_string()), "größe:39201");
}

#[test]
fn ipv6_is_preferred() {
    assert_eq!(pick_address(&vec![]), None);
    assert_eq!(pick_address(&vec![false, false]), Some(0));
    assert_eq!(pick_address(&vec![false, true, true]), Some(1));
    assert_eq!(pick_address(&vec![true, false]), Some(0));
}

#[test]
fn joining() {
    let mut s = session();
    assert_eq!(s.phase, NetPhase::Resting);
    assert!(!s.connected);
    assert_eq!(s.step(NetEvent::Rested), NetAction::Resolve("relay.example:39201".to_string()));
    assert_eq!(s.step(NetEvent::Resolved(vec![false, true])), NetAction::Connect(1));
    assert!(!s.connected);
    assert_eq!(s.step(NetEvent::Connected), NetAction::Open);
    assert!(s.connected);
    assert_eq!(
        s.step(NetEvent::Opened),
        NetAction::Send(ClientMessage::JoinRoom { room_name: "lobby".to_string(), channels: 2 })
    );
    assert_eq!(s.step(NetEvent::Length(100000)), NetAction::ReadBody(100000));
    assert_eq!(
        s.step(NetEvent::Body(Some(ServerMessage::RoomJoined { peer_id: 1, channels: 1 }))),
        NetAction::Listen
    );
    assert_eq!(s.phase, NetPhase::Running);
    assert!(s.connected);
}

#[test]
fn every_failure_on_the_way_is_retried() {
    let mut s = session();
    s.step(NetEvent::Rested);
    assert_eq!(s.step(NetEvent::Failed), retry());
    s.step(NetEvent::Rested);
    assert_eq!(s.step(NetEvent::Resolved(vec![])), retry());
    s.step(NetEvent::Rested);
    s.step(NetEvent::Resolved(vec![true]));
    assert_eq!(s.step(NetEvent::Failed), retry());
    s.step(NetEvent::Rested);
    s.step(NetEvent::Resolved(vec![true]));
    s.step(NetEvent::Connected);
    assert_eq!(s.step(NetEvent::Failed), retry());
    assert!(!s.connected);
    s.step(NetEvent::Rested);
    s.step(NetEvent::Resolved(vec![true]));
    s.step(NetEvent::Connected);
    s.step(NetEvent::Opened);
    assert_eq!(s.step(NetEvent::Failed), retry());
    assert_eq!(s.phase, NetPhase::Resting);
}

#[test]
fn a_refusal_is_retried() {
    for answer in [
        Some(ServerMessage::Error("full".to_string())),
        Some(ServerMessage::PeerLeft { peer_id: 1 }),
        None,
    ] {
        let mut s = session();
        s.step(NetEvent::Rested);
        s.step(NetEvent::Resolved(vec![true]));
        s.step(NetEvent::Connected);
        s.step(NetEvent::Opened);
        s.step(NetEvent::Length(1));
        assert_eq!(s.step(NetEvent::Body(answer)), retry());
        assert!(!s.connected);
        assert_eq!(s.phase, NetPhase::Resting);
    }
}

#[test]
fn a_room_is_served() {
    let mut s = running();
    let report = ClientMessage::SetSilence(true);
    assert_eq!(s.step(NetEvent::Report(report.clone())), NetAction::Send(report));
    assert_eq!(s.step(NetEvent::Datagram(vec![1, 2])), NetAction::Hear(vec![1, 2]));
    assert_eq!(s.step(NetEvent::Length(9)), NetAction::ReadBody(9));
    assert_eq!(s.phase, NetPhase::Filling);
    let msg = ServerMessage::PeerPing { peer_id: 1, ping_ms: 20 };
    assert_eq!(s.step(NetEvent::Body(Some(msg.clone()))), NetAction::Serve(msg));
    s.step(NetEvent::Length(9));
    assert_eq!(s.step(NetEvent::Body(None)), NetAction::Listen);
    assert_eq!(s.phase, NetPhase::Running);
}

#[test]
fn large_control_messages_end_the_room() {
    let mut s = running();
    assert_eq!(s.step(NetEvent::Length(65536)), NetAction::ReadBody(65536));
    s.step(NetEvent::Body(None));
    assert_eq!(s.step(NetEvent::Length(65537)), reconnect());
    assert!(!s.connected);
}

#[test]
fn a_lost_room_is_heard() {
    let mut s = running();
    assert_eq!(s.step(NetEvent::Failed), reconnect());
    let mut s = running();
    s.step(NetEvent::Length(1));
    assert_eq!(s.step(NetEvent::Failed), reconnect());
    assert_eq!(s.step(NetEvent::Rested), NetAction::Resolve("relay.example:39201".to_string()));
}

#[test]
fn leaving() {
    let mut s = running();
    assert_eq!(s.step(NetEvent::Disconnect), NetAction::Leave(ClientMessage::LeaveRoom));
    assert_eq!(s.phase, NetPhase::Done);
    assert!(!s.connected);
}

#[test]
fn a_new_connection_starts_with_no_peers() {
    let mut client: ClientState<i32> = ClientState::new(Channels::Stereo, 960, 0);
    let mut encode = proxa::encode::EncodeState::new(Channels::Stereo, 960, false, false, None, 0).0;
    let mut voices: HashMap<u32, char> = HashMap::new();
    client.handle_server_message(
        ServerMessage::PeerJoined { peer_id: 3, channels: 2 },
        &mut encode,
        true,
    );
    voices.insert(3, 'x');
    let mut s = session();
    s.attend(&mut client, &mut voices, NetEvent::Rested);
    s.attend(&mut client, &mut voices, NetEvent::Resolved(vec![false]));
    assert_eq!(client.peer_ids(), vec![3]);
    assert_eq!(voices.len(), 1);
    assert_eq!(s.attend(&mut client, &mut voices, NetEvent::Connected), NetAction::Open);
    assert!(client.peers.is_empty());
    assert!(voices.is_empty());
    voices.insert(4, 'y');
    assert_eq!(
        s.attend(&mut client, &mut voices, NetEvent::Opened),
        NetAction::Send(ClientMessage::JoinRoom { room_name: "lobby".to_string(), channels: 2 })
    );
    assert_eq!(voices.len(), 1);
}
