use proxa::client::{needed_samples, report_loss, ClientState, ServerEffect, Sound};
use proxa::encode::{EncodeState, EncoderCommand};
use proxa::error::ProxaError;
use proxa::protocol::{ClientMessage, ServerAudioPacket, ServerMessage};
use proxa::types::Channels;

fn encode() -> EncodeState<f32> {
    EncodeState::new(Channels::Mono, 480, false, false, None, 0.0).0
}

fn room(ids: &[u32]) -> ClientState<f32> {
    let mut state = ClientState::new(Channels::Mono, 480, 0.0);
    let mut encode = encode();
    for id in ids {
        let effect = state.handle_server_message(
            ServerMessage::PeerJoined { peer_id: *id, channels: 1 },
            &mut encode,
            true,
        );
        assert_eq!(effect, ServerEffect::Joined { peer_id: *id });
    }
    state
}

fn packet(peer_id: u32, sequence: u32, len: usize) -> ServerAudioPacket {
    ServerAudioPacket { peer_id, sequence, payload: vec![sequence as u8; len] }
}

#[test]
fn a_new_client_is_alone() {
    let state = ClientState::new(Channels::Stereo, 960, 0.0f32);
    assert!(state.peers.is_empty());
    assert_eq!(state.channels, Channels::Stereo);
    assert_eq!(state.samples_per_frame, 960);
    assert!(!state.mute_output);
    assert!(state.sfx.is_none());
}

#[test]
fn packets_reach_their_peer_only() {
    let mut state = room(&[1, 2]);
    state.handle_audio_packet(packet(1, 50, 10));
    assert_eq!(state.peers[&1].total_bytes_received, 10);
    assert_eq!(state.peers[&1].next_decode_seq, 50);
    assert!(!state.peers[&1].awaiting_first_packet);
    assert_eq!(state.peers[&1].jitter_buffer[&50], vec![50; 10]);
    assert_eq!(state.peers[&2].total_bytes_received, 0);
    assert!(state.peers[&2].awaiting_first_packet);
}

#[test]
fn strange_packets_change_nothing() {
    let mut state = room(&[1]);
    state.handle_audio_packet(packet(9, 50, 10));
    assert!(!state.peers.contains_key(&9));
    state.handle_audio_packet(packet(1, 50, 1201));
    assert_eq!(state.peers[&1].total_bytes_received, 0);
    assert!(state.peers[&1].awaiting_first_packet);
    state.handle_audio_packet(packet(1, 50, 1200));
    assert_eq!(state.peers[&1].total_bytes_received, 1200);
}

#[test]
fn datagrams_are_read() {
    let mut state = room(&[1]);
    let data = packet(1, 60, 3).serialize();
    assert!(state.has_room(&data));
    state.handle_datagram(&data);
    assert_eq!(state.peers[&1].jitter_buffer[&60], vec![60; 3]);
    state.handle_datagram(&data[..7]);
    assert_eq!(state.peers[&1].total_bytes_received, 3);
}

#[test]
fn the_highest_numbers_have_no_room() {
    let state = room(&[1]);
    let highest = u32::MAX - 1000;
    let fits = ServerAudioPacket { peer_id: 1, sequence: highest, payload: vec![] };
    let over = ServerAudioPacket { peer_id: 1, sequence: highest + 1, payload: vec![] };
    assert!(state.has_room(&fits.serialize()));
    assert!(!state.has_room(&over.serialize()));
    let stranger = ServerAudioPacket { peer_id: 2, sequence: u32::MAX, payload: vec![] };
    assert!(state.has_room(&stranger.serialize()));
    assert!(state.has_room(&[0; 3]));
}

#[test]
fn joining_needs_a_decoder() {
    let mut state = ClientState::new(Channels::Mono, 480, 0.0f32);
    let mut encode = encode();
    let msg = ServerMessage::PeerJoined { peer_id: 5, channels: 2 };
    assert_eq!(state.wanted_decoder(&msg), Some(Channels::Stereo));
    assert_eq!(
        state.handle_server_message(msg.clone(), &mut encode, false),
        ServerEffect::Nothing
    );
    assert!(state.peers.is_empty());
    let effect = state.handle_server_message(msg, &mut encode, true);
    assert_eq!(effect, ServerEffect::Joined { peer_id: 5 });
    assert_eq!(effect.sound(), Some(Sound::PeerJoin));
    assert_eq!(state.peers[&5].channels, Channels::Stereo);
    assert!(state.peers[&5].is_silenced);
    assert_eq!(state.peers[&5].target_jitter_frames, 1);
}

#[test]
fn leaving_undoes_joining() {
    let mut state = room(&[1, 2]);
    let effect = state.handle_server_message(
        ServerMessage::PeerLeft { peer_id: 2 },
        &mut encode(),
        false,
    );
    assert_eq!(effect, ServerEffect::Left { peer_id: 2 });
    assert_eq!(effect.sound(), Some(Sound::PeerLeave));
    assert_eq!(state.peer_ids(), vec![1]);
    let effect = state.handle_server_message(
        ServerMessage::PeerLeft { peer_id: 77 },
        &mut encode(),
        false,
    );
    assert_eq!(effect, ServerEffect::Left { peer_id: 77 });
    assert_eq!(state.peer_ids(), vec![1]);
}

#[test]
fn waking_starts_clean() {
    let mut state = room(&[1]);
    let mut encode = encode();
    let wake = ServerMessage::PeerSilence { peer_id: 1, silenced: false };
    let sleep = ServerMessage::PeerSilence { peer_id: 1, silenced: true };
    assert_eq!(state.wanted_decoder(&wake), None);
    state.handle_audio_packet(packet(1, 9, 4));
    assert_eq!(
        state.handle_server_message(wake.clone(), &mut encode, false),
        ServerEffect::Woken { peer_id: 1 }
    );
    let peer = &state.peers[&1];
    assert!(!peer.is_silenced);
    assert!(peer.awaiting_first_packet);
    assert!(peer.jitter_buffer.is_empty());
    assert_eq!(peer.target_jitter_frames, 3);
    assert_eq!(peer.next_decode_seq, 0);
    assert_eq!(
        state.handle_server_message(wake, &mut encode, false),
        ServerEffect::Nothing
    );
    state.handle_audio_packet(packet(1, 10, 4));
    assert_eq!(
        state.handle_server_message(sleep, &mut encode, false),
        ServerEffect::Nothing
    );
    let peer = &state.peers[&1];
    assert!(peer.is_silenced);
    assert!(peer.jitter_buffer.is_empty());
    assert_eq!(peer.target_jitter_frames, 3);
    assert_eq!(
        state.handle_server_message(
            ServerMessage::PeerSilence { peer_id: 8, silenced: false },
            &mut encode,
            false
        ),
        ServerEffect::Nothing
    );
}

#[test]
fn a_peer_changes_its_layout() {
    let mut state = room(&[1]);
    let mut encode = encode();
    state.handle_audio_packet(packet(1, 9, 4));
    let msg = ServerMessage::PeerChannels { peer_id: 1, channels: 2 };
    assert_eq!(state.wanted_decoder(&msg), Some(Channels::Stereo));
    assert_eq!(
        state.handle_server_message(msg.clone(), &mut encode, false),
        ServerEffect::Nothing
    );
    assert_eq!(state.peers[&1].channels, Channels::Mono);
    assert_eq!(
        state.handle_server_message(msg, &mut encode, true),
        ServerEffect::Relaid { peer_id: 1 }
    );
    assert_eq!(state.peers[&1].channels, Channels::Stereo);
    assert!(state.peers[&1].jitter_buffer.is_empty());
    assert!(state.peers[&1].awaiting_first_packet);
    let stranger = ServerMessage::PeerChannels { peer_id: 2, channels: 2 };
    assert_eq!(state.wanted_decoder(&stranger), None);
    assert_eq!(
        state.handle_server_message(stranger, &mut encode, true),
        ServerEffect::Nothing
    );
}

#[test]
fn pings_are_noted() {
    let mut state = room(&[1]);
    let msg = ServerMessage::PeerPing { peer_id: 1, ping_ms: 42 };
    assert_eq!(state.handle_server_message(msg, &mut encode(), false), ServerEffect::Nothing);
    assert_eq!(state.peers[&1].ping, 42);
}

#[test]
fn target_loss_reaches_the_encoder() {
    let mut state = room(&[]);
    let mut encode = encode();
    let msg = ServerMessage::TargetLossRate { percent: 15 };
    assert_eq!(
        state.handle_server_message(msg.clone(), &mut encode, false),
        ServerEffect::Nothing
    );
    assert_eq!(encode.actual_loss_perc, 15);
    encode.handle_vad(true, 0);
    assert_eq!(
        state.handle_server_message(msg, &mut encode, false),
        ServerEffect::Tell(EncoderCommand::SetPacketLossPerc(15))
    );
}

#[test]
fn other_messages_do_nothing() {
    let mut state = room(&[1]);
    let mut encode = encode();
    for msg in [
        ServerMessage::RoomJoined { peer_id: 3, channels: 1 },
        ServerMessage::Error("oops".to_string()),
    ] {
        assert_eq!(state.wanted_decoder(&msg), None);
        let effect = state.handle_server_message(msg, &mut encode, true);
        assert_eq!(effect, ServerEffect::Nothing);
        assert_eq!(effect.sound(), None);
    }
    assert_eq!(state.peer_ids(), vec![1]);
}

#[test]
fn switching_restarts_everybody() {
    let mut state = room(&[1, 2, 3]);
    for id in [1, 2, 3] {
        state.handle_audio_packet(packet(id, 7, 2));
    }
    let report = state.set_channels(Channels::Stereo, 960);
    assert_eq!(report, ClientMessage::SetChannels(2));
    assert_eq!((state.channels, state.samples_per_frame), (Channels::Stereo, 960));
    let mut ids = state.peer_ids();
    ids.sort();
    assert_eq!(ids, vec![1, 2, 3]);
    for id in ids {
        assert!(state.peers[&id].jitter_buffer.is_empty());
        assert!(state.peers[&id].awaiting_first_packet);
        assert!(state.peers[&id].is_buffering);
        assert_eq!(state.peers[&id].total_bytes_received, 2);
    }
    assert_eq!(state.set_channels(Channels::Mono, 480), ClientMessage::SetChannels(1));
}

#[test]
fn switching_both_sides() {
    let mut state = room(&[1]);
    let mut encode = encode();
    state.handle_audio_packet(packet(1, 7, 2));
    let reason = || "no encoder".to_string();
    assert_eq!(state.switch_channels(&mut encode, Channels::Mono, 1, Err(reason())), Ok(None));
    assert_eq!(
        state.switch_channels(&mut encode, Channels::Stereo, 960, Err(reason())),
        Err(ProxaError::ChannelSwitch(reason()))
    );
    assert_eq!(encode.channels, Channels::Mono);
    assert_eq!(state.peers[&1].jitter_buffer.len(), 1);
    assert_eq!(
        state.switch_channels(&mut encode, Channels::Stereo, 960, Ok(())),
        Ok(Some(ClientMessage::SetChannels(2)))
    );
    assert_eq!((encode.channels, encode.samples_per_frame), (Channels::Stereo, 960));
    assert_eq!((state.channels, state.samples_per_frame), (Channels::Stereo, 960));
    assert!(state.peers[&1].jitter_buffer.is_empty());
}

#[test]
fn sounds_play_in_order() {
    let mut state: ClientState<i32> = ClientState::new(Channels::Mono, 480, 0);
    assert!(state.take_sfx(4).is_empty());
    state.play_sfx(Some(vec![1, 2, 3, 4, 5]));
    assert_eq!(state.take_sfx(2), vec![1, 2]);
    assert!(state.sfx.is_some());
    assert_eq!(state.take_sfx(0), vec![]);
    assert_eq!(state.take_sfx(9), vec![3, 4, 5]);
    assert!(state.sfx.is_none());
    state.play_sfx(Some(vec![1, 2]));
    state.play_sfx(None);
    assert_eq!(state.take_sfx(1), vec![1]);
    state.play_sfx(Some(vec![8, 9]));
    assert_eq!(state.take_sfx(2), vec![8, 9]);
    assert!(state.sfx.is_none());
    state.play_sfx(Some(vec![]));
    assert!(state.take_sfx(1).is_empty());
    assert!(state.sfx.is_none());
}

#[test]
fn sound_files() {
    assert_eq!(Sound::PeerJoin.path(), "sounds/PeerJoin.opus");
    assert_eq!(Sound::PeerLeave.path(), "sounds/PeerLeave.opus");
    assert_eq!(Sound::Error.path(), "sounds/Error.opus");
}

#[test]
fn clearing_the_room() {
    let mut state = room(&[1, 2]);
    state.clear_peers();
    assert!(state.peer_ids().is_empty());
}

#[test]
fn needed_samples_are_even() {
    assert_eq!(needed_samples(0), 8);
    assert_eq!(needed_samples(1), 8);
    assert_eq!(needed_samples(2), 10);
    assert_eq!(needed_samples(563), 570);
}

#[test]
fn loss_reports() {
    let report = Some(ClientMessage::ReportPeerLoss { peer_id: 1, lost: 0, expected: 50 });
    assert_eq!(report_loss(1, 0, 50, false), report);
    assert_eq!(report_loss(1, 10, 50, false), None);
    assert!(report_loss(1, 10, 50, true).is_some());
    assert!(report_loss(1, 50, 50, false).is_some());
}
