use proxa::client::{ClientState, ServerEffect, SfxState};
use proxa::encode::{EncodeState, EncoderCommand};
use proxa::mix::SampleMath;
use proxa::output::{Heard, OutputMath, Voice};
use proxa::peer::PeerState;
use proxa::protocol::{ClientMessage, ServerMessage};
use proxa::refill::FrameDecoder;
use proxa::resample::PlayMath;
use proxa::types::Channels;
use std::collections::HashMap;

/// Whole numbers, with positions in frames. The numbers that steer tell what they were made from.
struct Numbers {
    stretch: usize,
}

impl SampleMath<i32> for Numbers {
    fn scaled(&self, sample: i32, num: usize, den: usize) -> i32 {
        sample * num as i32 / den as i32
    }

    fn faded(&self, from: i32, to: i32, num: usize, den: usize) -> i32 {
        from + (to - from) * num as i32 / den as i32
    }

    fn mean(&self, left: i32, right: i32) -> i32 {
        (left + right) / 2
    }

    fn plus(&self, left: i32, right: i32) -> i32 {
        left + right
    }

    fn divided(&self, sample: i32, count: usize) -> i32 {
        sample / count as i32
    }
}

impl PlayMath<i32, u32> for Numbers {
    fn whole(&self, at: u32) -> usize {
        at as usize
    }

    fn advanced(&self, at: u32, rate: u32) -> u32 {
        at + rate
    }

    fn rewound(&self, at: u32, frames: usize) -> u32 {
        at - frames as u32
    }

    fn interpolated(&self, _before: i32, here: i32, _next: i32, _last: i32, _at: u32) -> i32 {
        here
    }
}

impl OutputMath<i32, u32> for Numbers {
    fn loudness(&self, frame: &Vec<i32>) -> u32 {
        frame.iter().copied().max().unwrap_or(0) as u32
    }

    fn stillness(&self) -> u32 {
        0
    }

    fn smoothed(&self, latency: u32, waiting: usize, frame: usize, queued: u32) -> u32 {
        latency + 10000 * waiting as u32 + 100 * frame as u32 + queued
    }

    fn steered(&self, rate: u32, _latency: u32, target: usize, settled: bool) -> u32 {
        if settled {
            rate + target as u32
        } else {
            rate
        }
    }

    fn loss_rate(&self, lost: u32, expected: u32) -> u32 {
        100 * lost / expected
    }

    fn has_moved(&self, reported: u32, rate: u32) -> bool {
        rate.abs_diff(reported) > 2
    }

    fn stretched(&self, len: usize) -> usize {
        len.saturating_add(self.stretch)
    }

    fn no_loss(&self) -> u32 {
        1
    }

    fn origin(&self) -> u32 {
        2
    }

    fn plain_rate(&self) -> u32 {
        3
    }

    fn first_latency(&self) -> u32 {
        4
    }

    fn latency_at(&self, target: usize) -> u32 {
        100 + target as u32
    }
}

/// A decoder of frames of four samples, filled with the first byte of the payload.
#[derive(Debug)]
struct Fours {
    asked: usize,
}

impl FrameDecoder<i32> for Fours {
    fn decode(self, payload: &Vec<u8>, _capacity: usize, _fec: bool) -> (Self, Option<(usize, Vec<i32>)>) {
        let value = payload.first().copied().unwrap_or(0) as i32;
        (Fours { asked: self.asked + 1 }, Some((4, vec![value; 4])))
    }

    fn reset(self) -> Self {
        Fours { asked: 0 }
    }
}

fn voice() -> Voice<Fours, u32> {
    Voice { decoder: Fours { asked: 0 }, volume: 77, at: 0, rate: 1, latency: 5, reported: 0 }
}

/// A peer whose four packets hold the given value.
fn speaker(value: u8) -> PeerState<i32> {
    let mut peer = PeerState::new(Channels::Mono, 0);
    peer.set_silenced(false);
    for k in 10..14 {
        peer.receive_packet(k, vec![value]);
    }
    // no fade at the beginning
    peer.played_frames_since_silence = 5;
    peer
}

fn room(peers: Vec<(u32, PeerState<i32>)>) -> (ClientState<i32>, HashMap<u32, Voice<Fours, u32>>) {
    let mut client = ClientState::new(Channels::Mono, 4, 0);
    let mut voices = HashMap::new();
    for (id, peer) in peers {
        client.peers.insert(id, peer);
        voices.insert(id, voice());
    }
    (client, voices)
}

const MATH: Numbers = Numbers { stretch: 0 };

#[test]
fn peers_are_heard_over_one_another() {
    let (mut client, mut voices) = room(vec![(1, speaker(20)), (2, speaker(3))]);
    let (output, reports) = client.pop_audio(&mut voices, &MATH, 8).unwrap();
    assert_eq!(output, vec![23; 8]);
    assert!(reports.is_empty());
    for (id, volume) in [(1, 20), (2, 3)] {
        // sixteen samples are needed, which is two frames of eight
        assert_eq!(voices[&id].decoder.asked, 2);
        assert_eq!(voices[&id].volume, volume);
        assert_eq!(voices[&id].at, 0);
        assert_eq!(voices[&id].rate, 1);
        assert_eq!(voices[&id].latency, 5 + 160000 + 400 + 2);
        assert_eq!(client.peers[&id].buffer.len(), 8);
        assert_eq!(client.peers[&id].next_decode_seq, 12);
    }
}

#[test]
fn the_rate_is_steered_before_a_peer_is_played() {
    let (mut client, mut voices) = room(vec![(1, speaker(20))]);
    let peer = client.peers.get_mut(&1).unwrap();
    peer.played_frames_since_silence = 100;
    peer.target_jitter_frames = 1;
    let (output, _) = client.pop_audio(&mut voices, &MATH, 4).unwrap();
    assert_eq!(output, vec![20; 4]);
    assert_eq!(voices[&1].rate, 2);
    // two frames of output at double speed
    assert_eq!(client.peers[&1].buffer.len(), 16 - 8);
}

#[test]
fn silent_peers_are_passed_over() {
    let silent = PeerState::new(Channels::Mono, 0);
    let (mut client, mut voices) = room(vec![(1, silent), (2, speaker(3))]);
    let (output, _) = client.pop_audio(&mut voices, &MATH, 8).unwrap();
    assert_eq!(output, vec![3; 8]);
    assert_eq!(voices[&1].latency, 5);
    assert_eq!(voices[&1].decoder.asked, 0);
    assert_eq!(voices[&1].volume, 77);
    // its refill counts all the same
    assert_eq!(client.peers[&1].silence_frames, 1);
}

#[test]
fn peers_without_a_voice_are_passed_over() {
    let (mut client, mut voices) = room(vec![(1, speaker(20)), (2, speaker(3))]);
    voices.remove(&1);
    let (output, _) = client.pop_audio(&mut voices, &MATH, 8).unwrap();
    assert_eq!(output, vec![3; 8]);
    assert_eq!(client.peers[&1].next_decode_seq, 10);
    assert_eq!(voices.len(), 1);
}

#[test]
fn loss_is_reported_when_it_has_moved() {
    let mut lossy = speaker(20);
    lossy.stat_expected = 60;
    lossy.total_expected = 60;
    lossy.stat_lost = 6;
    lossy.total_lost = 6;
    let (mut client, mut voices) = room(vec![(1, lossy)]);
    let (_, reports) = client.pop_audio(&mut voices, &MATH, 8).unwrap();
    assert_eq!(reports, vec![ClientMessage::ReportPeerLoss { peer_id: 1, lost: 6, expected: 62 }]);
    assert_eq!(voices[&1].reported, 9);
    assert_eq!(client.peers[&1].stat_expected, 0);
    assert_eq!(client.peers[&1].stat_lost, 0);
    assert_eq!(client.peers[&1].total_lost, 6);
    let peer = client.peers.get_mut(&1).unwrap();
    peer.stat_expected = 50;
    peer.stat_lost = 5;
    let (_, reports) = client.pop_audio(&mut voices, &MATH, 2).unwrap();
    assert!(reports.is_empty());
    assert_eq!(voices[&1].reported, 9);
    assert_eq!(client.peers[&1].stat_expected, 0);
}

#[test]
fn a_sound_comes_on_top() {
    let (mut client, mut voices) = room(vec![(1, speaker(20))]);
    client.play_sfx(Some(vec![100, 200, 300]));
    let (output, _) = client.pop_audio(&mut voices, &MATH, 2).unwrap();
    assert_eq!(output, vec![120, 220]);
    assert_eq!(client.sfx.as_ref().unwrap().position, 2);
    let (output, _) = client.pop_audio(&mut voices, &MATH, 4).unwrap();
    assert_eq!(output, vec![320, 20, 20, 20]);
    assert!(client.sfx.is_none());
}

#[test]
fn a_muted_output_is_silent() {
    let (mut client, mut voices) = room(vec![(1, speaker(20))]);
    client.mute_output = true;
    client.play_sfx(Some(vec![100; 20]));
    let (output, _) = client.pop_audio(&mut voices, &MATH, 8).unwrap();
    assert_eq!(output, vec![0; 8]);
    // everything goes on all the same
    assert_eq!(client.sfx.as_ref().unwrap().position, 8);
    assert_eq!(client.peers[&1].buffer.len(), 8);
    assert_eq!(voices[&1].volume, 20);
}

#[test]
fn an_empty_room_is_silent() {
    let (mut client, mut voices) = room(vec![]);
    let (output, reports) = client.pop_audio(&mut voices, &MATH, 6).unwrap();
    assert_eq!(output, vec![0; 6]);
    assert!(reports.is_empty());
}

#[test]
fn outputs_are_finished() {
    let (mut client, _) = room(vec![]);
    client.sfx = Some(SfxState { pcm: vec![1, 2, 3], position: 1 });
    let mut output = vec![10, 10, 10];
    client.finish_output(&MATH, &mut output);
    assert_eq!(output, vec![12, 13, 10]);
    assert!(client.sfx.is_none());
    client.mute_output = true;
    client.finish_output(&MATH, &mut output);
    assert_eq!(output, vec![0; 3]);
}

#[test]
fn numbers_that_run_out_are_told() {
    let mut worn = speaker(20);
    worn.total_expected = u32::MAX;
    let (mut client, mut voices) = room(vec![(1, worn)]);
    assert!(client.pop_audio(&mut voices, &MATH, 8).is_none());
    let (mut client, mut voices) = room(vec![(1, speaker(20))]);
    let long = Numbers { stretch: usize::MAX };
    assert!(client.pop_audio(&mut voices, &long, 8).is_none());
    assert_eq!(voices[&1].decoder.asked, 0);
}

#[test]
fn one_peer_is_brought_to_an_output() {
    let mut peer = speaker(20);
    let mut output = vec![1; 4];
    let (after, heard) = peer.pop(&MATH, 7, 16, voice(), &mut output);
    assert!(matches!(heard, Heard::Played(None)));
    assert_eq!(output, vec![21; 4]);
    assert_eq!(after.decoder.asked, 2);
    let mut silent = PeerState::new(Channels::Mono, 0);
    let (after, heard) = silent.pop(&MATH, 7, 16, after, &mut output);
    assert!(matches!(heard, Heard::Idle));
    assert_eq!(output, vec![21; 4]);
    assert_eq!(after.decoder.asked, 2);
}

fn told(
    client: &mut ClientState<i32>,
    voices: &mut HashMap<u32, Voice<Fours, u32>>,
    msg: ServerMessage,
    decoder: Option<Fours>,
) -> ServerEffect {
    let mut encode = EncodeState::new(Channels::Mono, 4, false, false, None, 0).0;
    encode.is_throttled = false;
    client.serve(voices, &MATH, msg, &mut encode, decoder)
}

#[test]
fn voices_come_and_go_with_their_peers() {
    let (mut client, mut voices) = room(vec![]);
    let joined = ServerMessage::PeerJoined { peer_id: 9, channels: 1 };
    let effect = told(&mut client, &mut voices, joined.clone(), None);
    assert_eq!(effect, ServerEffect::Nothing);
    assert!(voices.is_empty());
    let effect = told(&mut client, &mut voices, joined, Some(Fours { asked: 6 }));
    assert_eq!(effect, ServerEffect::Joined { peer_id: 9 });
    let fresh = &voices[&9];
    assert_eq!(
        (fresh.decoder.asked, fresh.volume, fresh.at, fresh.rate, fresh.latency, fresh.reported),
        (6, 0, 2, 3, 4, 1)
    );
    let left = ServerMessage::PeerLeft { peer_id: 9 };
    assert_eq!(told(&mut client, &mut voices, left, None), ServerEffect::Left { peer_id: 9 });
    assert!(voices.is_empty());
    assert!(client.peers.is_empty());
}

#[test]
fn a_voice_starts_over_when_its_peer_speaks_up() {
    let (mut client, mut voices) = room(vec![(9, PeerState::new(Channels::Mono, 0))]);
    voices.get_mut(&9).unwrap().decoder.asked = 8;
    let speaks = ServerMessage::PeerSilence { peer_id: 9, silenced: false };
    let effect = told(&mut client, &mut voices, speaks.clone(), None);
    assert_eq!(effect, ServerEffect::Woken { peer_id: 9 });
    let woken = &voices[&9];
    assert_eq!(client.peers[&9].target_jitter_frames, 3);
    assert_eq!(
        (woken.decoder.asked, woken.volume, woken.at, woken.rate, woken.latency, woken.reported),
        (0, 77, 2, 3, 103, 0)
    );
    assert_eq!(told(&mut client, &mut voices, speaks, None), ServerEffect::Nothing);
}

#[test]
fn a_voice_gets_another_decoder_with_another_layout() {
    let (mut client, mut voices) = room(vec![(9, speaker(20))]);
    let msg = ServerMessage::PeerChannels { peer_id: 9, channels: 2 };
    let effect = told(&mut client, &mut voices, msg.clone(), None);
    assert_eq!(effect, ServerEffect::Nothing);
    let effect = told(&mut client, &mut voices, msg, Some(Fours { asked: 6 }));
    assert_eq!(effect, ServerEffect::Relaid { peer_id: 9 });
    assert_eq!(client.peers[&9].channels, Channels::Stereo);
    let relaid = &voices[&9];
    assert_eq!((relaid.decoder.asked, relaid.volume, relaid.at, relaid.rate), (6, 77, 0, 1));
}

#[test]
fn voices_do_not_mind_other_messages() {
    let (mut client, mut voices) = room(vec![(9, speaker(20))]);
    let loss = ServerMessage::TargetLossRate { percent: 30 };
    let effect = told(&mut client, &mut voices, loss, None);
    assert_eq!(effect, ServerEffect::Tell(EncoderCommand::SetPacketLossPerc(30)));
    told(&mut client, &mut voices, ServerMessage::PeerPing { peer_id: 9, ping_ms: 40 }, None);
    assert_eq!(client.peers[&9].ping, 40);
    assert_eq!(voices[&9].latency, 5);
}
