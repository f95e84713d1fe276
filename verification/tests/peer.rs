use proxa::peer::{PeerState, RefillAction, RefillEvent};
use proxa::peer_model::{Layout, MixPlan, RefillStage};
use proxa::types::Channels;

fn mono() -> PeerState<i32> {
    let mut peer = PeerState::new(Channels::Mono, 0);
    peer.set_silenced(false);
    peer
}

/// A peer that has collected the packets from `first` on.
fn collected(first: u32, count: u32) -> PeerState<i32> {
    let mut peer = mono();
    for k in first..first + count {
        peer.receive_packet(k, vec![k as u8]);
    }
    peer
}

/// Runs a refill with a decoder that always gives `size` samples, and returns what was decoded.
fn refill(peer: &mut PeerState<i32>, pcm_len: usize, size: usize) -> (Vec<Vec<u8>>, RefillAction) {
    let mut decoded = Vec::new();
    let mut event = RefillEvent::Begin;
    loop {
        assert!(peer.has_room(&event, pcm_len));
        match peer.refill_buffer(event, pcm_len, 2) {
            RefillAction::Decode { payload, .. } => {
                decoded.push(payload);
                event = RefillEvent::Decoded(Some(size));
            }
            RefillAction::Crossfade { first, second, .. } => {
                decoded.push(first);
                decoded.push(second);
                event = RefillEvent::Crossfaded(Some((size, size)));
            }
            RefillAction::Mix(plan) => event = RefillEvent::Mixed(vec![1; plan.frame]),
            stop => return (decoded, stop),
        }
    }
}

#[test]
fn a_new_peer_waits() {
    let mut peer = PeerState::new(Channels::Stereo, 0);
    assert!(peer.is_silenced && peer.awaiting_first_packet && peer.is_buffering);
    assert_eq!(peer.last_frame_size, 480);
    assert_eq!(peer.refill_buffer(RefillEvent::Begin, 100, 2), RefillAction::Stop);
    assert!(peer.buffer.is_empty());
    assert!(peer.is_idle());
}

#[test]
fn the_first_packet_sets_the_start() {
    let mut peer = mono();
    peer.receive_packet(500, vec![1]);
    assert_eq!(peer.next_decode_seq, 500);
    peer.receive_packet(498, vec![2]);
    assert_eq!(peer.next_decode_seq, 498);
    peer.receive_packet(505, vec![3]);
    assert_eq!(peer.next_decode_seq, 498);
    assert_eq!(peer.queued_frames(), 8);
}

#[test]
fn collecting_fills_with_silence() {
    let mut peer = collected(10, 2);
    assert_eq!(peer.refill_buffer(RefillEvent::Begin, 30, 2), RefillAction::StopSilent);
    assert_eq!(peer.buffer, vec![0; 30]);
    assert!(peer.is_buffering);
    assert_eq!(peer.total_expected, 0);
}

#[test]
fn frames_are_played_in_order() {
    let mut peer = collected(10, 4);
    let (decoded, stop) = refill(&mut peer, 40, 10);
    assert_eq!(decoded, vec![vec![10], vec![11]]);
    assert_eq!(stop, RefillAction::Stop);
    assert_eq!(peer.buffer.len(), 40);
    assert_eq!(peer.next_decode_seq, 12);
    assert_eq!((peer.stat_expected, peer.stat_lost), (2, 0));
    assert_eq!(peer.played_frames_since_silence, 2);
    assert_eq!(peer.last_frame_size, 10);
    assert_eq!(peer.stage, RefillStage::Idle);
}

#[test]
fn the_first_frame_fades_in() {
    let mut peer = collected(10, 3);
    match peer.refill_buffer(RefillEvent::Begin, 960, 2) {
        RefillAction::Decode { payload, capacity, fec } => {
            assert_eq!((payload, capacity, fec), (vec![10], 5760, false));
        }
        other => panic!("{:?}", other),
    }
    let plan = MixPlan {
        decoded: 480,
        fade_in: 128,
        layout: Layout::Duplicate,
        frame: 960,
        overlap: 0,
    };
    assert_eq!(
        peer.refill_buffer(RefillEvent::Decoded(Some(480)), 960, 2),
        RefillAction::Mix(plan)
    );
    assert_eq!(
        peer.refill_buffer(RefillEvent::Mixed(vec![5; 960]), 960, 2),
        RefillAction::Stop
    );
    assert_eq!(peer.buffer, vec![5; 960]);
}

#[test]
fn layouts_by_channels() {
    let mut stereo: PeerState<i32> = PeerState::new(Channels::Stereo, 0);
    stereo.set_silenced(false);
    for k in 0..3 {
        stereo.receive_packet(k, vec![]);
    }
    stereo.refill_buffer(RefillEvent::Begin, 2000, 1);
    match stereo.refill_buffer(RefillEvent::Decoded(Some(480)), 2000, 1) {
        RefillAction::Mix(plan) => {
            assert_eq!(plan.layout, Layout::Average);
            assert_eq!((plan.decoded, plan.frame), (960, 480));
        }
        other => panic!("{:?}", other),
    }
    let mut kept: PeerState<i32> = PeerState::new(Channels::Stereo, 0);
    kept.set_silenced(false);
    for k in 0..3 {
        kept.receive_packet(k, vec![]);
    }
    kept.refill_buffer(RefillEvent::Begin, 2000, 2);
    match kept.refill_buffer(RefillEvent::Decoded(Some(480)), 2000, 2) {
        RefillAction::Mix(plan) => {
            assert_eq!(plan.layout, Layout::Keep);
            assert_eq!((plan.decoded, plan.frame), (960, 960));
        }
        other => panic!("{:?}", other),
    }
}

#[test]
fn a_missing_frame_is_rebuilt_from_the_next() {
    let mut peer = collected(10, 1);
    peer.receive_packet(12, vec![12]);
    let (decoded, _) = refill(&mut peer, 20, 10);
    assert_eq!(decoded, vec![vec![10]]);
    match peer.refill_buffer(RefillEvent::Begin, 40, 2) {
        RefillAction::Decode { payload, capacity, fec } => {
            assert_eq!((payload, capacity, fec), (vec![12], 5760, true));
        }
        other => panic!("{:?}", other),
    }
    assert!(matches!(
        peer.refill_buffer(RefillEvent::Decoded(Some(10)), 40, 2),
        RefillAction::Mix(_)
    ));
    assert_eq!((peer.stat_lost, peer.total_lost), (1, 1));
    assert!(peer.lost_sequences.contains(&11));
    assert_eq!(peer.next_decode_seq, 12);
    assert!(peer.jitter_buffer.contains_key(&12));
}

#[test]
fn a_missing_frame_is_made_up_when_nothing_helps() {
    let mut peer = collected(10, 1);
    peer.receive_packet(12, vec![12]);
    refill(&mut peer, 20, 10);
    peer.refill_buffer(RefillEvent::Begin, 40, 2);
    match peer.refill_buffer(RefillEvent::Decoded(None), 40, 2) {
        RefillAction::Decode { payload, capacity, fec } => {
            assert_eq!((payload, capacity, fec), (vec![], 10, false));
        }
        other => panic!("{:?}", other),
    }
    assert_eq!(
        peer.refill_buffer(RefillEvent::Decoded(None), 40, 2),
        RefillAction::StopSilent
    );
    assert_eq!(peer.buffer.len(), 40);
    assert_eq!(&peer.buffer[20..], &[0; 20]);
    assert!(peer.was_plc);
    assert_eq!(peer.total_lost, 1);
}

#[test]
fn a_late_packet_is_forgiven() {
    let mut peer = collected(10, 1);
    peer.receive_packet(12, vec![12]);
    refill(&mut peer, 40, 10);
    assert_eq!((peer.stat_lost, peer.total_lost), (1, 1));
    peer.receive_packet(11, vec![11]);
    assert_eq!((peer.stat_lost, peer.total_lost), (0, 0));
    assert!(!peer.lost_sequences.contains(&11));
    assert!(peer.jitter_buffer.contains_key(&11));
}

#[test]
fn packets_far_behind_are_ignored() {
    let mut peer = collected(5000, 4);
    refill(&mut peer, 20, 10);
    peer.receive_packet(4000, vec![1]);
    assert!(!peer.jitter_buffer.contains_key(&4000));
    peer.receive_packet(4001, vec![1]);
    assert!(peer.jitter_buffer.contains_key(&4001));
}

#[test]
fn late_packets_deepen_the_buffer() {
    let mut peer = collected(10, 4);
    refill(&mut peer, 20, 10);
    let target = peer.target_jitter_frames;
    peer.receive_packet(9, vec![1]);
    assert_eq!(peer.target_jitter_frames, target);
    peer.played_frames_since_silence = 51;
    peer.receive_packet(8, vec![1]);
    assert_eq!(peer.target_jitter_frames, target + 1);
    peer.target_jitter_frames = 100;
    peer.receive_packet(7, vec![1]);
    assert_eq!(peer.target_jitter_frames, 100);
}

#[test]
fn no_more_than_a_thousand_packets_wait() {
    let mut peer = collected(0, 1001);
    assert_eq!(peer.jitter_buffer.len(), 1000);
    assert!(!peer.jitter_buffer.contains_key(&0));
    assert!(peer.jitter_buffer.contains_key(&1000));
    assert_eq!(peer.total_bytes_received, 1001);
    peer.receive_packet(2000, vec![1]);
    assert_eq!(peer.jitter_buffer.len(), 1000);
    assert!(!peer.jitter_buffer.contains_key(&1));
}

#[test]
fn playback_catches_up() {
    let mut peer = collected(10, 20);
    peer.played_frames_since_silence = 200;
    peer.last_frame_size = 10;
    match peer.refill_buffer(RefillEvent::Begin, 20, 2) {
        RefillAction::Crossfade { first, second, capacity } => {
            assert_eq!((first, second, capacity), (vec![10], vec![11], 10));
        }
        other => panic!("{:?}", other),
    }
    match peer.refill_buffer(RefillEvent::Crossfaded(Some((10, 8))), 20, 2) {
        RefillAction::Mix(plan) => assert_eq!((plan.decoded, plan.frame), (10, 20)),
        other => panic!("{:?}", other),
    }
    assert_eq!(peer.next_decode_seq, 12);
    assert_eq!((peer.stat_expected, peer.total_expected), (2, 2));
    assert_eq!(peer.good_frames, 2);
    assert_eq!(peer.played_frames_since_silence, 200);
    assert!(peer.was_plc);
}

#[test]
fn a_failed_catch_up_skips_a_frame() {
    let mut peer = collected(10, 20);
    peer.played_frames_since_silence = 200;
    peer.last_frame_size = 10;
    peer.refill_buffer(RefillEvent::Begin, 20, 2);
    match peer.refill_buffer(RefillEvent::Crossfaded(None), 20, 2) {
        RefillAction::Crossfade { first, second, .. } => {
            assert_eq!((first, second), (vec![13], vec![14]));
        }
        other => panic!("{:?}", other),
    }
}

#[test]
fn playback_far_behind_jumps() {
    let mut peer = collected(10, 3);
    refill(&mut peer, 20, 10);
    for k in 50..53 {
        peer.receive_packet(k, vec![k as u8]);
    }
    peer.jitter_buffer.clear();
    peer.receive_packet(50, vec![50]);
    let (decoded, _) = refill(&mut peer, 40, 10);
    assert_eq!(decoded, vec![vec![50]]);
    assert_eq!(peer.next_decode_seq, 51);
}

#[test]
fn concealed_audio_is_blended() {
    let mut peer = collected(10, 4);
    refill(&mut peer, 20, 10);
    peer.was_plc = true;
    peer.buffer = vec![3; 19];
    peer.refill_buffer(RefillEvent::Begin, 100, 2);
    match peer.refill_buffer(RefillEvent::Decoded(Some(10)), 100, 2) {
        RefillAction::Mix(plan) => {
            assert_eq!((plan.frame, plan.overlap), (20, 18));
        }
        other => panic!("{:?}", other),
    }
    assert!(!peer.was_plc);
    assert_eq!(peer.buffer.len(), 18);
    peer.refill_buffer(RefillEvent::Mixed(vec![4; 20]), 20, 2);
    assert_eq!(peer.buffer, vec![4; 20]);
}

#[test]
fn silence_fades_out() {
    let mut peer = collected(10, 3);
    refill(&mut peer, 60, 10);
    peer.is_silenced = true;
    assert_eq!(
        peer.refill_buffer(RefillEvent::Begin, 400, 2),
        RefillAction::FadeOut { start: 0, len: 60 }
    );
    assert!(peer.was_plc);
    peer.buffer = vec![1; 301];
    assert_eq!(
        peer.refill_buffer(RefillEvent::Begin, 400, 2),
        RefillAction::FadeOut { start: 141, len: 160 }
    );
}

#[test]
fn long_silence_shrinks_the_target() {
    let mut peer: PeerState<i32> = PeerState::new(Channels::Mono, 0);
    peer.target_jitter_frames = 2;
    for _ in 0..99 {
        peer.refill_buffer(RefillEvent::Begin, 10, 2);
    }
    assert_eq!((peer.silence_frames, peer.target_jitter_frames), (99, 2));
    peer.refill_buffer(RefillEvent::Begin, 10, 2);
    assert_eq!((peer.silence_frames, peer.target_jitter_frames), (0, 1));
    for _ in 0..200 {
        peer.refill_buffer(RefillEvent::Begin, 10, 2);
    }
    assert_eq!(peer.target_jitter_frames, 0);
}

#[test]
fn good_audio_shrinks_the_target() {
    let mut peer = collected(0, 60);
    peer.target_jitter_frames = 5;
    refill(&mut peer, 960 * 49, 480);
    assert_eq!((peer.good_frames, peer.target_jitter_frames), (49, 5));
    refill(&mut peer, 960 * 50, 480);
    assert_eq!((peer.good_frames, peer.target_jitter_frames), (0, 4));
}

#[test]
fn a_dropout_collects_again() {
    let mut peer = collected(0, 3);
    refill(&mut peer, 60, 10);
    for k in 1..=16u32 {
        assert!(!peer.is_buffering);
        refill(&mut peer, 60 + 20 * k as usize, 10);
        assert_eq!(peer.missing_frames_streak, k);
    }
    assert!(peer.is_buffering);
    assert_eq!(peer.total_lost, 16);
}

#[test]
fn waking_and_sleeping() {
    let mut peer = collected(10, 4);
    refill(&mut peer, 20, 10);
    peer.set_silenced(false);
    assert_eq!(peer.buffer.len(), 20);
    peer.set_silenced(true);
    assert_eq!(peer.buffer.len(), 20);
    assert!(peer.jitter_buffer.is_empty());
    assert!(peer.awaiting_first_packet && peer.is_buffering && peer.is_silenced);
    peer.set_silenced(false);
    assert!(peer.buffer.is_empty());
    assert_eq!(peer.next_decode_seq, 0);
    assert_eq!(peer.target_jitter_frames, 3);
    assert_eq!((peer.stat_expected, peer.stat_lost), (0, 0));
    assert_eq!(peer.total_expected, 1);
    assert_eq!(peer.played_frames_since_silence, 0);
}

#[test]
fn restarting_drops_all_audio() {
    let mut peer = collected(10, 4);
    refill(&mut peer, 20, 10);
    peer.restart();
    assert!(peer.buffer.is_empty() && peer.jitter_buffer.is_empty());
    assert!(peer.awaiting_first_packet && peer.is_buffering);
    assert_eq!(peer.next_decode_seq, 11);
}

#[test]
fn settling() {
    let mut peer = mono();
    peer.played_frames_since_silence = 99;
    assert!(!peer.has_settled());
    peer.played_frames_since_silence = 100;
    assert!(peer.has_settled());
}

#[test]
fn loss_windows() {
    let mut peer = mono();
    peer.stat_expected = 49;
    peer.stat_lost = 3;
    assert_eq!(peer.take_loss_window(), None);
    peer.stat_expected = 50;
    assert_eq!(peer.take_loss_window(), Some((3, 50)));
    assert_eq!((peer.stat_expected, peer.stat_lost), (0, 0));
}

#[test]
fn interpolation_taps() {
    let mut peer = mono();
    peer.buffer = vec![0; 12];
    assert_eq!(peer.taps(0), Some((0, 0, 2, 4)));
    assert_eq!(peer.taps(1), Some((0, 2, 4, 6)));
    assert_eq!(peer.taps(2), Some((2, 4, 6, 8)));
    assert_eq!(peer.taps(3), None);
    assert_eq!(peer.taps(usize::MAX), None);
    peer.buffer = vec![];
    assert_eq!(peer.taps(0), None);
}

#[test]
fn passed_frames_are_dropped() {
    let mut peer = mono();
    peer.buffer = (0..10).collect();
    peer.drop_frames(0);
    assert_eq!(peer.buffer.len(), 10);
    peer.drop_frames(3);
    assert_eq!(peer.buffer, vec![6, 7, 8, 9]);
    peer.drop_frames(3);
    assert!(peer.buffer.is_empty());
    peer.drop_frames(usize::MAX);
    assert!(peer.buffer.is_empty());
}

#[test]
fn left_and_right_stay_apart() {
    let mut peer = collected(0, 40);
    for k in [3, 7, 11] {
        peer.jitter_buffer.remove(&k);
    }
    let mut wanted = 0;
    for size in [5, 7, 1, 10, 3, 9, 480] {
        wanted += 30;
        refill(&mut peer, wanted, size);
        assert_eq!(peer.buffer.len() % 2, 0);
        assert!(peer.buffer.len() >= wanted);
    }
}

#[test]
fn a_refill_keeps_no_packet_that_playback_has_passed() {
    let mut peer = collected(0, 10);
    refill(&mut peer, 100, 10);
    let next = peer.next_decode_seq;
    assert_eq!(next, 5);
    assert!(peer.jitter_buffer.keys().all(|k| *k >= next));
}
