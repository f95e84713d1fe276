use proxa::blocks::{
    cancel_frame, filter_frame, mono_blocks, put_blocks, BlockFilter, EchoCanceller,
};
use proxa::level::{measure, LevelMath};
use proxa::mix::{
    add_samples, average_channels, average_pairs, blend, crossfade, fade_in, fade_out, mix_frame,
    SampleMath,
};
use proxa::peer::{PeerState, RefillAction, RefillEvent};
use proxa::peer_model::{Layout, MixPlan};
use proxa::refill::{FrameDecoder, RefillResult};
use proxa::resample::PlayMath;
use proxa::types::Channels;

struct Floats;

impl SampleMath<f32> for Floats {
    fn scaled(&self, sample: f32, num: usize, den: usize) -> f32 {
        sample * (num as f32 / den as f32)
    }

    fn faded(&self, from: f32, to: f32, num: usize, den: usize) -> f32 {
        let t = num as f32 / den as f32;
        from * (1.0 - t) + to * t
    }

    fn mean(&self, left: f32, right: f32) -> f32 {
        (left + right) / 2.0
    }

    fn plus(&self, left: f32, right: f32) -> f32 {
        left + right
    }

    fn divided(&self, sample: f32, count: usize) -> f32 {
        sample / count as f32
    }
}

/// Linear interpolation, with positions in quarters of a frame.
impl PlayMath<f32, u32> for Floats {
    fn whole(&self, at: u32) -> usize {
        at as usize / 4
    }

    fn advanced(&self, at: u32, rate: u32) -> u32 {
        at + rate
    }

    fn rewound(&self, at: u32, frames: usize) -> u32 {
        at - 4 * frames as u32
    }

    fn interpolated(&self, _before: f32, here: f32, next: f32, _last: f32, at: u32) -> f32 {
        let t = (at % 4) as f32 / 4.0;
        here + (next - here) * t
    }
}

#[test]
fn rising() {
    let mut frame = vec![8.0; 6];
    fade_in(&Floats, &mut frame, 4);
    assert_eq!(frame, vec![0.0, 2.0, 4.0, 6.0, 8.0, 8.0]);
    fade_in(&Floats, &mut frame, 0);
    assert_eq!(frame[5], 8.0);
}

#[test]
fn falling() {
    let mut buffer = vec![8.0; 6];
    fade_out(&Floats, &mut buffer, 1, 4);
    assert_eq!(buffer, vec![8.0, 6.0, 4.0, 2.0, 0.0, 8.0]);
}

#[test]
fn pairs() {
    assert_eq!(average_pairs(&Floats, &[1.0, 3.0, 5.0, 9.0, 7.0]), vec![2.0, 7.0]);
}

#[test]
fn channels() {
    assert_eq!(average_channels(&Floats, &[1.0, 2.0, 3.0, 4.0, 5.0, 9.0, 1.0], 3, 0.0), vec![2.0, 6.0]);
    assert_eq!(average_channels(&Floats, &[1.0, 2.0], 1, 0.0), vec![1.0, 2.0]);
}

#[test]
fn blending() {
    let waiting = vec![9.0, 0.0, 0.0, 0.0, 0.0];
    let mut frame = vec![4.0; 6];
    blend(&Floats, &waiting, 1, &mut frame);
    assert_eq!(frame, vec![0.0, 1.0, 2.0, 3.0, 4.0, 4.0]);
}

#[test]
fn fading_across() {
    let faded = crossfade(&Floats, vec![4.0; 6], &vec![0.0; 4]);
    assert_eq!(faded, vec![4.0, 3.0, 2.0, 1.0, 4.0, 4.0]);
    let faded = crossfade(&Floats, vec![4.0; 2], &vec![0.0; 4]);
    assert_eq!(faded, vec![4.0, 2.0]);
}

#[test]
fn adding() {
    let mut output = vec![1.0, 2.0, 3.0];
    add_samples(&Floats, &mut output, &vec![10.0, 20.0]);
    assert_eq!(output, vec![11.0, 22.0, 3.0]);
}

#[test]
fn plans_are_carried_out() {
    let plan = MixPlan { decoded: 3, fade_in: 2, layout: Layout::Duplicate, frame: 6, overlap: 2 };
    let mixed = mix_frame(&Floats, plan, vec![4.0, 4.0, 4.0], &vec![7.0, 8.0, 8.0]);
    assert_eq!(mixed, vec![8.0, 4.0, 2.0, 2.0, 4.0, 4.0]);
    let plain = MixPlan { decoded: 2, fade_in: 0, layout: Layout::Keep, frame: 2, overlap: 0 };
    assert_eq!(mix_frame(&Floats, plain, vec![1.0, 2.0], &vec![]), vec![1.0, 2.0]);
    let mono = MixPlan { decoded: 4, fade_in: 0, layout: Layout::Average, frame: 2, overlap: 0 };
    assert_eq!(mix_frame(&Floats, mono, vec![1.0, 3.0, 5.0, 5.0], &vec![]), vec![2.0, 5.0]);
}

#[test]
fn a_peer_mixes_what_its_refill_asks_for() {
    let mut peer: PeerState<f32> = PeerState::new(Channels::Mono, 0.0);
    peer.set_silenced(false);
    for k in 0..3 {
        peer.receive_packet(k, vec![1]);
    }
    peer.refill_buffer(RefillEvent::Begin, 8, 2);
    let action = peer.refill_buffer(RefillEvent::Decoded(Some(4)), 8, 2);
    assert!(matches!(action, RefillAction::Mix(_)));
    let frame = peer.mix(&Floats, vec![4.0; 4]);
    assert_eq!(frame, vec![0.0, 0.0, 1.0, 1.0, 2.0, 2.0, 3.0, 3.0]);
    assert_eq!(peer.refill_buffer(RefillEvent::Mixed(frame), 8, 2), RefillAction::Stop);
    assert_eq!(peer.buffer.len(), 8);
}

#[test]
fn playing_at_the_recorded_rate() {
    let mut peer: PeerState<f32> = PeerState::new(Channels::Mono, 0.0);
    peer.buffer = (0..20).map(|s| s as f32).collect();
    let mut output = vec![100.0; 6];
    let next = peer.pull_samples(&Floats, &mut output, 0, 4);
    assert_eq!(output, vec![100.0, 101.0, 102.0, 103.0, 104.0, 105.0]);
    assert_eq!(next, 0);
    assert_eq!(peer.buffer[0], 6.0);
}

#[test]
fn playing_at_another_rate() {
    let mut peer: PeerState<f32> = PeerState::new(Channels::Mono, 0.0);
    peer.buffer = (0..20).map(|s| s as f32).collect();
    let mut output = vec![0.0; 4];
    let next = peer.pull_samples(&Floats, &mut output, 2, 5);
    assert_eq!(output, vec![1.0, 2.0, 3.5, 4.5]);
    assert_eq!(next, 0);
    assert_eq!(peer.buffer[0], 6.0);
}

#[test]
fn playing_until_the_samples_run_out() {
    let mut peer: PeerState<f32> = PeerState::new(Channels::Mono, 0.0);
    peer.buffer = (0..9).map(|s| s as f32).collect();
    let mut output = vec![0.0; 10];
    let next = peer.pull_samples(&Floats, &mut output, 0, 4);
    assert_eq!(&output[..4], &[0.0, 1.0, 2.0, 3.0]);
    assert_eq!(&output[4..], &[0.0; 6]);
    assert_eq!(next, 0);
    assert_eq!(peer.buffer, vec![4.0, 5.0, 6.0, 7.0, 8.0]);
    let next = peer.pull_samples(&Floats, &mut output, 40, 4);
    assert_eq!(next, 0);
    assert!(peer.buffer.is_empty());
}

#[test]
fn blocks_of_one_channel_go_back() {
    let frame: Vec<f32> = (0..7).map(|s| s as f32).collect();
    let blocks = mono_blocks(&Floats, &frame, Channels::Mono, 3);
    assert_eq!(blocks, vec![vec![0.0, 1.0, 2.0], vec![3.0, 4.0, 5.0]]);
    let mut back = frame.clone();
    put_blocks(&mut back, Channels::Mono, 3, &blocks);
    assert_eq!(back, frame);
}

#[test]
fn blocks_of_two_channels() {
    let mut frame = vec![1.0, 3.0, 5.0, 7.0, 9.0];
    let blocks = mono_blocks(&Floats, &frame, Channels::Stereo, 2);
    assert_eq!(blocks, vec![vec![2.0, 6.0]]);
    put_blocks(&mut frame, Channels::Stereo, 2, &vec![vec![4.0, 8.0]]);
    assert_eq!(frame, vec![4.0, 4.0, 8.0, 8.0, 9.0]);
    assert!(mono_blocks(&Floats, &frame, Channels::Stereo, 3).is_empty());
}

/// A decoder that gives frames of one size, filled with the first byte of the payload.
struct Fixed {
    size: usize,
    asked: Vec<(Vec<u8>, usize, bool)>,
    fails: bool,
}

impl FrameDecoder<f32> for Fixed {
    fn decode(
        mut self,
        payload: &Vec<u8>,
        capacity: usize,
        fec: bool,
    ) -> (Self, Option<(usize, Vec<f32>)>) {
        self.asked.push((payload.clone(), capacity, fec));
        if self.fails {
            return (self, None);
        }
        let value = payload.first().copied().unwrap_or(0) as f32;
        let frame = vec![value; self.size];
        let size = self.size;
        (self, Some((size, frame)))
    }

    fn reset(self) -> Self {
        self
    }
}

fn speaker(first: u32, count: u32) -> PeerState<f32> {
    let mut peer = PeerState::new(Channels::Mono, 0.0);
    peer.set_silenced(false);
    for k in first..first + count {
        peer.receive_packet(k, vec![k as u8]);
    }
    peer
}

#[test]
fn a_whole_refill() {
    let mut peer = speaker(10, 4);
    let decoder = Fixed { size: 4, asked: vec![], fails: false };
    let (decoder, result) = peer.refill(decoder, &Floats, 20);
    match result {
        RefillResult::Played(Some(frame)) => assert_eq!(frame, vec![12.0; 4]),
        _ => panic!("expected a frame"),
    }
    assert_eq!(decoder.asked.len(), 3);
    assert_eq!(decoder.asked[0], (vec![10], 5760, false));
    assert_eq!(peer.buffer.len(), 24);
    assert_eq!(&peer.buffer[..8], &[0.0, 0.0, 2.5, 2.5, 5.0, 5.0, 7.5, 7.5]);
    assert_eq!(&peer.buffer[8..16], &[11.0; 8]);
    assert_eq!(peer.next_decode_seq, 13);
    match peer.refill(decoder, &Floats, 20).1 {
        RefillResult::Played(None) => {}
        _ => panic!("nothing was due"),
    }
}

#[test]
fn a_refill_that_cannot_decode_is_silent() {
    let mut peer = speaker(10, 4);
    let decoder = Fixed { size: 4, asked: vec![], fails: true };
    assert!(matches!(peer.refill(decoder, &Floats, 20).1, RefillResult::Silent));
    assert_eq!(peer.buffer, vec![0.0; 20]);
    assert!(peer.was_plc);
    assert_eq!(peer.next_decode_seq, 11);
}

#[test]
fn a_decoder_that_gives_too_much_has_failed() {
    let mut peer = speaker(10, 4);
    let decoder = Fixed { size: 5761, asked: vec![], fails: false };
    assert!(matches!(peer.refill(decoder, &Floats, 20).1, RefillResult::Silent));
    assert_eq!(peer.buffer, vec![0.0; 20]);
}

#[test]
fn a_refill_of_a_silent_peer_fades_out() {
    let mut peer = speaker(10, 3);
    let decoder = Fixed { size: 4, asked: vec![], fails: false };
    let (decoder, _) = peer.refill(decoder, &Floats, 24);
    assert_eq!(peer.buffer.len(), 24);
    peer.is_silenced = true;
    let before = peer.buffer.clone();
    assert!(matches!(peer.refill(decoder, &Floats, 100).1, RefillResult::Silent));
    assert_eq!(peer.buffer.len(), 24);
    assert_eq!(peer.buffer[23], 0.0);
    assert_eq!(peer.buffer[12], before[12] * (11.0 / 24.0));
}

#[test]
fn a_refill_without_numbers_left_stops() {
    let mut peer = speaker(10, 4);
    peer.total_expected = u32::MAX;
    let decoder = Fixed { size: 4, asked: vec![], fails: false };
    let (decoder, result) = peer.refill(decoder, &Floats, 20);
    assert!(matches!(result, RefillResult::Exhausted));
    assert!(decoder.asked.is_empty());
}

#[test]
fn a_long_refill_comes_to_an_end() {
    let mut peer = speaker(0, 30);
    for k in [4, 5, 11, 20] {
        peer.jitter_buffer.remove(&k);
    }
    peer.played_frames_since_silence = 500;
    let decoder = Fixed { size: 480, asked: vec![], fails: false };
    match peer.refill(decoder, &Floats, 20000).1 {
        RefillResult::Played(Some(_)) => {}
        _ => panic!("expected frames"),
    }
    assert!(peer.buffer.len() >= 20000);
    assert_eq!(peer.buffer.len() % 2, 0);
    assert!(peer.total_lost > 0);
    assert!(peer.total_lost <= peer.total_expected);
    assert_eq!(peer.stat_expected, peer.total_expected);
    assert_eq!(peer.stat_lost, peer.total_lost);
    assert!(peer.jitter_buffer.keys().all(|k| *k < 30 && ![4, 5, 11, 20].contains(k)));
}

#[test]
fn a_refill_joins_two_frames_when_too_many_wait() {
    let mut peer = speaker(0, 12);
    peer.played_frames_since_silence = 500;
    peer.last_frame_size = 4;
    let decoder = Fixed { size: 4, asked: vec![], fails: false };
    let (decoder, result) = peer.refill(decoder, &Floats, 8);
    match result {
        RefillResult::Played(Some(frame)) => assert_eq!(frame, vec![0.0, 0.25, 0.5, 0.75]),
        _ => panic!("expected a frame"),
    }
    assert_eq!(decoder.asked, vec![(vec![0], 4, false), (vec![1], 4, false)]);
    assert_eq!(peer.next_decode_seq, 2);
    assert_eq!(peer.total_expected, 2);
}

#[test]
fn a_lost_frame_is_made_up_from_the_next_one() {
    let mut peer = speaker(10, 4);
    peer.jitter_buffer.remove(&11);
    let decoder = Fixed { size: 4, asked: vec![], fails: false };
    let (decoder, _) = peer.refill(decoder, &Floats, 16);
    assert_eq!(decoder.asked, vec![(vec![10], 5760, false), (vec![12], 5760, true)]);
    assert_eq!((peer.total_expected, peer.total_lost), (2, 1));
}

#[test]
fn six_samples_play_nothing() {
    let mut peer: PeerState<f32> = PeerState::new(Channels::Mono, 0.0);
    peer.buffer = vec![1.0; 6];
    let mut output = vec![5.0; 4];
    assert_eq!(peer.pull_samples(&Floats, &mut output, 3, 4), 3);
    assert_eq!(output, vec![5.0; 4]);
    assert_eq!(peer.buffer, vec![1.0; 6]);
}

/// Adds how many blocks it has seen, and cuts the third one short.
struct Adder(usize);

impl BlockFilter<f32> for Adder {
    fn filter(self, block: &Vec<f32>) -> (Self, Vec<f32>) {
        let mut out: Vec<f32> = block.iter().map(|s| s + self.0 as f32).collect();
        if self.0 == 2 {
            out.pop();
        }
        (Adder(self.0 + 1), out)
    }
}

impl EchoCanceller<f32> for Adder {
    fn cancel(self, capture: &Vec<f32>, render: &Vec<f32>) -> (Self, Vec<f32>) {
        let out = capture.iter().zip(render).map(|(c, r)| c - r + self.0 as f32).collect();
        (Adder(self.0 + 1), out)
    }
}

#[test]
fn frames_are_filtered_block_by_block() {
    let mut frame = vec![10.0; 7];
    let filter = filter_frame(Adder(0), &Floats, &mut frame, Channels::Mono, 2);
    assert_eq!(filter.0, 3);
    assert_eq!(frame, vec![10.0, 10.0, 11.0, 11.0, 10.0, 10.0, 10.0]);
    let mut frame = vec![1.0, 3.0, 5.0, 7.0, 9.0];
    filter_frame(Adder(1), &Floats, &mut frame, Channels::Stereo, 1);
    assert_eq!(frame, vec![3.0, 3.0, 6.0, 6.0, 9.0]);
}

#[test]
fn echo_is_cancelled_block_by_block() {
    let mut frame = vec![10.0, 20.0, 30.0, 40.0, 50.0];
    let render = [1.0, 3.0, 4.0, 4.0, 5.0, 7.0, 8.0, 8.0, 9.0];
    let canceller = cancel_frame(Adder(0), &Floats, &mut frame, &render, Channels::Mono, 2);
    assert_eq!(canceller.0, 2);
    assert_eq!(frame, vec![8.0, 16.0, 25.0, 33.0, 50.0]);
    let mut frame = vec![10.0; 6];
    let canceller = cancel_frame(Adder(0), &Floats, &mut frame, &render[..4], Channels::Mono, 2);
    assert_eq!(canceller.0, 1);
    assert_eq!(frame, vec![8.0, 6.0, 10.0, 10.0, 10.0, 10.0]);
}

/// Gains in whole numbers: half way down, one step up.
impl LevelMath<f32, i32> for Floats {
    fn peak(&self, frame: &Vec<f32>) -> i32 {
        frame.iter().fold(0.0f32, |max, s| max.max(s.abs())) as i32
    }

    fn level(&self, frame: &Vec<f32>) -> i32 {
        frame.iter().map(|s| s.abs()).sum::<f32>() as i32
    }

    fn is_voice(&self, level: i32) -> bool {
        level > 10
    }

    fn is_audible(&self, peak: i32) -> bool {
        peak > 1
    }

    fn wanted_gain(&self, peak: i32) -> i32 {
        100 / peak
    }

    fn is_below(&self, gain: i32, other: i32) -> bool {
        gain < other
    }

    fn lowered(&self, gain: i32, wanted: i32) -> i32 {
        (gain + wanted) / 2
    }

    fn raised(&self, gain: i32, _wanted: i32) -> i32 {
        gain + 1
    }

    fn amplified(&self, sample: f32, gain: i32) -> f32 {
        sample * gain as f32
    }

    fn amplified_peak(&self, peak: i32, gain: i32) -> i32 {
        peak * gain
    }
}

#[test]
fn levels_are_evened_out() {
    // loud: the gain comes down half way to 5
    let (frame, level) = measure(&Floats, vec![20.0, -10.0], 9, true);
    assert_eq!(frame, vec![140.0, -70.0]);
    assert_eq!((level.volume, level.gain, level.voiced), (140, 7, true));
    // soft: the gain goes up one step
    let (frame, level) = measure(&Floats, vec![6.0, -6.0], 9, true);
    assert_eq!(frame, vec![60.0, -60.0]);
    assert_eq!((level.volume, level.gain, level.voiced), (60, 10, true));
    // noise, and what is hardly a deflection
    let (frame, level) = measure(&Floats, vec![5.0, 5.0], 9, true);
    assert_eq!(frame, vec![45.0, 45.0]);
    assert_eq!((level.volume, level.gain, level.voiced), (45, 9, false));
    let (_, level) = measure(&Floats, vec![1.0; 11], 9, true);
    assert_eq!((level.gain, level.voiced), (9, true));
}

#[test]
fn levels_are_only_measured() {
    let (frame, level) = measure(&Floats, vec![20.0, -10.0], 9, false);
    assert_eq!(frame, vec![20.0, -10.0]);
    assert_eq!((level.volume, level.gain, level.voiced), (20, 9, true));
}
