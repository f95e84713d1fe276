//! One peer's playback: packets come in by `receive_packet`, samples go out by `refill_buffer`
//! and `pull_samples`.

use crate::jitter::{drop_lost_before, drop_packets_before, sequence_bounds};
use crate::peer_model::{
    ActionView, EventView, Layout, MixPlan, PeerView, RefillStage, DEFAULT_FRAME, HISTORY,
    MAX_FRAME, MAX_TARGET,
};
use crate::samples::{append_samples, pad, take_front};
use crate::types::{Channels, OPUS_SAMPLE_RATE};
use std::collections::{BTreeMap, BTreeSet};
use vstd::prelude::*;

verus! {

broadcast use crate::peer_model::lemma_payloads_dom;

/// What a refill asks its caller to do.
#[derive(Debug, Clone, PartialEq, Eq)]
pub enum RefillAction {
    /// The refill is over.
    Stop,
    /// The refill is over, and what was added is silent.
    StopSilent,
    /// The refill is over. The last `len` samples that wait, from `start` on, fall linearly to
    /// silence.
    FadeOut { start: usize, len: usize },
    /// Decode the payload into at most `capacity` samples, or the redundant copy of the frame
    /// before it that the payload carries.
    Decode { payload: Vec<u8>, capacity: usize, fec: bool },
    /// Decode both payloads into at most `capacity` samples each and fade from one to the other.
    Crossfade { first: Vec<u8>, second: Vec<u8>, capacity: usize },
    /// Mix the decoded frame.
    Mix(MixPlan),
}

impl View for RefillAction {
    type V = ActionView;

    open spec fn view(&self) -> ActionView {
        match self {
            RefillAction::Stop => ActionView::Stop,
            RefillAction::StopSilent => ActionView::StopSilent,
            RefillAction::FadeOut { start, len } => ActionView::FadeOut {
                start: *start as int,
                len: *len as int,
            },
            RefillAction::Decode { payload, capacity, fec } => ActionView::Decode {
                payload: payload@,
                capacity: *capacity as int,
                fec: *fec,
            },
            RefillAction::Crossfade { first, second, capacity } => ActionView::Crossfade {
                first: first@,
                second: second@,
                capacity: *capacity as int,
            },
            RefillAction::Mix(plan) => ActionView::Mix(*plan),
        }
    }
}

/// What a caller reports to a refill.
#[derive(Debug, Clone, PartialEq, Eq)]
pub enum RefillEvent<S> {
    /// Samples are wanted.
    Begin,
    /// Decoding gave so many samples a channel, or failed.
    Decoded(Option<usize>),
    /// Decoding the two payloads gave so many samples a channel each, or one of them failed.
    Crossfaded(Option<(usize, usize)>),
    /// The frame is mixed.
    Mixed(Vec<S>),
}

impl<S> View for RefillEvent<S> {
    type V = EventView<S>;

    open spec fn view(&self) -> EventView<S> {
        match self {
            RefillEvent::Begin => EventView::Begin,
            RefillEvent::Decoded(Some(n)) => EventView::Decoded(Some(*n as int)),
            RefillEvent::Decoded(None) => EventView::Decoded(None),
            RefillEvent::Crossfaded(Some((a, b))) => EventView::Crossfaded(
                Some((*a as int, *b as int)),
            ),
            RefillEvent::Crossfaded(None) => EventView::Crossfaded(None),
            RefillEvent::Mixed(frame) => EventView::Mixed(frame@),
        }
    }
}

/// The playback state of one peer.
pub struct PeerState<S> {
    pub channels: Channels,
    /// The sample that sounds like nothing.
    pub silence: S,
    pub buffer: Vec<S>,
    pub jitter_buffer: BTreeMap<u32, Vec<u8>>,
    pub next_decode_seq: u32,
    pub target_jitter_frames: usize,
    pub is_buffering: bool,
    pub total_expected: u32,
    pub total_lost: u32,
    pub good_frames: u32,
    pub stat_expected: u32,
    pub stat_lost: u32,
    pub is_silenced: bool,
    pub awaiting_first_packet: bool,
    pub last_frame_size: usize,
    pub lost_sequences: BTreeSet<u32>,
    pub silence_frames: u32,
    pub played_frames_since_silence: u32,
    pub missing_frames_streak: u32,
    pub was_plc: bool,
    pub total_bytes_received: u64,
    pub ping: u32,
    pub stage: RefillStage,
}

impl<S> View for PeerState<S> {
    type V = PeerView<S>;

    open spec fn view(&self) -> PeerView<S> {
        PeerView {
            channels: self.channels,
            silence: self.silence,
            buffer: self.buffer@,
            jitter: crate::peer_model::payloads(self.jitter_buffer@),
            next: self.next_decode_seq,
            target: self.target_jitter_frames as int,
            is_buffering: self.is_buffering,
            total_expected: self.total_expected as int,
            total_lost: self.total_lost as int,
            good_frames: self.good_frames as int,
            stat_expected: self.stat_expected as int,
            stat_lost: self.stat_lost as int,
            is_silenced: self.is_silenced,
            awaiting_first_packet: self.awaiting_first_packet,
            last_frame_size: self.last_frame_size as int,
            lost: self.lost_sequences@,
            silence_frames: self.silence_frames as int,
            played: self.played_frames_since_silence as int,
            streak: self.missing_frames_streak as int,
            was_plc: self.was_plc,
            bytes: self.total_bytes_received as int,
            ping: self.ping as int,
            stage: self.stage,
        }
    }
}

impl<S: Copy> PeerState<S> {
    pub fn new(channels: Channels, silence: S) -> (peer: Self)
        ensures
            peer@ == PeerView::fresh(channels, silence),
            peer@.wf(),
    {
        let peer = PeerState {
            channels,
            silence,
            buffer: Vec::new(),
            jitter_buffer: BTreeMap::new(),
            next_decode_seq: 0,
            target_jitter_frames: 1,
            is_buffering: true,
            total_expected: 0,
            total_lost: 0,
            good_frames: 0,
            stat_expected: 0,
            stat_lost: 0,
            is_silenced: true,
            awaiting_first_packet: true,
            last_frame_size: DEFAULT_FRAME,
            lost_sequences: BTreeSet::new(),
            silence_frames: 0,
            played_frames_since_silence: 0,
            missing_frames_streak: 0,
            was_plc: false,
            total_bytes_received: 0,
            ping: 0,
            stage: RefillStage::Idle,
        };
        assert(peer@ =~= PeerView::fresh(channels, silence));
        peer
    }

    /// Takes in a packet from the network.
    pub fn receive_packet(&mut self, sequence: u32, payload: Vec<u8>)
        requires
            old(self)@.wf(),
            sequence + HISTORY <= u32::MAX,
            old(self).total_bytes_received + payload@.len() <= u64::MAX,
        ensures
            final(self)@ == old(self)@.received(sequence, payload@),
            final(self)@.wf(),
    {
        let ghost start = self@;
        self.total_bytes_received = self.total_bytes_received + payload.len() as u64;
        if self.awaiting_first_packet {
            self.next_decode_seq = sequence;
            self.awaiting_first_packet = false;
        } else if self.is_buffering && sequence < self.next_decode_seq {
            self.next_decode_seq = sequence;
        }
        let ghost synced = PeerView { bytes: start.bytes + payload@.len(), ..start }.synced_to(
            sequence,
        );
        assert(self@ =~= synced);
        let ghost filed = synced.filed(sequence, payload@);
        if sequence + HISTORY >= self.next_decode_seq {
            if sequence < self.next_decode_seq {
                if self.lost_sequences.remove(&sequence) {
                    self.stat_lost = self.stat_lost.saturating_sub(1);
                    self.total_lost = self.total_lost.saturating_sub(1);
                }
                assert(self@ =~= synced.forgiven(sequence));
                if !self.is_buffering && self.played_frames_since_silence > 50 {
                    self.target_jitter_frames = if self.target_jitter_frames + 1 < MAX_TARGET {
                        self.target_jitter_frames + 1
                    } else {
                        MAX_TARGET
                    };
                }
                assert(self@ =~= synced.forgiven(sequence).wary());
            }
            self.jitter_buffer.insert(sequence, payload);
        }
        assert(self@ =~= filed);
        if self.jitter_buffer.len() > HISTORY as usize {
            if let Some((first, _)) = sequence_bounds(&self.jitter_buffer) {
                self.jitter_buffer.remove(&first);
            }
        }
        assert(self@ =~= filed.trimmed());
        proof {
            crate::peer_model::lemma_received_wf(start, sequence, payload@);
        }
    }

    /// How many frames wait from the one that is due through the newest.
    pub fn queued_frames(&self) -> (frames: u32)
        requires
            self@.wf(),
        ensures
            frames == self@.queued(),
    {
        match sequence_bounds(&self.jitter_buffer) {
            Some((_, newest)) => newest.saturating_add(1).saturating_sub(self.next_decode_seq),
            None => 0,
        }
    }

    /// Counts a refill of silence.
    fn count_silence(&mut self)
        requires
            old(self)@.wf(),
        ensures
            final(self)@ == old(self)@.begun(),
    {
        if self.is_silenced {
            self.silence_frames = self.silence_frames + 1;
            if self.silence_frames >= 100 {
                self.silence_frames = 0;
                self.target_jitter_frames = self.target_jitter_frames.saturating_sub(1);
            }
        } else {
            self.silence_frames = 0;
        }
        assert(self@ =~= old(self)@.begun());
    }

    /// Asks for a frame made up from nothing.
    fn conceal_blind(&mut self) -> (action: RefillAction)
        requires
            old(self)@.wf(),
        ensures
            (final(self)@, action@) == old(self)@.concealing_blind(),
    {
        self.stage = RefillStage::Concealing { fec: false };
        let size: usize = if self.last_frame_size > 0 {
            self.last_frame_size
        } else {
            DEFAULT_FRAME
        };
        let payload: Vec<u8> = Vec::new();
        let capacity: usize = size * self.channels.count();
        assert(self@ =~= old(self)@.concealing_blind().0);
        RefillAction::Decode { payload, capacity, fec: false }
    }

    /// Asks for what is to be decoded.
    fn pick(&mut self, queued: u32) -> (action: RefillAction)
        requires
            old(self)@.wf(),
            !old(self).is_silenced ==> old(self).next_decode_seq < u32::MAX,
        ensures
            (final(self)@, action@) == old(self)@.picked(queued as int),
    {
        let ghost start = self@;
        let full: usize = MAX_FRAME * self.channels.count();
        let next: u32 = self.next_decode_seq;
        if self.played_frames_since_silence > 100 && queued as usize > self.target_jitter_frames + 5
            && self.jitter_buffer.contains_key(&next) && self.jitter_buffer.contains_key(
            &(next + 1),
        ) {
            if let Some(first) = self.jitter_buffer.remove(&next) {
                if let Some(second) = self.jitter_buffer.remove(&(next + 1)) {
                    self.next_decode_seq = next + 2;
                    self.stage = RefillStage::Crossfading;
                    assert(self@ =~= start.picked(queued as int).0);
                    return RefillAction::Crossfade {
                        first,
                        second,
                        capacity: self.last_frame_size,
                    };
                }
            }
        }
        if let Some(payload) = self.jitter_buffer.remove(&next) {
            self.stage = RefillStage::Decoding;
            assert(self@ =~= start.picked(queued as int).0);
            return RefillAction::Decode { payload, capacity: full, fec: false };
        }
        if self.is_silenced {
            let len: usize = if self.buffer.len() / 2 * 2 < 160 {
                self.buffer.len() / 2 * 2
            } else {
                160
            };
            self.was_plc = true;
            self.stage = RefillStage::Idle;
            assert(self@ =~= start.picked(queued as int).0);
            return RefillAction::FadeOut { start: self.buffer.len() - len, len };
        }
        if let Some(following) = self.jitter_buffer.get(&(next + 1)) {
            let payload = following.clone();
            assert(payload@ =~= following@);
            self.stage = RefillStage::Concealing { fec: true };
            assert(self@ =~= start.picked(queued as int).0);
            return RefillAction::Decode { payload, capacity: full, fec: true };
        }
        assert(self@ =~= start);
        self.conceal_blind()
    }

    /// Goes on with a refill: stops it, or asks for the next frame.
    fn advance(&mut self, pcm_len: usize) -> (action: RefillAction)
        requires
            old(self)@.wf(),
            old(self)@.can_advance(pcm_len as int),
        ensures
            (final(self)@, action@) == old(self)@.advanced(pcm_len as int),
    {
        let ghost start = self@;
        if self.buffer.len() >= pcm_len || self.awaiting_first_packet {
            self.stage = RefillStage::Idle;
            assert(self@ =~= start.advanced(pcm_len as int).0);
            return RefillAction::Stop;
        }
        if self.is_buffering {
            let bounds = sequence_bounds(&self.jitter_buffer);
            let primed: bool = match bounds {
                Some((oldest, newest)) => newest.saturating_add(1).saturating_sub(oldest) >= 3
                    || self.missing_frames_streak > 3,
                None => false,
            };
            assert(primed == start.primed());
            if !primed {
                let needed: usize = pcm_len - self.buffer.len();
                pad(&mut self.buffer, self.silence, needed);
                self.stage = RefillStage::Idle;
                assert(self@ =~= start.advanced(pcm_len as int).0);
                return RefillAction::StopSilent;
            }
            self.is_buffering = false;
            if let Some((oldest, _)) = bounds {
                self.next_decode_seq = oldest;
            }
        }
        assert(self@ =~= start.started());
        self.stat_expected = self.stat_expected + 1;
        self.total_expected = self.total_expected + 1;
        let ghost expecting = start.started().expecting();
        assert(self@ =~= expecting);
        let queued: u32 = self.queued_frames();
        if let Some((oldest, newest)) = sequence_bounds(&self.jitter_buffer) {
            if !self.is_silenced && newest > self.next_decode_seq + 30 {
                self.next_decode_seq = oldest;
            }
        }
        assert(self@ =~= expecting.resynced());
        self.pick(queued)
    }

    /// How a decoded frame of so many samples is mixed in.
    fn plan(&self, decoded: usize, outputs: usize) -> (plan: MixPlan)
        requires
            decoded <= 2 * MAX_FRAME,
        ensures
            plan == self@.plan(decoded as int, outputs as int),
    {
        let fade_in: usize = if self.played_frames_since_silence < 2 && self.buffer.len() == 0
            && !self.was_plc {
            if decoded < 128 {
                decoded
            } else {
                128
            }
        } else {
            0
        };
        let layout: Layout = if self.channels == Channels::Mono && outputs == 2 {
            Layout::Duplicate
        } else if self.channels == Channels::Stereo && outputs == 1 {
            Layout::Average
        } else {
            Layout::Keep
        };
        let frame: usize = match layout {
            Layout::Keep => decoded,
            Layout::Duplicate => 2 * decoded,
            Layout::Average => decoded / 2,
        };
        let mut overlap: usize = 0;
        if self.was_plc {
            overlap = if frame / 2 * 2 < 240 {
                frame / 2 * 2
            } else {
                240
            };
            if self.buffer.len() < overlap {
                overlap = self.buffer.len();
            }
        }
        MixPlan { decoded, fade_in, layout, frame, overlap }
    }

    /// Lowers the target after a good run, and drops what playback has passed.
    fn reward_and_sweep(&mut self)
        requires
            old(self)@.wf(),
        ensures
            final(self)@ == old(self)@.rewarded().swept(),
    {
        let ghost start = self@;
        let ms_per_frame: usize = self.last_frame_size * 1000 / OPUS_SAMPLE_RATE as usize;
        let good_run: usize = if ms_per_frame > 0 {
            500 / ms_per_frame
        } else {
            50
        };
        assert(good_run == start.good_run());
        if self.good_frames as usize >= good_run {
            self.good_frames = 0;
            self.target_jitter_frames = if self.target_jitter_frames > 2 {
                self.target_jitter_frames - 1
            } else {
                1
            };
        }
        assert(self@ =~= start.rewarded());
        drop_packets_before(&mut self.jitter_buffer, self.next_decode_seq);
        assert(self@.jitter =~= start.rewarded().swept().jitter);
        drop_lost_before(&mut self.lost_sequences, self.next_decode_seq.saturating_sub(HISTORY));
        assert(self@.lost =~= start.rewarded().swept().lost);
        assert(self@ =~= start.rewarded().swept());
    }

    /// Plans how a decoded frame of so many samples is mixed in, and makes room for it.
    fn plan_mix(&mut self, skipped: bool, decoded: usize, outputs: usize) -> (action: RefillAction)
        requires
            old(self)@.wf(),
            decoded <= 2 * MAX_FRAME,
        ensures
            (final(self)@, action@) == old(self)@.mixing(skipped, decoded as int, outputs as int),
    {
        let ghost start = self@;
        if !skipped {
            self.played_frames_since_silence = if self.played_frames_since_silence + 1 < 1000 {
                self.played_frames_since_silence + 1
            } else {
                1000
            };
        }
        let plan = self.plan(decoded, outputs);
        if self.was_plc && self.buffer.len() > 0 {
            let surplus: usize = self.buffer.len() - plan.overlap;
            let _ = take_front(&mut self.buffer, surplus);
            self.was_plc = false;
        } else {
            self.was_plc = skipped;
        }
        self.stage = RefillStage::Mixing(plan);
        self.reward_and_sweep();
        RefillAction::Mix(plan)
    }

    /// Goes on once a frame has been decoded or given up.
    fn finish(
        &mut self,
        skipped: bool,
        decoded: Option<usize>,
        pcm_len: usize,
        outputs: usize,
    ) -> (action: RefillAction)
        requires
            old(self)@.wf(),
            old(self).stage is Idle,
            pcm_len < usize::MAX,
            decoded matches Some(n) ==> n <= 2 * MAX_FRAME,
        ensures
            (final(self)@, action@) == old(self)@.finished(
                skipped,
                match decoded {
                    Some(n) => Some(n as int),
                    None => None,
                },
                pcm_len as int,
                outputs as int,
            ),
    {
        let ghost start = self@;
        if self.buffer.len() % 2 != 0 {
            let _ = self.buffer.pop();
        }
        assert(self@ =~= start.evened());
        let enough: usize = if self.target_jitter_frames > 1 {
            self.target_jitter_frames
        } else {
            1
        };
        if self.is_buffering && self.jitter_buffer.len() > enough {
            self.is_buffering = false;
        }
        assert(self@ =~= start.evened().supplied());
        match decoded {
            Some(n) => self.plan_mix(skipped, n, outputs),
            None => {
                let needed: usize = (pcm_len.saturating_sub(self.buffer.len()) + 1) / 2 * 2;
                if needed > 0 {
                    pad(&mut self.buffer, self.silence, needed);
                    self.was_plc = true;
                }
                self.stage = RefillStage::Idle;
                assert(self@ =~= start.evened().supplied().muted(pcm_len as int));
                RefillAction::StopSilent
            },
        }
    }

    /// Takes the samples of the frame that was due, or its failure.
    fn take_frame(&mut self, samples: Option<usize>, pcm_len: usize, outputs: usize) -> (action:
        RefillAction)
        requires
            old(self)@.wf(),
            old(self).stage is Decoding,
            samples matches Some(n) ==> n <= MAX_FRAME,
            old(self).good_frames < u32::MAX,
            pcm_len < usize::MAX,
        ensures
            (final(self)@, action@) == old(self)@.step(
                RefillEvent::<S>::Decoded(samples)@,
                pcm_len as int,
                outputs as int,
            ),
    {
        let ghost start = self@;
        let width: usize = self.channels.count();
        let decoded: Option<usize> = match samples {
            Some(n) => {
                self.last_frame_size = n;
                Some(n * width)
            },
            None => None,
        };
        self.next_decode_seq = self.next_decode_seq + 1;
        self.good_frames = self.good_frames + 1;
        self.missing_frames_streak = 0;
        self.stage = RefillStage::Idle;
        assert(self@ =~= start.frame_decoded(
            match samples {
                Some(n) => Some(n as int),
                None => None,
            },
        ));
        self.finish(false, decoded, pcm_len, outputs)
    }

    /// Takes the samples made up for a missing frame, or the failure to make any up.
    fn take_concealed(
        &mut self,
        fec: bool,
        samples: Option<usize>,
        pcm_len: usize,
        outputs: usize,
    ) -> (action: RefillAction)
        requires
            old(self)@.wf(),
            old(self).stage == (RefillStage::Concealing { fec }),
            samples matches Some(n) ==> n <= MAX_FRAME,
            (fec && samples is None) || old(self).missing_frames_streak < u32::MAX,
            pcm_len < usize::MAX,
        ensures
            (final(self)@, action@) == old(self)@.step(
                RefillEvent::<S>::Decoded(samples)@,
                pcm_len as int,
                outputs as int,
            ),
    {
        if fec && samples.is_none() {
            return self.conceal_blind();
        }
        let ghost start = self@;
        if !fec && samples.is_some() && self.missing_frames_streak > 8 && self.missing_frames_streak
            % 8 == 0 {
            self.target_jitter_frames = if self.target_jitter_frames + 1 < 60 {
                self.target_jitter_frames + 1
            } else {
                60
            };
        }
        let ghost strained = self@;
        assert(strained =~= if !fec && samples is Some {
            start.strained()
        } else {
            start
        });
        let followed: bool = match sequence_bounds(&self.jitter_buffer) {
            Some((_, newest)) => newest > self.next_decode_seq,
            None => false,
        };
        let width: usize = self.channels.count();
        let decoded: Option<usize> = match samples {
            Some(n) => if n > 0 {
                self.last_frame_size = n;
                Some(n * width)
            } else {
                None
            },
            None => None,
        };
        self.lost_sequences.insert(self.next_decode_seq);
        self.next_decode_seq = self.next_decode_seq + 1;
        self.missing_frames_streak = self.missing_frames_streak + 1;
        self.good_frames = self.good_frames.saturating_sub(2);
        self.total_lost = self.total_lost + 1;
        self.stat_lost = self.stat_lost + 1;
        if !followed && self.missing_frames_streak > 15 {
            self.is_buffering = true;
        }
        self.stage = RefillStage::Idle;
        assert(self@ =~= strained.frame_lost(
            match samples {
                Some(n) => Some(n as int),
                None => None,
            },
        ));
        self.finish(false, decoded, pcm_len, outputs)
    }

    /// Takes the samples of two frames faded into one, or the failure to decode them.
    fn take_crossfaded(
        &mut self,
        samples: Option<(usize, usize)>,
        pcm_len: usize,
        outputs: usize,
    ) -> (action: RefillAction)
        requires
            old(self)@.wf(),
            old(self).stage is Crossfading,
            old(self)@.expects(RefillEvent::<S>::Crossfaded(samples)@),
            old(self)@.has_room(RefillEvent::<S>::Crossfaded(samples)@, pcm_len as int),
            pcm_len < usize::MAX,
        ensures
            (final(self)@, action@) == old(self)@.step(
                RefillEvent::<S>::Crossfaded(samples)@,
                pcm_len as int,
                outputs as int,
            ),
    {
        let ghost start = self@;
        match samples {
            Some((first, _)) => {
                let width: usize = self.channels.count();
                self.stat_expected = self.stat_expected + 1;
                self.total_expected = self.total_expected + 1;
                self.good_frames = self.good_frames + 2;
                self.stage = RefillStage::Idle;
                assert(self@ =~= PeerView {
                    good_frames: start.good_frames + 2,
                    stage: RefillStage::Idle,
                    ..start.expecting()
                });
                self.finish(true, Some(first * width), pcm_len, outputs)
            },
            None => {
                self.next_decode_seq = self.next_decode_seq + 1;
                self.stage = RefillStage::Idle;
                assert(self@ =~= PeerView {
                    next: crate::peer_model::after(start.next),
                    stage: RefillStage::Idle,
                    ..start
                });
                self.advance(pcm_len)
            },
        }
    }

    /// Takes a mixed frame.
    fn take_mixed(&mut self, plan: MixPlan, frame: Vec<S>, pcm_len: usize) -> (action: RefillAction)
        requires
            old(self)@.wf(),
            old(self).stage == RefillStage::Mixing(plan),
            old(self)@.has_room(EventView::Mixed(frame@), pcm_len as int),
        ensures
            (final(self)@, action@) == old(self)@.mixed(plan, frame@).advanced(pcm_len as int),
    {
        let ghost start = self@;
        let keep: usize = self.buffer.len() - plan.overlap;
        self.buffer.truncate(keep);
        append_samples(&mut self.buffer, frame.as_slice());
        self.stage = RefillStage::Idle;
        assert(self@ =~= start.mixed(plan, frame@));
        self.advance(pcm_len)
    }

    /// Takes one step of a refill, which brings the samples that wait up to `pcm_len` for a
    /// device of `outputs` channels. The caller begins it, carries out what it asks for, and
    /// reports back until it stops.
    pub fn refill_buffer(&mut self, event: RefillEvent<S>, pcm_len: usize, outputs: usize) -> (action:
        RefillAction)
        requires
            old(self)@.wf(),
            old(self)@.expects(event@),
            old(self)@.has_room(event@, pcm_len as int),
            pcm_len < usize::MAX,
        ensures
            (final(self)@, action@) == old(self)@.step(event@, pcm_len as int, outputs as int),
            final(self)@.wf(),
    {
        proof {
            crate::peer_model::lemma_step_wf(self@, event@, pcm_len as int, outputs as int);
        }
        match (self.stage, event) {
            (RefillStage::Idle, RefillEvent::Begin) => {
                self.count_silence();
                self.advance(pcm_len)
            },
            (RefillStage::Decoding, RefillEvent::Decoded(samples)) => self.take_frame(
                samples,
                pcm_len,
                outputs,
            ),
            (
                RefillStage::Concealing { fec },
                RefillEvent::Decoded(samples),
            ) => self.take_concealed(fec, samples, pcm_len, outputs),
            (
                RefillStage::Crossfading,
                RefillEvent::Crossfaded(samples),
            ) => self.take_crossfaded(samples, pcm_len, outputs),
            (RefillStage::Mixing(plan), RefillEvent::Mixed(frame)) => self.take_mixed(
                plan,
                frame,
                pcm_len,
            ),
            _ => RefillAction::Stop,
        }
    }

    /// Whether counters and sequence numbers have room for picking a frame, once so many samples
    /// wait and the frame `next` is due.
    fn can_advance(&self, waiting: usize, next: u32, pcm_len: usize) -> (room: bool)
        requires
            self@.wf(),
        ensures
            room == self@.room_for(waiting as int, next, pcm_len as int),
    {
        if waiting >= pcm_len || self.awaiting_first_packet {
            return true;
        }
        let bounds = sequence_bounds(&self.jitter_buffer);
        if self.is_buffering {
            let primed: bool = match bounds {
                Some((oldest, newest)) => newest.saturating_add(1).saturating_sub(oldest) >= 3
                    || self.missing_frames_streak > 3,
                None => false,
            };
            if !primed {
                return true;
            }
        }
        let ahead: u32 = if bounds.is_some() {
            30
        } else {
            1
        };
        self.stat_expected < u32::MAX && self.total_expected < u32::MAX && (self.is_silenced
            || self.is_buffering || next <= u32::MAX - ahead)
    }

    /// Whether counters and sequence numbers have room for a refill step.
    pub fn has_room(&self, event: &RefillEvent<S>, pcm_len: usize) -> (room: bool)
        requires
            self@.wf(),
            self@.expects(event@),
        ensures
            room == self@.has_room(event@, pcm_len as int),
    {
        match (self.stage, event) {
            (RefillStage::Idle, RefillEvent::Begin) => self.can_advance(
                self.buffer.len(),
                self.next_decode_seq,
                pcm_len,
            ),
            (RefillStage::Decoding, RefillEvent::Decoded(_)) => self.good_frames < u32::MAX,
            (RefillStage::Concealing { fec }, RefillEvent::Decoded(samples)) => (fec
                && samples.is_none()) || self.missing_frames_streak < u32::MAX,
            (RefillStage::Crossfading, RefillEvent::Crossfaded(samples)) => {
                if samples.is_some() {
                    self.stat_expected < u32::MAX && self.total_expected < u32::MAX
                        && self.good_frames <= u32::MAX - 2
                } else {
                    self.can_advance(self.buffer.len(), self.next_decode_seq + 1, pcm_len)
                }
            },
            (RefillStage::Mixing(plan), RefillEvent::Mixed(frame)) => {
                let keep: usize = self.buffer.len() - plan.overlap;
                if keep >= pcm_len || frame.len() >= pcm_len - keep {
                    true
                } else {
                    self.can_advance(keep + frame.len(), self.next_decode_seq, pcm_len)
                }
            },
            _ => true,
        }
    }

    /// The peer falls silent or speaks up.
    pub fn set_silenced(&mut self, silenced: bool)
        requires
            old(self)@.wf(),
        ensures
            final(self)@ == old(self)@.silence_set(silenced),
            final(self)@.wf(),
    {
        let ghost start = self@;
        if self.is_silenced && !silenced {
            self.restart();
            self.next_decode_seq = 0;
            self.target_jitter_frames = 3;
            self.was_plc = false;
            self.played_frames_since_silence = 0;
            self.good_frames = 0;
            self.stat_expected = 0;
            self.stat_lost = 0;
            self.is_silenced = false;
        } else if !self.is_silenced && silenced {
            self.jitter_buffer.clear();
            self.awaiting_first_packet = true;
            self.is_buffering = true;
            self.is_silenced = true;
            self.stage = RefillStage::Idle;
        }
        assert(self@ =~= start.silence_set(silenced));
    }

    /// Drops all audio and waits for a first packet.
    pub fn restart(&mut self)
        requires
            old(self)@.wf(),
        ensures
            final(self)@ == old(self)@.restarted(),
            final(self)@.wf(),
    {
        self.buffer.clear();
        self.jitter_buffer.clear();
        self.is_buffering = true;
        self.awaiting_first_packet = true;
        self.stage = RefillStage::Idle;
        assert(self@ =~= old(self)@.restarted());
    }

    /// Whether there is nothing to play and nothing to come.
    pub fn is_idle(&self) -> (idle: bool)
        ensures
            idle == (self@.is_silenced && self@.jitter.dom() == Set::<u32>::empty()
                && self@.buffer.len() == 0),
    {
        self.is_silenced && self.jitter_buffer.is_empty() && self.buffer.is_empty()
    }

    /// Whether playback has settled, so that its rate may be corrected.
    pub fn has_settled(&self) -> (settled: bool)
        ensures
            settled == (self@.played >= 100),
    {
        self.played_frames_since_silence >= 100
    }

    /// Closes the running statistics once fifty frames were expected: how many of how many were
    /// lost.
    pub fn take_loss_window(&mut self) -> (window: Option<(u32, u32)>)
        requires
            old(self)@.wf(),
            old(self).stage is Idle,
        ensures
            final(self)@.wf(),
            match window {
                Some((lost, expected)) => {
                    &&& expected == old(self)@.stat_expected >= 50
                    &&& lost == old(self)@.stat_lost <= expected
                    &&& final(self)@ == PeerView { stat_expected: 0, stat_lost: 0, ..old(self)@ }
                },
                None => old(self)@.stat_expected < 50 && final(self)@ == old(self)@,
            },
    {
        if self.stat_expected < 50 {
            return None;
        }
        let window = (self.stat_lost, self.stat_expected);
        self.stat_expected = 0;
        self.stat_lost = 0;
        assert(self@ =~= PeerView { stat_expected: 0, stat_lost: 0, ..old(self)@ });
        Some(window)
    }

    /// Where the four frames stand that an output frame is interpolated from, when playback is
    /// between the frames `frame` and `frame + 1`: their left samples, with the right ones behind
    /// them. There are none when too few samples wait.
    pub fn taps(&self, frame: usize) -> (taps: Option<(usize, usize, usize, usize)>)
        ensures
            taps is Some <==> 2 * frame + 6 < self@.buffer.len(),
            taps matches Some((before, at, next, last)) ==> {
                &&& at == 2 * frame
                &&& before == if frame > 0 {
                    2 * frame - 2
                } else {
                    0
                }
                &&& next == 2 * frame + 2
                &&& last == 2 * frame + 4
            },
    {
        let len: usize = self.buffer.len();
        if len <= 6 || frame >= len / 2 || 2 * frame >= len - 6 {
            return None;
        }
        let at: usize = 2 * frame;
        let before: usize = if frame > 0 {
            at - 2
        } else {
            at
        };
        Some((before, at, at + 2, at + 4))
    }

    /// Drops the frames that output has passed.
    pub fn drop_frames(&mut self, frames: usize)
        requires
            old(self)@.wf(),
            old(self).stage is Idle,
        ensures
            final(self)@.wf(),
            final(self)@ == old(self)@.pulled(frames as int),
    {
        if frames <= self.buffer.len() / 2 {
            let _ = take_front(&mut self.buffer, 2 * frames);
        } else {
            self.buffer.clear();
        }
        assert(self@ =~= old(self)@.pulled(frames as int));
    }
}

} // verus!
