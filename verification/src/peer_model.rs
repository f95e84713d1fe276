//! The playback of one peer, as mathematics: what a packet, a refill step or a change of silence
//! makes of the state.

use crate::types::Channels;
use vstd::prelude::*;

verus! {

/// Samples a channel in the longest frame a decoder can return, which lasts 120 ms.
pub const MAX_FRAME: usize = 5760;

/// Samples a channel in a frame of 10 ms.
pub const DEFAULT_FRAME: usize = 480;

/// How far behind playback a packet may come in and still be kept; also the most packets that
/// wait at a time.
pub const HISTORY: u32 = 1000;

/// The highest sequence number a packet may carry.
pub const MAX_SEQUENCE: u32 = 4294966295;

/// The longest that the jitter target grows.
pub const MAX_TARGET: usize = 100;

/// What the channels of a decoded frame become on their way to the output.
#[derive(Debug, Clone, Copy, PartialEq, Eq, Structural)]
pub enum Layout {
    /// As they are.
    Keep,
    /// Each sample twice.
    Duplicate,
    /// The mean of left and right.
    Average,
}

/// How a decoded frame is to be mixed into the samples that wait for output.
#[derive(Debug, Clone, Copy, PartialEq, Eq, Structural)]
pub struct MixPlan {
    /// Samples in the decoded frame.
    pub decoded: usize,
    /// So many leading samples of it rise linearly from silence.
    pub fade_in: usize,
    /// Then its channels are laid out like this,
    pub layout: Layout,
    /// which makes so many samples.
    pub frame: usize,
    /// So many leading samples are blended with those that still wait.
    pub overlap: usize,
}

impl MixPlan {
    /// The numbers of a plan fit together.
    pub open spec fn is_sound(self) -> bool {
        &&& self.fade_in <= self.decoded
        &&& self.frame == laid_out(self.decoded as int, self.layout)
        &&& self.overlap <= self.frame
    }
}

/// What a refill waits for.
#[derive(Debug, Clone, Copy, PartialEq, Eq, Structural)]
pub enum RefillStage {
    /// No refill is under way.
    Idle,
    /// The frame that is due is being decoded.
    Decoding,
    /// A missing frame is being made up, with the help of the packet after it or without.
    Concealing { fec: bool },
    /// Two frames are being decoded into one.
    Crossfading,
    /// A decoded frame is being mixed.
    Mixing(MixPlan),
}

/// What a refill asks its caller to do, with payloads as sequences.
pub enum ActionView {
    Stop,
    StopSilent,
    FadeOut { start: int, len: int },
    Decode { payload: Seq<u8>, capacity: int, fec: bool },
    Crossfade { first: Seq<u8>, second: Seq<u8>, capacity: int },
    Mix(MixPlan),
}

/// What a caller reports to a refill, with samples as a sequence.
pub enum EventView<S> {
    Begin,
    Decoded(Option<int>),
    Crossfaded(Option<(int, int)>),
    Mixed(Seq<S>),
}

/// The state of one peer's playback.
#[verifier::ext_equal]
pub struct PeerView<S> {
    pub channels: Channels,
    pub silence: S,
    /// Samples that wait for output, stereo interleaved.
    pub buffer: Seq<S>,
    /// Packets that wait to be decoded.
    pub jitter: Map<u32, Seq<u8>>,
    pub next: u32,
    pub target: int,
    pub is_buffering: bool,
    pub total_expected: int,
    pub total_lost: int,
    pub good_frames: int,
    pub stat_expected: int,
    pub stat_lost: int,
    pub is_silenced: bool,
    pub awaiting_first_packet: bool,
    pub last_frame_size: int,
    /// Sequence numbers that were given up as lost.
    pub lost: Set<u32>,
    pub silence_frames: int,
    pub played: int,
    pub streak: int,
    pub was_plc: bool,
    pub bytes: int,
    pub ping: int,
    pub stage: RefillStage,
}

pub open spec fn max_of(a: int, b: int) -> int {
    if a >= b {
        a
    } else {
        b
    }
}

pub open spec fn min_of(a: int, b: int) -> int {
    if a <= b {
        a
    } else {
        b
    }
}

/// The number after `k`.
pub open spec fn after(k: u32) -> u32 {
    (k + 1) as u32
}

/// Packets from `limit` on.
pub open spec fn packets_from(jitter: Map<u32, Seq<u8>>, limit: u32) -> Map<u32, Seq<u8>> {
    jitter.restrict(Set::new(|k: u32| k >= limit))
}

/// The plan for a decoded frame of so many samples.
pub open spec fn layout_for(channels: Channels, outputs: int) -> Layout {
    if channels == Channels::Mono && outputs == 2 {
        Layout::Duplicate
    } else if channels == Channels::Stereo && outputs == 1 {
        Layout::Average
    } else {
        Layout::Keep
    }
}

pub open spec fn laid_out(decoded: int, layout: Layout) -> int {
    match layout {
        Layout::Keep => decoded,
        Layout::Duplicate => 2 * decoded,
        Layout::Average => decoded / 2,
    }
}

/// The bytes of every payload.
pub open spec fn payloads(packets: Map<u32, Vec<u8>>) -> Map<u32, Seq<u8>> {
    packets.map_values(|payload: Vec<u8>| payload@)
}

/// Payloads are known by the numbers of their packets.
pub broadcast proof fn lemma_payloads_dom(packets: Map<u32, Vec<u8>>)
    ensures
        #[trigger] payloads(packets).dom() == packets.dom(),
{
    assert(payloads(packets).dom() =~= packets.dom());
}

impl<S> PeerView<S> {
    /// What holds of every peer at any time. No more frames are lost than were expected, in the
    /// running statistics and in all; no more are remembered as lost than were counted; and
    /// every bound that the rest of the client relies on is kept.
    pub open spec fn wf(self) -> bool {
        &&& 0 <= self.stat_lost <= self.stat_expected
        &&& 0 <= self.total_lost <= self.total_expected
        &&& self.lost.finite()
        &&& self.lost.len() <= self.total_lost
        &&& self.jitter.dom().finite()
        &&& self.jitter.dom().len() <= HISTORY
        &&& forall|k: u32| #[trigger] self.jitter.contains_key(k) ==> k <= MAX_SEQUENCE
        &&& 0 <= self.target <= MAX_TARGET
        &&& 0 <= self.last_frame_size <= MAX_FRAME
        &&& 0 <= self.silence_frames < 100
        &&& 0 <= self.played <= 1000
        &&& 0 <= self.good_frames
        &&& 0 <= self.streak
        &&& match self.stage {
            RefillStage::Idle => true,
            RefillStage::Decoding | RefillStage::Crossfading => self.next < u32::MAX,
            RefillStage::Concealing { .. } => {
                &&& self.next < u32::MAX
                &&& !self.is_silenced
                &&& self.stat_lost < self.stat_expected
                &&& self.total_lost < self.total_expected
            },
            RefillStage::Mixing(plan) => plan.is_sound() && plan.overlap <= self.buffer.len(),
        }
    }

    /// A peer that has just joined.
    pub open spec fn fresh(channels: Channels, silence: S) -> Self {
        PeerView {
            channels,
            silence,
            buffer: Seq::empty(),
            jitter: Map::empty(),
            next: 0,
            target: 1,
            is_buffering: true,
            total_expected: 0,
            total_lost: 0,
            good_frames: 0,
            stat_expected: 0,
            stat_lost: 0,
            is_silenced: true,
            awaiting_first_packet: true,
            last_frame_size: DEFAULT_FRAME as int,
            lost: Set::empty(),
            silence_frames: 0,
            played: 0,
            streak: 0,
            was_plc: false,
            bytes: 0,
            ping: 0,
            stage: RefillStage::Idle,
        }
    }

    // ---------------------------------------------------------------- packets

    /// The first packet after silence sets where playback starts, and while packets are only
    /// being collected an earlier one moves the start back.
    pub open spec fn synced_to(self, sequence: u32) -> Self {
        if self.awaiting_first_packet {
            PeerView { next: sequence, awaiting_first_packet: false, ..self }
        } else if self.is_buffering && sequence < self.next {
            PeerView { next: sequence, ..self }
        } else {
            self
        }
    }

    /// A frame that playback has already passed was late, not lost.
    pub open spec fn forgiven(self, sequence: u32) -> Self {
        if self.lost.contains(sequence) {
            PeerView {
                lost: self.lost.remove(sequence),
                stat_lost: max_of(self.stat_lost - 1, 0),
                total_lost: max_of(self.total_lost - 1, 0),
                ..self
            }
        } else {
            self
        }
    }

    /// Late packets well into a stream call for a deeper buffer.
    pub open spec fn wary(self) -> Self {
        if !self.is_buffering && self.played > 50 {
            PeerView { target: min_of(self.target + 1, MAX_TARGET as int), ..self }
        } else {
            self
        }
    }

    /// Takes a packet in, unless it lies too far behind playback.
    pub open spec fn filed(self, sequence: u32, payload: Seq<u8>) -> Self {
        if sequence + HISTORY >= self.next {
            let v = if sequence < self.next {
                self.forgiven(sequence).wary()
            } else {
                self
            };
            PeerView { jitter: v.jitter.insert(sequence, payload), ..v }
        } else {
            self
        }
    }

    /// The oldest packet goes when too many wait.
    pub open spec fn trimmed(self) -> Self {
        if self.jitter.dom().len() > HISTORY {
            PeerView {
                jitter: self.jitter.remove(crate::jitter::lowest(self.jitter.dom())->Some_0),
                ..self
            }
        } else {
            self
        }
    }

    /// What a packet makes of the state.
    pub open spec fn received(self, sequence: u32, payload: Seq<u8>) -> Self {
        PeerView { bytes: self.bytes + payload.len(), ..self }.synced_to(sequence).filed(
            sequence,
            payload,
        ).trimmed()
    }

    // ---------------------------------------------------------------- silence and layout

    /// All audio is dropped, and playback waits for a first packet.
    pub open spec fn restarted(self) -> Self {
        PeerView {
            buffer: Seq::empty(),
            jitter: Map::empty(),
            is_buffering: true,
            awaiting_first_packet: true,
            stage: RefillStage::Idle,
            ..self
        }
    }

    /// A peer that speaks up again starts clean; one that falls silent loses what was under way.
    pub open spec fn silence_set(self, silenced: bool) -> Self {
        if self.is_silenced && !silenced {
            PeerView {
                next: 0,
                target: 3,
                was_plc: false,
                played: 0,
                good_frames: 0,
                stat_expected: 0,
                stat_lost: 0,
                is_silenced: false,
                ..self.restarted()
            }
        } else if !self.is_silenced && silenced {
            PeerView {
                jitter: Map::empty(),
                awaiting_first_packet: true,
                is_buffering: true,
                is_silenced: true,
                stage: RefillStage::Idle,
                ..self
            }
        } else {
            self
        }
    }

    // ---------------------------------------------------------------- refilling

    /// How many frames wait from the one that is due through the newest.
    pub open spec fn queued(self) -> int {
        match crate::jitter::highest(self.jitter.dom()) {
            Some(newest) => max_of(newest + 1 - self.next, 0),
            None => 0,
        }
    }

    /// A hundred refills of silence bring the jitter target down by one.
    pub open spec fn begun(self) -> Self {
        if !self.is_silenced {
            PeerView { silence_frames: 0, ..self }
        } else if self.silence_frames + 1 >= 100 {
            PeerView { silence_frames: 0, target: max_of(self.target - 1, 0), ..self }
        } else {
            PeerView { silence_frames: self.silence_frames + 1, ..self }
        }
    }

    /// The packets collected span at least three frames; after a dropout any packet will do.
    pub open spec fn primed(self) -> bool {
        match (crate::jitter::lowest(self.jitter.dom()), crate::jitter::highest(self.jitter.dom())) {
            (Some(oldest), Some(newest)) => newest + 1 - oldest >= 3 || self.streak > 3,
            _ => false,
        }
    }

    /// Samples to the end of the request, all silent.
    pub open spec fn silent_up_to(self, len: int) -> Self {
        PeerView {
            buffer: self.buffer + Seq::new(
                max_of(len - self.buffer.len(), 0) as nat,
                |i: int| self.silence,
            ),
            ..self
        }
    }

    /// Collecting is over, and the oldest packet is due.
    pub open spec fn started(self) -> Self {
        if self.is_buffering {
            PeerView { is_buffering: false, next: crate::jitter::lowest(self.jitter.dom())->Some_0, ..self }
        } else {
            self
        }
    }

    /// One more frame is expected.
    pub open spec fn expecting(self) -> Self {
        PeerView {
            stat_expected: self.stat_expected + 1,
            total_expected: self.total_expected + 1,
            ..self
        }
    }

    /// Playback that fell more than thirty frames behind jumps to the oldest packet.
    pub open spec fn resynced(self) -> Self {
        match crate::jitter::highest(self.jitter.dom()) {
            Some(newest) if !self.is_silenced && newest > self.next + 30 => PeerView {
                next: crate::jitter::lowest(self.jitter.dom())->Some_0,
                ..self
            },
            _ => self,
        }
    }

    /// So many queued frames are too many for the target, and the next two can be joined.
    pub open spec fn catches_up(self, queued: int) -> bool {
        &&& self.played > 100
        &&& queued > self.target + 5
        &&& self.jitter.contains_key(self.next)
        &&& self.jitter.contains_key(after(self.next))
    }

    /// Samples a channel that a concealed frame gets when no packet helps.
    pub open spec fn concealed_size(self) -> int {
        if self.last_frame_size > 0 {
            self.last_frame_size
        } else {
            DEFAULT_FRAME as int
        }
    }

    /// A missing frame made up from nothing.
    pub open spec fn concealing_blind(self) -> (Self, ActionView) {
        (
            PeerView { stage: RefillStage::Concealing { fec: false }, ..self },
            ActionView::Decode {
                payload: Seq::empty(),
                capacity: self.concealed_size() * self.channels.width(),
                fec: false,
            },
        )
    }

    /// How many samples fade when audio ends.
    pub open spec fn fade_out(self) -> int {
        min_of(160, self.buffer.len() as int / 2 * 2)
    }

    /// Picks what to decode: two frames at once, the one that is due, or a replacement for it.
    pub open spec fn picked(self, queued: int) -> (Self, ActionView) {
        let full = MAX_FRAME * self.channels.width();
        if self.catches_up(queued) {
            (
                PeerView {
                    jitter: self.jitter.remove(self.next).remove(after(self.next)),
                    next: (self.next + 2) as u32,
                    stage: RefillStage::Crossfading,
                    ..self
                },
                ActionView::Crossfade {
                    first: self.jitter[self.next],
                    second: self.jitter[after(self.next)],
                    capacity: self.last_frame_size,
                },
            )
        } else if self.jitter.contains_key(self.next) {
            (
                PeerView {
                    jitter: self.jitter.remove(self.next),
                    stage: RefillStage::Decoding,
                    ..self
                },
                ActionView::Decode {
                    payload: self.jitter[self.next],
                    capacity: full,
                    fec: false,
                },
            )
        } else if self.is_silenced {
            (
                PeerView { was_plc: true, stage: RefillStage::Idle, ..self },
                ActionView::FadeOut {
                    start: self.buffer.len() - self.fade_out(),
                    len: self.fade_out(),
                },
            )
        } else if self.jitter.contains_key(after(self.next)) {
            (
                PeerView { stage: RefillStage::Concealing { fec: true }, ..self },
                ActionView::Decode {
                    payload: self.jitter[after(self.next)],
                    capacity: full,
                    fec: true,
                },
            )
        } else {
            self.concealing_blind()
        }
    }

    /// The refill goes on until enough samples wait. Before the first packet it does nothing,
    /// and while packets are being collected it fills up with silence.
    pub open spec fn advanced(self, pcm_len: int) -> (Self, ActionView) {
        if self.buffer.len() >= pcm_len || self.awaiting_first_packet {
            (PeerView { stage: RefillStage::Idle, ..self }, ActionView::Stop)
        } else if self.is_buffering && !self.primed() {
            (
                PeerView { stage: RefillStage::Idle, ..self.silent_up_to(pcm_len) },
                ActionView::StopSilent,
            )
        } else {
            let v = self.started().expecting();
            v.resynced().picked(v.queued())
        }
    }

    /// The frame that was due has been decoded, or could not be.
    pub open spec fn frame_decoded(self, samples: Option<int>) -> Self {
        PeerView {
            next: after(self.next),
            good_frames: self.good_frames + 1,
            streak: 0,
            last_frame_size: match samples {
                Some(n) => n,
                None => self.last_frame_size,
            },
            stage: RefillStage::Idle,
            ..self
        }
    }

    /// Every eighth frame of a long dropout asks for a deeper buffer.
    pub open spec fn strained(self) -> Self {
        if self.streak > 8 && self.streak % 8 == 0 {
            PeerView { target: min_of(self.target + 1, 60), ..self }
        } else {
            self
        }
    }

    /// The frame that was due is given up as lost. A dropout that nothing follows ends playback
    /// until packets have been collected again.
    pub open spec fn frame_lost(self, samples: Option<int>) -> Self {
        let followed = match crate::jitter::highest(self.jitter.dom()) {
            Some(newest) => newest > self.next,
            None => false,
        };
        PeerView {
            next: after(self.next),
            streak: self.streak + 1,
            good_frames: max_of(self.good_frames - 2, 0),
            total_lost: self.total_lost + 1,
            stat_lost: self.stat_lost + 1,
            lost: self.lost.insert(self.next),
            is_buffering: self.is_buffering || (!followed && self.streak + 1 > 15),
            last_frame_size: match samples {
                Some(n) if n > 0 => n,
                _ => self.last_frame_size,
            },
            stage: RefillStage::Idle,
            ..self
        }
    }

    /// Left and right stay apart: an odd sample at the end goes.
    pub open spec fn evened(self) -> Self {
        if self.buffer.len() % 2 != 0 {
            PeerView { buffer: self.buffer.drop_last(), ..self }
        } else {
            self
        }
    }

    /// Enough packets wait, so there is nothing to collect.
    pub open spec fn supplied(self) -> Self {
        if self.is_buffering && self.jitter.dom().len() > max_of(self.target, 1) {
            PeerView { is_buffering: false, ..self }
        } else {
            self
        }
    }

    /// Nothing could be decoded: silence for the rest of the request, an even number of samples.
    pub open spec fn muted(self, pcm_len: int) -> Self {
        let needed = (max_of(pcm_len - self.buffer.len(), 0) + 1) / 2 * 2;
        PeerView {
            buffer: self.buffer + Seq::new(needed as nat, |i: int| self.silence),
            was_plc: self.was_plc || needed > 0,
            stage: RefillStage::Idle,
            ..self
        }
    }

    /// How a decoded frame of so many samples is mixed in.
    pub open spec fn plan(self, decoded: int, outputs: int) -> MixPlan {
        let layout = layout_for(self.channels, outputs);
        let frame = laid_out(decoded, layout);
        MixPlan {
            decoded: decoded as usize,
            fade_in: if self.played < 2 && self.buffer.len() == 0 && !self.was_plc {
                min_of(128, decoded) as usize
            } else {
                0
            },
            layout,
            frame: frame as usize,
            overlap: if self.was_plc {
                min_of(self.buffer.len() as int, min_of(240, frame / 2 * 2)) as usize
            } else {
                0
            },
        }
    }

    /// Frames without loss that earn a shallower buffer: half a second of them.
    pub open spec fn good_run(self) -> int {
        let ms = self.last_frame_size * 1000 / 48000;
        if ms > 0 {
            500int / ms
        } else {
            50
        }
    }

    /// Half a second of good audio brings the target down by one, though not to zero.
    pub open spec fn rewarded(self) -> Self {
        if self.good_frames >= self.good_run() {
            PeerView { good_frames: 0, target: max_of(self.target - 1, 1), ..self }
        } else {
            self
        }
    }

    /// What playback has passed is dropped.
    pub open spec fn swept(self) -> Self {
        PeerView {
            jitter: packets_from(self.jitter, self.next),
            lost: self.lost.filter(|k: u32| k >= self.next - HISTORY),
            ..self
        }
    }

    /// A frame of so many samples is ready to be mixed in. After concealed audio all that waits
    /// but the part to blend is dropped, so that playback catches up at once.
    pub open spec fn mixing(self, skipped: bool, decoded: int, outputs: int) -> (Self, ActionView) {
        let v = PeerView {
            played: if skipped {
                self.played
            } else {
                min_of(self.played + 1, 1000)
            },
            ..self
        };
        let plan = v.plan(decoded, outputs);
        let blends = v.was_plc && v.buffer.len() > 0;
        let w = PeerView {
            buffer: if blends {
                v.buffer.skip(v.buffer.len() - plan.overlap)
            } else {
                v.buffer
            },
            was_plc: !blends && skipped,
            stage: RefillStage::Mixing(plan),
            ..v
        };
        (w.rewarded().swept(), ActionView::Mix(plan))
    }

    /// What follows once a frame has been decoded or given up.
    pub open spec fn finished(
        self,
        skipped: bool,
        decoded: Option<int>,
        pcm_len: int,
        outputs: int,
    ) -> (Self, ActionView) {
        let v = self.evened().supplied();
        match decoded {
            Some(n) => v.mixing(skipped, n, outputs),
            None => (v.muted(pcm_len), ActionView::StopSilent),
        }
    }

    /// A mixed frame joins the samples that wait.
    pub open spec fn mixed(self, plan: MixPlan, frame: Seq<S>) -> Self {
        PeerView {
            buffer: self.buffer.take(self.buffer.len() - plan.overlap) + frame,
            stage: RefillStage::Idle,
            ..self
        }
    }

    /// Output has passed so many frames, and they are dropped.
    pub open spec fn pulled(self, frames: int) -> Self {
        PeerView {
            buffer: if 2 * frames <= self.buffer.len() {
                self.buffer.skip(2 * frames)
            } else {
                Seq::empty()
            },
            ..self
        }
    }

    /// One step of a refill: from the state and what happened to the next state and what to do.
    pub open spec fn step(self, event: EventView<S>, pcm_len: int, outputs: int) -> (
        Self,
        ActionView,
    ) {
        let width = self.channels.width();
        match (self.stage, event) {
            (RefillStage::Idle, EventView::Begin) => self.begun().advanced(pcm_len),
            (RefillStage::Decoding, EventView::Decoded(samples)) => self.frame_decoded(
                samples,
            ).finished(
                false,
                match samples {
                    Some(n) => Some(n * width),
                    None => None,
                },
                pcm_len,
                outputs,
            ),
            (RefillStage::Concealing { fec: true }, EventView::Decoded(None)) =>
                self.concealing_blind(),
            (RefillStage::Concealing { fec }, EventView::Decoded(samples)) => {
                let v = if !fec && samples is Some {
                    self.strained()
                } else {
                    self
                };
                v.frame_lost(samples).finished(
                    false,
                    match samples {
                        Some(n) if n > 0 => Some(n * width),
                        _ => None,
                    },
                    pcm_len,
                    outputs,
                )
            },
            (RefillStage::Crossfading, EventView::Crossfaded(Some((first, _)))) => PeerView {
                good_frames: self.good_frames + 2,
                stage: RefillStage::Idle,
                ..self.expecting()
            }.finished(true, Some(first * width), pcm_len, outputs),
            (RefillStage::Crossfading, EventView::Crossfaded(None)) => PeerView {
                next: after(self.next),
                stage: RefillStage::Idle,
                ..self
            }.advanced(pcm_len),
            (RefillStage::Mixing(plan), EventView::Mixed(frame)) => self.mixed(
                plan,
                frame,
            ).advanced(pcm_len),
            _ => (self, ActionView::Stop),
        }
    }

    /// The event is an answer to what the refill asked for.
    pub open spec fn expects(self, event: EventView<S>) -> bool {
        match (self.stage, event) {
            (RefillStage::Idle, EventView::Begin) => true,
            (RefillStage::Decoding, EventView::Decoded(samples)) | (
                RefillStage::Concealing { .. },
                EventView::Decoded(samples),
            ) => samples matches Some(n) ==> 0 <= n <= MAX_FRAME,
            (RefillStage::Crossfading, EventView::Crossfaded(samples)) => samples matches Some(
                (first, second),
            ) ==> {
                &&& 0 <= first * self.channels.width() <= self.last_frame_size
                &&& 0 <= second * self.channels.width() <= self.last_frame_size
            },
            (RefillStage::Mixing(plan), EventView::Mixed(frame)) => frame.len() == plan.frame,
            _ => false,
        }
    }

    /// Counters and sequence numbers have room for picking a frame, once so many samples wait and
    /// the frame `next` is due.
    pub open spec fn room_for(self, waiting: int, next: u32, pcm_len: int) -> bool {
        ||| waiting >= pcm_len
        ||| self.awaiting_first_packet
        ||| self.is_buffering && !self.primed()
        ||| {
            &&& self.stat_expected < u32::MAX
            &&& self.total_expected < u32::MAX
            &&& self.is_silenced || self.is_buffering || next + (if self.jitter.dom().len() > 0 {
                30int
            } else {
                1
            }) <= u32::MAX
        }
    }

    pub open spec fn can_advance(self, pcm_len: int) -> bool {
        self.room_for(self.buffer.len() as int, self.next, pcm_len)
    }

    /// Counters and sequence numbers have room for the step.
    pub open spec fn has_room(self, event: EventView<S>, pcm_len: int) -> bool {
        match (self.stage, event) {
            (RefillStage::Idle, EventView::Begin) => self.can_advance(pcm_len),
            (RefillStage::Decoding, EventView::Decoded(_)) => self.good_frames < u32::MAX,
            (RefillStage::Concealing { fec: true }, EventView::Decoded(None)) => true,
            (RefillStage::Concealing { .. }, EventView::Decoded(_)) => self.streak < u32::MAX,
            (RefillStage::Crossfading, EventView::Crossfaded(Some(_))) => {
                &&& self.stat_expected < u32::MAX
                &&& self.total_expected < u32::MAX
                &&& self.good_frames + 2 <= u32::MAX
            },
            (RefillStage::Crossfading, EventView::Crossfaded(None)) => PeerView {
                next: after(self.next),
                stage: RefillStage::Idle,
                ..self
            }.can_advance(pcm_len),
            (RefillStage::Mixing(plan), EventView::Mixed(frame)) => self.mixed(
                plan,
                frame,
            ).can_advance(pcm_len),
            _ => true,
        }
    }
}

/// A packet keeps a peer well formed.
pub proof fn lemma_received_wf<S>(v: PeerView<S>, sequence: u32, payload: Seq<u8>)
    requires
        v.wf(),
        sequence <= MAX_SEQUENCE,
    ensures
        v.received(sequence, payload).wf(),
{
    let synced = PeerView { bytes: v.bytes + payload.len(), ..v }.synced_to(sequence);
    let filed = synced.filed(sequence, payload);
    assert(filed.jitter.dom() == v.jitter.dom() || filed.jitter.dom() =~= v.jitter.dom().insert(
        sequence,
    ));
    if filed.jitter.dom().len() > HISTORY {
        let keys = filed.jitter.dom();
        crate::jitter::lemma_has_lowest(keys);
        assert(filed.trimmed().jitter.dom() =~= keys.remove(crate::jitter::lowest(keys)->Some_0));
    }
}

/// Picking a frame keeps a peer well formed.
pub proof fn lemma_advanced_wf<S>(v: PeerView<S>, pcm_len: int)
    requires
        v.wf(),
        v.can_advance(pcm_len),
    ensures
        v.advanced(pcm_len).0.wf(),
{
    if v.buffer.len() >= pcm_len || v.awaiting_first_packet || (v.is_buffering && !v.primed()) {
    } else {
        let keys = v.jitter.dom();
        if keys.len() > 0 {
            crate::jitter::lemma_has_lowest(keys);
            crate::jitter::lemma_has_highest(keys);
        } else {
            crate::jitter::lemma_no_bounds(keys);
        }
        let w = v.started().expecting().resynced();
        assert(w.jitter == v.jitter);
        assert(w.wf());
        assert(w.jitter.remove(w.next).dom() =~= keys.remove(w.next));
        assert(w.jitter.remove(w.next).remove(after(w.next)).dom() =~= keys.remove(w.next).remove(
            after(w.next),
        ));
    }
}

/// Sweeping keeps a peer well formed.
pub proof fn lemma_swept_wf<S>(v: PeerView<S>)
    requires
        v.wf(),
    ensures
        v.swept().wf(),
{
    assert(v.swept().jitter.dom() =~= v.jitter.dom().intersect(Set::new(|k: u32| k >= v.next)));
    vstd::set_lib::lemma_len_intersect(v.jitter.dom(), Set::new(|k: u32| k >= v.next));
    let kept = |k: u32| k >= v.next - HISTORY;
    assert(v.swept().lost =~= v.lost.intersect(Set::new(kept)));
    vstd::set_lib::lemma_len_intersect(v.lost, Set::new(kept));
}

/// What follows a decoded frame keeps a peer well formed.
pub proof fn lemma_finished_wf<S>(
    v: PeerView<S>,
    skipped: bool,
    decoded: Option<int>,
    pcm_len: int,
    outputs: int,
)
    requires
        v.wf(),
        v.stage is Idle,
        decoded matches Some(n) ==> 0 <= n <= 2 * MAX_FRAME,
    ensures
        v.finished(skipped, decoded, pcm_len, outputs).0.wf(),
{
    let e = v.evened().supplied();
    assert(e.wf());
    match decoded {
        Some(n) => {
            let p = PeerView {
                played: if skipped {
                    e.played
                } else {
                    min_of(e.played + 1, 1000)
                },
                ..e
            };
            let plan = p.plan(n, outputs);
            let blends = p.was_plc && p.buffer.len() > 0;
            let w = PeerView {
                buffer: if blends {
                    p.buffer.skip(p.buffer.len() - plan.overlap)
                } else {
                    p.buffer
                },
                was_plc: !blends && skipped,
                stage: RefillStage::Mixing(plan),
                ..p
            };
            assert(w.wf());
            lemma_swept_wf(w.rewarded());
        },
        None => {},
    }
}

/// A refill step keeps a peer well formed.
pub proof fn lemma_step_wf<S>(v: PeerView<S>, event: EventView<S>, pcm_len: int, outputs: int)
    requires
        v.wf(),
        v.expects(event),
        v.has_room(event, pcm_len),
    ensures
        v.step(event, pcm_len, outputs).0.wf(),
{
    let width = v.channels.width();
    match (v.stage, event) {
        (RefillStage::Idle, EventView::Begin) => {
            lemma_advanced_wf(v.begun(), pcm_len);
        },
        (RefillStage::Decoding, EventView::Decoded(samples)) => {
            let decoded = match samples {
                Some(n) => Some(n * width),
                None => None,
            };
            lemma_finished_wf(v.frame_decoded(samples), false, decoded, pcm_len, outputs);
        },
        (RefillStage::Concealing { fec: true }, EventView::Decoded(None)) => {},
        (RefillStage::Concealing { fec }, EventView::Decoded(samples)) => {
            let s = if !fec && samples is Some {
                v.strained()
            } else {
                v
            };
            let decoded = match samples {
                Some(n) if n > 0 => Some(n * width),
                _ => None,
            };
            assert(s.frame_lost(samples).wf());
            lemma_finished_wf(s.frame_lost(samples), false, decoded, pcm_len, outputs);
        },
        (RefillStage::Crossfading, EventView::Crossfaded(Some((first, _)))) => {
            let w = PeerView {
                good_frames: v.good_frames + 2,
                stage: RefillStage::Idle,
                ..v.expecting()
            };
            lemma_finished_wf(w, true, Some(first * width), pcm_len, outputs);
        },
        (RefillStage::Crossfading, EventView::Crossfaded(None)) => {
            lemma_advanced_wf(
                PeerView { next: after(v.next), stage: RefillStage::Idle, ..v },
                pcm_len,
            );
        },
        (RefillStage::Mixing(plan), EventView::Mixed(frame)) => {
            lemma_advanced_wf(v.mixed(plan, frame), pcm_len);
        },
        _ => {},
    }
}

} // verus!
