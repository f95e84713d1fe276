//! A whole refill: the steps of a peer's playback, carried out with a decoder until enough samples
//! wait.

use crate::mix::{crossfade, fade_out, SampleMath};
use crate::peer::{PeerState, RefillAction, RefillEvent};
use crate::peer_model::{ActionView, EventView, PeerView, RefillStage, MAX_FRAME};
use crate::samples::append_samples;
use vstd::prelude::*;

verus! {

/// A decoder of audio frames.
pub trait FrameDecoder<S>: Sized {
    /// Decodes a payload, or the redundant copy of the frame before it, into at most so many
    /// samples. The result is the decoder as it is afterwards, and, if the payload could be
    /// decoded, the number of samples a channel and the samples.
    fn decode(self, payload: &Vec<u8>, capacity: usize, fec: bool) -> (
        Self,
        Option<(usize, Vec<S>)>,
    );

    /// The decoder with all that it has heard forgotten.
    fn reset(self) -> Self;
}

/// What came of a refill.
pub enum RefillResult<S> {
    /// Frames were played. The last one that was decoded comes along, if there was any.
    Played(Option<Vec<S>>),
    /// What was added last is silent.
    Silent,
    /// A counter has run out, in the middle of the refill.
    Exhausted,
}

/// One turn of a refill: what was reported, the decoder afterwards, and the samples that were
/// decoded last.
pub struct Turn<S, D> {
    pub event: EventView<S>,
    pub decoder: D,
    pub samples: Seq<S>,
}

/// What an event makes of a peer, for a stereo device, and what it asks for.
#[verifier::opaque]
pub open spec fn turned<S>(v: PeerView<S>, event: EventView<S>, pcm_len: int) -> (
    PeerView<S>,
    ActionView,
) {
    v.step(event, pcm_len, 2)
}

/// What a series of turns makes of a peer, for a stereo device, and what it asks for last.
pub open spec fn run<S, D>(v: PeerView<S>, turns: Seq<Turn<S, D>>, pcm_len: int) -> (
    PeerView<S>,
    ActionView,
)
    decreases turns.len(),
{
    if turns.len() == 0 {
        (v, ActionView::Stop)
    } else {
        turned(run(v, turns.drop_last(), pcm_len).0, turns.last().event, pcm_len)
    }
}

/// The decoder after a series of turns.
pub open spec fn decoder_after<S, D>(start: D, turns: Seq<Turn<S, D>>) -> D {
    if turns.len() == 0 {
        start
    } else {
        turns.last().decoder
    }
}

/// The samples that were decoded last in a series of turns.
pub open spec fn samples_after<S, D>(turns: Seq<Turn<S, D>>) -> Seq<S> {
    if turns.len() == 0 {
        Seq::empty()
    } else {
        turns.last().samples
    }
}

/// A decoder's answer keeps to what it was allowed to give: no more than so many samples a
/// channel, and as many samples as it says.
pub open spec fn keeps_to<S>(answer: Option<(usize, Vec<S>)>, width: int, limit: int) -> bool {
    answer matches Some((n, samples)) && n <= limit && samples@.len() == n * width
}

/// What is taken of a decoder's answer. One that does not keep to its limit counts as none.
pub open spec fn taken<S>(answer: Option<(usize, Vec<S>)>, width: int, limit: int) -> Option<
    (int, Seq<S>),
> {
    match answer {
        Some((n, samples)) => if keeps_to(answer, width, limit) {
            Some((n as int, samples@))
        } else {
            None
        },
        None => None,
    }
}

/// A decoder was handed a payload, became another, and gave the frame.
pub open spec fn replies<S, D: FrameDecoder<S>>(
    before: D,
    after: D,
    payload: Seq<u8>,
    capacity: int,
    fec: bool,
    width: int,
    limit: int,
    frame: Option<(int, Seq<S>)>,
) -> bool {
    exists|data: Vec<u8>, room: usize, answer: Option<(usize, Vec<S>)>|
        #![trigger call_ensures(D::decode, (before, &data, room, fec), (after, answer))]
        {
            &&& data@ == payload
            &&& room == capacity
            &&& call_ensures(D::decode, (before, &data, room, fec), (after, answer))
            &&& frame == taken(answer, width, limit)
        }
}

/// The event reports a decoded frame, mixed as a peer's refill asked for it.
pub open spec fn is_mixed_from<S: Copy, M: SampleMath<S>>(
    math: &M,
    w: PeerView<S>,
    event: EventView<S>,
    decoded: Seq<S>,
) -> bool {
    match (w.stage, event) {
        (RefillStage::Mixing(plan), EventView::Mixed(frame)) => crate::mix::follows_plan(
            math,
            plan,
            decoded,
            w.buffer.skip(w.buffer.len() - plan.overlap),
            frame,
        ),
        _ => false,
    }
}

/// The turn reports what a decoder gave for one payload.
pub open spec fn reports_frame<S, D>(turn: Turn<S, D>, frame: Option<(int, Seq<S>)>) -> bool {
    match frame {
        Some((n, samples)) => turn.event == EventView::<S>::Decoded(Some(n)) && turn.samples
            == samples,
        None => turn.event == EventView::<S>::Decoded(None) && turn.samples.len() == 0,
    }
}

/// The turn reports the fade between what a decoder gave for two payloads.
pub open spec fn reports_fade<S: Copy, D, M: SampleMath<S>>(
    math: &M,
    turn: Turn<S, D>,
    one: Option<(int, Seq<S>)>,
    two: Option<(int, Seq<S>)>,
) -> bool {
    match (one, two) {
        (Some((a, first)), Some((b, second))) => {
            &&& turn.event == EventView::<S>::Crossfaded(Some((a, b)))
            &&& crate::mix::is_crossfaded(math, first, second, turn.samples)
        },
        _ => turn.event == EventView::<S>::Crossfaded(None) && turn.samples.len() == 0,
    }
}

/// A decoder was handed two payloads, one behind the other, and the turn reports the fade between
/// what it gave for them.
pub open spec fn fades<S: Copy, D: FrameDecoder<S>, M: SampleMath<S>>(
    math: &M,
    width: int,
    first: Seq<u8>,
    second: Seq<u8>,
    capacity: int,
    decoder: D,
    between: D,
    turn: Turn<S, D>,
    one: Option<(int, Seq<S>)>,
    two: Option<(int, Seq<S>)>,
) -> bool {
    let limit = capacity / width;
    &&& replies(decoder, between, first, capacity, false, width, limit, one)
    &&& replies(between, turn.decoder, second, capacity, false, width, limit, two)
    &&& reports_fade(math, turn, one, two)
}

/// A turn hands a decoder one payload and reports what it gave.
pub open spec fn decodes<S, D: FrameDecoder<S>>(
    width: int,
    payload: Seq<u8>,
    capacity: int,
    fec: bool,
    decoder: D,
    turn: Turn<S, D>,
) -> bool {
    exists|frame: Option<(int, Seq<S>)>|
        #![trigger reports_frame(turn, frame)]
        {
            &&& replies(
                decoder,
                turn.decoder,
                payload,
                capacity,
                fec,
                width,
                MAX_FRAME as int,
                frame,
            )
            &&& reports_frame(turn, frame)
        }
}

/// A turn hands a decoder two payloads, one behind the other, and reports the fade between what
/// it gave for them.
pub open spec fn crossfades<S: Copy, D: FrameDecoder<S>, M: SampleMath<S>>(
    math: &M,
    width: int,
    first: Seq<u8>,
    second: Seq<u8>,
    capacity: int,
    decoder: D,
    turn: Turn<S, D>,
) -> bool {
    exists|between: D, one: Option<(int, Seq<S>)>, two: Option<(int, Seq<S>)>|
        fades(math, width, first, second, capacity, decoder, between, turn, one, two)
}

/// A turn does what a peer's refill asked for, with the decoder as it was and the samples that
/// were decoded last.
#[verifier::opaque]
pub open spec fn does<S: Copy, D: FrameDecoder<S>, M: SampleMath<S>>(
    math: &M,
    w: PeerView<S>,
    action: ActionView,
    decoder: D,
    decoded: Seq<S>,
    turn: Turn<S, D>,
) -> bool {
    let width = w.channels.width();
    match action {
        ActionView::Decode { payload, capacity, fec } => decodes(
            width,
            payload,
            capacity,
            fec,
            decoder,
            turn,
        ),
        ActionView::Crossfade { first, second, capacity } => crossfades(
            math,
            width,
            first,
            second,
            capacity,
            decoder,
            turn,
        ),
        ActionView::Mix(_) => {
            &&& turn.decoder == decoder
            &&& turn.samples == decoded
            &&& is_mixed_from(math, w, turn.event, decoded)
        },
        _ => false,
    }
}

/// A turn fits behind earlier ones: it begins the refill, or it does what was asked for last.
pub open spec fn follows<S: Copy, D: FrameDecoder<S>, M: SampleMath<S>>(
    math: &M,
    before: PeerView<S>,
    start: D,
    earlier: Seq<Turn<S, D>>,
    pcm_len: int,
    turn: Turn<S, D>,
) -> bool {
    let (w, action) = run(before, earlier, pcm_len);
    &&& w.expects(turn.event)
    &&& if earlier.len() == 0 {
        turn.event is Begin && turn.decoder == start && turn.samples.len() == 0
    } else {
        does(math, w, action, decoder_after(start, earlier), samples_after(earlier), turn)
    }
}

/// The turns are those of a refill, each with room for its numbers.
pub open spec fn is_trace<S: Copy, D: FrameDecoder<S>, M: SampleMath<S>>(
    math: &M,
    before: PeerView<S>,
    start: D,
    turns: Seq<Turn<S, D>>,
    pcm_len: int,
) -> bool
    decreases turns.len(),
{
    turns.len() > 0 ==> {
        let earlier = turns.drop_last();
        &&& is_trace(math, before, start, earlier, pcm_len)
        &&& follows(math, before, start, earlier, pcm_len, turns.last())
        &&& run(before, earlier, pcm_len).0.has_room(turns.last().event, pcm_len)
    }
}

/// `last` is the frame that was decoded for the last mixing, if there was any.
pub open spec fn is_last_frame<S, D>(turns: Seq<Turn<S, D>>, last: Option<Vec<S>>) -> bool
    decreases turns.len(),
{
    if turns.len() == 0 {
        last is None
    } else if turns.last().event is Mixed {
        last matches Some(decoded) && decoded@ == turns.last().samples
    } else {
        is_last_frame(turns.drop_last(), last)
    }
}

/// A turn fits behind the others for whose numbers there is no room. It leaves the decoder so.
pub open spec fn is_exhausted<S: Copy, D: FrameDecoder<S>, M: SampleMath<S>>(
    math: &M,
    before: PeerView<S>,
    start: D,
    end: D,
    turns: Seq<Turn<S, D>>,
    pcm_len: int,
) -> bool {
    exists|turn: Turn<S, D>|
        #![trigger follows(math, before, start, turns, pcm_len, turn)]
        {
            &&& follows(math, before, start, turns, pcm_len, turn)
            &&& turn.decoder == end
            &&& !run(before, turns, pcm_len).0.has_room(turn.event, pcm_len)
        }
}

/// What a series of turns leaves behind when it ends: the state that it leads to, with its end
/// faded out where that was the last thing asked for. A refill that ran out of numbers stops where
/// the next turn has no room.
pub open spec fn ends<S: Copy, D: FrameDecoder<S>, M: SampleMath<S>>(
    math: &M,
    before: PeerView<S>,
    after: PeerView<S>,
    start: D,
    end: D,
    turns: Seq<Turn<S, D>>,
    pcm_len: int,
    result: RefillResult<S>,
) -> bool {
    let (w, action) = run(before, turns, pcm_len);
    match result {
        RefillResult::Played(last) => {
            &&& turns.len() > 0
            &&& end == turns.last().decoder
            &&& action is Stop
            &&& after == w
            &&& is_last_frame(turns, last)
        },
        RefillResult::Silent => {
            &&& turns.len() > 0
            &&& end == turns.last().decoder
            &&& match action {
                ActionView::StopSilent => after == w,
                ActionView::FadeOut { start: from, len } => {
                    &&& after == PeerView { buffer: after.buffer, ..w }
                    &&& crate::mix::falls(math, w.buffer, after.buffer, from, len)
                },
                _ => false,
            }
        },
        RefillResult::Exhausted => {
            &&& after == w
            &&& is_exhausted(math, before, start, end, turns, pcm_len)
        },
    }
}

/// A refill took a peer and a decoder from one state to another.
pub open spec fn is_refilled<S: Copy, D: FrameDecoder<S>, M: SampleMath<S>>(
    math: &M,
    before: PeerView<S>,
    after: PeerView<S>,
    start: D,
    end: D,
    pcm_len: int,
    result: RefillResult<S>,
) -> bool {
    exists|turns: Seq<Turn<S, D>>|
        #![trigger is_trace(math, before, start, turns, pcm_len)]
        {
            &&& is_trace(math, before, start, turns, pcm_len)
            &&& ends(math, before, after, start, end, turns, pcm_len, result)
        }
}

/// What one more turn adds to a refill.
proof fn lemma_turn<S: Copy, D: FrameDecoder<S>, M: SampleMath<S>>(
    math: &M,
    before: PeerView<S>,
    start: D,
    turns: Seq<Turn<S, D>>,
    pcm_len: int,
    turn: Turn<S, D>,
)
    requires
        is_trace(math, before, start, turns, pcm_len),
        follows(math, before, start, turns, pcm_len, turn),
        run(before, turns, pcm_len).0.has_room(turn.event, pcm_len),
    ensures
        is_trace(math, before, start, turns.push(turn), pcm_len),
        run(before, turns.push(turn), pcm_len) == turned(
            run(before, turns, pcm_len).0,
            turn.event,
            pcm_len,
        ),
        decoder_after(start, turns.push(turn)) == turn.decoder,
        samples_after(turns.push(turn)) == turn.samples,
        forall|last: Option<Vec<S>>| #[trigger]
            is_last_frame(turns.push(turn), last) == if turn.event is Mixed {
                last matches Some(decoded) && decoded@ == turn.samples
            } else {
                is_last_frame(turns, last)
            },
{
    assert(turns.push(turn).drop_last() =~= turns);
}

/// How many samples there are for mixing after an event, with so many at hand before it.
pub open spec fn brought<S>(v: PeerView<S>, event: EventView<S>, held: int) -> int {
    match event {
        EventView::Mixed(_) => held,
        EventView::Decoded(Some(n)) => n * v.channels.width(),
        EventView::Crossfaded(Some((n, _))) => n * v.channels.width(),
        _ => 0,
    }
}

/// What is asked for says where the refill stands, and a frame that is to be mixed has so many
/// samples.
pub open spec fn tells_stage<S>(w: PeerView<S>, action: ActionView, samples: int) -> bool {
    match action {
        ActionView::Decode { .. } => w.stage is Decoding || w.stage is Concealing,
        ActionView::Crossfade { capacity, .. } => w.stage is Crossfading && capacity
            == w.last_frame_size,
        ActionView::Mix(plan) => w.stage == RefillStage::Mixing(plan) && plan.decoded == samples,
        ActionView::FadeOut { start, len } => w.stage is Idle && 0 <= start && 0 <= len && start
            + len == w.buffer.len(),
        _ => w.stage is Idle,
    }
}

/// Picking a frame never asks for mixing.
proof fn lemma_advanced_tells_stage<S>(v: PeerView<S>, pcm_len: int, samples: int)
    ensures
        tells_stage(v.advanced(pcm_len).0, v.advanced(pcm_len).1, samples),
{
}

/// A frame that was brought is the one that is mixed.
proof fn lemma_finished_tells_stage<S>(
    v: PeerView<S>,
    skipped: bool,
    decoded: Option<int>,
    pcm_len: int,
)
    requires
        decoded matches Some(n) ==> 0 <= n <= 2 * MAX_FRAME,
    ensures
        tells_stage(
            v.finished(skipped, decoded, pcm_len, 2).0,
            v.finished(skipped, decoded, pcm_len, 2).1,
            match decoded {
                Some(n) => n,
                None => 0,
            },
        ),
{
}

/// A step asks for what fits where the refill stands.
proof fn lemma_step_tells_stage<S>(
    v: PeerView<S>,
    event: EventView<S>,
    pcm_len: int,
    held: int,
)
    requires
        v.wf(),
        v.expects(event),
    ensures
        tells_stage(
            v.step(event, pcm_len, 2).0,
            v.step(event, pcm_len, 2).1,
            brought(v, event, held),
        ),
{
    let width = v.channels.width();
    match (v.stage, event) {
        (RefillStage::Idle, EventView::Begin) => {
            lemma_advanced_tells_stage(v.begun(), pcm_len, 0);
        },
        (RefillStage::Decoding, EventView::Decoded(samples)) => {
            let decoded = match samples {
                Some(n) => Some(n * width),
                None => None,
            };
            lemma_finished_tells_stage(v.frame_decoded(samples), false, decoded, pcm_len);
        },
        (RefillStage::Concealing { fec: true }, EventView::Decoded(None)) => {},
        (RefillStage::Concealing { fec }, EventView::Decoded(samples)) => {
            let s = if !fec && samples is Some {
                v.strained()
            } else {
                v
            };
            let decoded = match samples {
                Some(n) if n > 0 => Some(n * width),
                _ => None,
            };
            lemma_finished_tells_stage(s.frame_lost(samples), false, decoded, pcm_len);
        },
        (RefillStage::Crossfading, EventView::Crossfaded(Some((first, _)))) => {
            let w = PeerView {
                good_frames: v.good_frames + 2,
                stage: RefillStage::Idle,
                ..v.expecting()
            };
            lemma_finished_tells_stage(w, true, Some(first * width), pcm_len);
        },
        (RefillStage::Crossfading, EventView::Crossfaded(None)) => {
            let w = PeerView {
                next: crate::peer_model::after(v.next),
                stage: RefillStage::Idle,
                ..v
            };
            lemma_advanced_tells_stage(w, pcm_len, 0);
        },
        (RefillStage::Mixing(plan), EventView::Mixed(frame)) => {
            lemma_advanced_tells_stage(v.mixed(plan, frame), pcm_len, held);
        },
        _ => {},
    }
}

/// A refill stands where what it asks for says, and stops only where it may.
pub open spec fn stands<S>(w: PeerView<S>, action: ActionView, samples: int, pcm_len: int) -> bool {
    &&& tells_stage(w, action, samples)
    &&& crate::peer_laws::is_short(w, pcm_len)
    &&& action is Stop ==> w.buffer.len() >= pcm_len || w.awaiting_first_packet
    &&& action is StopSilent ==> w.buffer.len() >= pcm_len
    &&& action is FadeOut ==> w.is_silenced
}

/// What one event does to a refill.
proof fn lemma_turned<S>(v: PeerView<S>, event: EventView<S>, pcm_len: int, held: int)
    requires
        v.wf(),
        v.expects(event),
        v.has_room(event, pcm_len),
        crate::peer_laws::is_short(v, pcm_len),
    ensures
        stands(
            turned(v, event, pcm_len).0,
            turned(v, event, pcm_len).1,
            brought(v, event, held),
            pcm_len,
        ),
        event is Begin || crate::peer_laws::stops(turned(v, event, pcm_len).1)
            || crate::peer_laws::less_work(
            crate::peer_laws::work_left(turned(v, event, pcm_len).0, pcm_len),
            crate::peer_laws::work_left(v, pcm_len),
        ),
        pcm_len % 2 == 0 && crate::peer_laws::is_aligned(v) ==> crate::peer_laws::is_aligned(
            turned(v, event, pcm_len).0,
        ),
{
    reveal(turned);
    lemma_step_tells_stage(v, event, pcm_len, held);
    crate::peer_laws::law_refill_terminates(v, event, pcm_len);
    crate::peer_laws::law_refill_stops_when_filled(v, event, pcm_len, 2);
    if pcm_len % 2 == 0 && crate::peer_laws::is_aligned(v) {
        crate::peer_laws::law_refill_keeps_alignment(v, event, pcm_len);
    }
}

/// What was taken of a decoder's answer, with samples as a sequence.
pub open spec fn frame_view<S>(frame: Option<(usize, Vec<S>)>) -> Option<(int, Seq<S>)> {
    match frame {
        Some((n, samples)) => Some((n as int, samples@)),
        None => None,
    }
}

/// Asks a decoder for a frame, with the payload as it is, and passes its answer on if that keeps
/// to what it was allowed to give. What the decoder answers is its own business.
pub(crate) fn ask<S: Copy, D: FrameDecoder<S>>(
    decoder: D,
    payload: &Vec<u8>,
    capacity: usize,
    fec: bool,
    width: usize,
    limit: usize,
) -> (reply: (D, Option<(usize, Vec<S>)>))
    requires
        width <= 2,
        limit <= MAX_FRAME,
    ensures
        replies(
            decoder,
            reply.0,
            payload@,
            capacity as int,
            fec,
            width as int,
            limit as int,
            frame_view(reply.1),
        ),
        reply.1 matches Some((n, samples)) ==> n <= limit && samples@.len() == n * width,
{
    let (after, answer) = decoder.decode(payload, capacity, fec);
    assert(call_ensures(D::decode, (decoder, payload, capacity, fec), (after, answer)));
    let ghost given = answer;
    let mut frame: Option<(usize, Vec<S>)> = None;
    match answer {
        Some((n, samples)) => {
            if n <= limit {
                assert(n * width <= 2 * MAX_FRAME) by (nonlinear_arith)
                    requires
                        n <= MAX_FRAME,
                        width <= 2,
                ;
                if samples.len() == n * width {
                    frame = Some((n, samples));
                }
            }
        },
        None => {},
    }
    assert(frame_view(frame) == taken(given, width as int, limit as int));
    (after, frame)
}

impl<S: Copy> PeerState<S> {
    /// Takes one step of a refill for a stereo device, if the counters have room for it.
    fn try_step(&mut self, event: RefillEvent<S>, pcm_len: usize) -> (action: Option<RefillAction>)
        requires
            old(self)@.wf(),
            old(self)@.expects(event@),
            pcm_len < usize::MAX,
        ensures
            final(self)@.wf(),
            action is Some <==> old(self)@.has_room(event@, pcm_len as int),
            match action {
                Some(wanted) => (final(self)@, wanted@) == turned(
                    old(self)@,
                    event@,
                    pcm_len as int,
                ),
                None => final(self)@ == old(self)@,
            },
    {
        proof {
            reveal(turned);
        }
        if self.has_room(&event, pcm_len) {
            Some(self.refill_buffer(event, pcm_len, 2))
        } else {
            None
        }
    }

    /// Does what a refill asks for: the decoder afterwards, the event to report, and the samples
    /// that were decoded last.
    fn answer<D: FrameDecoder<S>, M: SampleMath<S>>(
        &self,
        decoder: D,
        math: &M,
        action: RefillAction,
        decoded: Vec<S>,
    ) -> (answer: (D, RefillEvent<S>, Vec<S>))
        requires
            self@.wf(),
            !crate::peer_laws::stops(action@),
            tells_stage(self@, action@, decoded@.len() as int),
        ensures
            self@.expects(answer.1@),
            !(answer.1 is Begin),
            answer.2@.len() == brought(self@, answer.1@, decoded@.len() as int),
            does(
                math,
                self@,
                action@,
                decoder,
                decoded@,
                (Turn { event: answer.1@, decoder: answer.0, samples: answer.2@ }),
            ),
    {
        proof {
            reveal(does);
        }
        let width: usize = self.channels.count();
        match action {
            RefillAction::Decode { payload, capacity, fec } => {
                let (after, frame) = ask(decoder, &payload, capacity, fec, width, MAX_FRAME);
                let ghost given = frame_view(frame);
                let (event, samples) = match frame {
                    Some((n, samples)) => (RefillEvent::Decoded(Some(n)), samples),
                    None => (RefillEvent::Decoded(None), Vec::new()),
                };
                assert(reports_frame(
                    Turn { event: event@, decoder: after, samples: samples@ },
                    given,
                ));
                (after, event, samples)
            },
            RefillAction::Crossfade { first, second, capacity } => {
                let limit: usize = capacity / width;
                let (between, one) = ask(decoder, &first, capacity, false, width, limit);
                let (after, two) = ask(between, &second, capacity, false, width, limit);
                let ghost given = (frame_view(one), frame_view(two));
                let (event, samples) = match (one, two) {
                    (Some((a, samples)), Some((b, other))) => {
                        assert(a * width <= capacity && b * width <= capacity) by (nonlinear_arith)
                            requires
                                a <= capacity / width,
                                b <= capacity / width,
                                width == 1 || width == 2,
                        ;
                        let faded = crossfade(math, samples, &other);
                        (RefillEvent::Crossfaded(Some((a, b))), faded)
                    },
                    _ => (RefillEvent::Crossfaded(None), Vec::new()),
                };
                let ghost turn = Turn { event: event@, decoder: after, samples: samples@ };
                assert(fades(
                    math,
                    width as int,
                    first@,
                    second@,
                    capacity as int,
                    decoder,
                    between,
                    turn,
                    given.0,
                    given.1,
                ));
                (after, event, samples)
            },
            RefillAction::Mix(_) => {
                let mut kept: Vec<S> = Vec::new();
                append_samples(&mut kept, decoded.as_slice());
                assert(kept@ =~= decoded@);
                (decoder, RefillEvent::Mixed(self.mix(math, decoded)), kept)
            },
            _ => (decoder, RefillEvent::Begin, decoded),
        }
    }

    /// Brings the samples that wait up to `pcm_len` for a stereo device, with the help of a
    /// decoder. What a decoder gives beyond its capacity counts as a failure to decode.
    pub fn refill<D: FrameDecoder<S>, M: SampleMath<S>>(
        &mut self,
        decoder: D,
        math: &M,
        pcm_len: usize,
    ) -> (result: (D, RefillResult<S>))
        requires
            old(self)@.wf(),
            old(self).stage is Idle,
            pcm_len < usize::MAX,
        ensures
            final(self)@.wf(),
            is_refilled(
                math,
                old(self)@,
                final(self)@,
                decoder,
                result.0,
                pcm_len as int,
                result.1,
            ),
            !(result.1 is Exhausted) ==> final(self).stage is Idle,
            result.1 is Played ==> final(self)@.buffer.len() >= pcm_len
                || final(self)@.awaiting_first_packet,
            result.1 is Silent ==> final(self)@.buffer.len() >= pcm_len
                || final(self)@.is_silenced,
            !(result.1 is Exhausted) && pcm_len % 2 == 0 && old(self)@.buffer.len() % 2 == 0
                ==> final(self)@.buffer.len() % 2 == 0,
    {
        let ghost start = self@;
        let ghost origin = decoder;
        let ghost len = pcm_len as int;
        let ghost mut turns: Seq<Turn<S, D>> = Seq::empty();
        let ghost first = Turn { event: EventView::<S>::Begin, decoder, samples: Seq::empty() };
        let mut current: D = decoder;
        let mut decoded: Vec<S> = Vec::new();
        let mut last: Option<Vec<S>> = None;
        assert(is_trace(math, start, origin, turns, len));
        assert(is_last_frame(turns, last));
        assert(follows(math, start, origin, turns, len, first));
        let mut action: RefillAction = match self.try_step(RefillEvent::Begin, pcm_len) {
            Some(action) => action,
            None => {
                return (current, RefillResult::Exhausted);
            },
        };
        proof {
            lemma_turn(math, start, origin, turns, len, first);
            turns = turns.push(first);
            lemma_turned(start, EventView::Begin, len, 0);
        }
        loop
            invariant
                len == pcm_len,
                pcm_len < usize::MAX,
                start == old(self)@,
                origin == decoder,
                self@.wf(),
                turns.len() > 0,
                is_trace(math, start, origin, turns, len),
                is_last_frame(turns, last),
                run(start, turns, len) == (self@, action@),
                decoder_after(origin, turns) == current,
                samples_after(turns) == decoded@,
                stands(self@, action@, decoded@.len() as int, len),
                len % 2 == 0 && start.buffer.len() % 2 == 0 ==> crate::peer_laws::is_aligned(self@),
            decreases
                    if crate::peer_laws::stops(action@) {
                        0int
                    } else {
                        1
                    },
                    crate::peer_laws::work_left(self@, len).0,
                    crate::peer_laws::work_left(self@, len).1,
                    crate::peer_laws::work_left(self@, len).2,
                    crate::peer_laws::work_left(self@, len).3,
        {
            match action {
                RefillAction::Stop => {
                    return (current, RefillResult::Played(last));
                },
                RefillAction::StopSilent => {
                    return (current, RefillResult::Silent);
                },
                RefillAction::FadeOut { start: from, len: count } => {
                    let ghost before = self@;
                    fade_out(math, &mut self.buffer, from, count);
                    assert(self@ =~= PeerView { buffer: self.buffer@, ..before });
                    return (current, RefillResult::Silent);
                },
                _ => {},
            }
            let ghost before = self@;
            let ghost held = decoded@.len() as int;
            let (next, event, samples) = self.answer(current, math, action, decoded);
            current = next;
            let ghost said = event@;
            let ghost turn = Turn { event: said, decoder: current, samples: samples@ };
            assert(follows(math, start, origin, turns, len, turn));
            if matches!(event, RefillEvent::Mixed(_)) {
                let mut kept: Vec<S> = Vec::new();
                append_samples(&mut kept, samples.as_slice());
                assert(kept@ =~= samples@);
                last = Some(kept);
            }
            decoded = samples;
            action = match self.try_step(event, pcm_len) {
                Some(wanted) => wanted,
                None => {
                    return (current, RefillResult::Exhausted);
                },
            };
            proof {
                lemma_turn(math, start, origin, turns, len, turn);
                turns = turns.push(turn);
                lemma_turned(before, said, len, held);
            }
        }
    }
}

} // verus!
