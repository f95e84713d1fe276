//! What holds of a refill as a whole.

use crate::mix::SampleMath;
use crate::peer_model::{EventView, PeerView, RefillStage};
use crate::refill::{FrameDecoder, RefillResult, Turn};
use vstd::prelude::*;

verus! {

/// From one state of a peer to another as many frames were expected and lost in the running
/// statistics as in all, no more lost than expected, where a frame that is being made up is not
/// lost yet; and packets were only taken out.
pub open spec fn counts_alike<S>(v: PeerView<S>, w: PeerView<S>) -> bool {
    let expected = w.total_expected - v.total_expected;
    let lost = w.total_lost - v.total_lost;
    let open = (if w.stage is Concealing {
        1int
    } else {
        0
    }) - (if v.stage is Concealing {
        1int
    } else {
        0
    });
    &&& w.stat_expected - v.stat_expected == expected
    &&& w.stat_lost - v.stat_lost == lost
    &&& 0 <= lost
    &&& lost + open <= expected
    &&& w.jitter.submap_of(v.jitter)
}

/// What is counted in two stretches is counted in both together.
proof fn lemma_counts_on<S>(u: PeerView<S>, v: PeerView<S>, w: PeerView<S>)
    requires
        counts_alike(u, v),
        counts_alike(v, w),
    ensures
        counts_alike(u, w),
{
    let (first, second, third) = (u.jitter, v.jitter, w.jitter);
    assert(second.submap_of(first) && third.submap_of(second));
    assert forall|k: u32| #[trigger] third.dom().contains(k) implies first.dom().contains(k)
        && third[k] == first[k] by {
        assert(second.dom().contains(k));
        assert(second[k] == third[k]);
        assert(first.dom().contains(k));
        assert(first[k] == second[k]);
    }
    assert(third.submap_of(first));
}

/// Picking a frame counts it as expected.
proof fn lemma_advance_counts<S>(v: PeerView<S>, pcm_len: int)
    requires
        !(v.stage is Concealing),
    ensures
        counts_alike(v, v.advanced(pcm_len).0),
        v.advanced(pcm_len).0.total_expected >= v.total_expected,
{
}

/// What follows a frame counts nothing.
proof fn lemma_finish_counts<S>(
    v: PeerView<S>,
    skipped: bool,
    decoded: Option<int>,
    pcm_len: int,
    outputs: int,
)
    requires
        !(v.stage is Concealing),
    ensures
        counts_alike(v, v.finished(skipped, decoded, pcm_len, outputs).0),
        v.finished(skipped, decoded, pcm_len, outputs).0.total_expected == v.total_expected,
        v.finished(skipped, decoded, pcm_len, outputs).0.total_lost == v.total_lost,
        !(v.finished(skipped, decoded, pcm_len, outputs).0.stage is Concealing),
{
}

/// A step of a refill keeps the statistics in step with the totals: it never counts a frame as
/// lost that it did not expect, and it only takes packets out.
pub proof fn law_step_counts_alike<S>(
    v: PeerView<S>,
    event: EventView<S>,
    pcm_len: int,
    outputs: int,
)
    requires
        v.expects(event),
    ensures
        counts_alike(v, v.step(event, pcm_len, outputs).0),
        v.step(event, pcm_len, outputs).0.total_expected >= v.total_expected,
{
    let width = v.channels.width();
    match (v.stage, event) {
        (RefillStage::Idle, EventView::Begin) => {
            lemma_advance_counts(v.begun(), pcm_len);
        },
        (RefillStage::Decoding, EventView::Decoded(samples)) => {
            let decoded = match samples {
                Some(n) => Some(n * width),
                None => None,
            };
            lemma_finish_counts(v.frame_decoded(samples), false, decoded, pcm_len, outputs);
        },
        (RefillStage::Concealing { fec: true }, EventView::Decoded(None)) => {},
        (RefillStage::Concealing { fec }, EventView::Decoded(samples)) => {
            let s = if !fec && samples is Some {
                v.strained()
            } else {
                v
            };
            let decoded = match samples {
                Some(n) if n > 0 => Some(n * width),
                _ => None,
            };
            lemma_finish_counts(s.frame_lost(samples), false, decoded, pcm_len, outputs);
        },
        (RefillStage::Crossfading, EventView::Crossfaded(Some((first, _)))) => {
            let w = PeerView {
                good_frames: v.good_frames + 2,
                stage: RefillStage::Idle,
                ..v.expecting()
            };
            lemma_finish_counts(w, true, Some(first * width), pcm_len, outputs);
        },
        (RefillStage::Crossfading, EventView::Crossfaded(None)) => {
            let w = PeerView {
                next: crate::peer_model::after(v.next),
                stage: RefillStage::Idle,
                ..v
            };
            lemma_advance_counts(w, pcm_len);
        },
        (RefillStage::Mixing(plan), EventView::Mixed(frame)) => {
            lemma_advance_counts(v.mixed(plan, frame), pcm_len);
        },
        _ => {},
    }
}

/// However long a refill is, it keeps the statistics in step with the totals: both grow by as many
/// frames expected and as many frames lost, no more lost than expected; and packets are only taken
/// out.
pub proof fn law_refill_counts_alike<S: Copy, D: FrameDecoder<S>, M: SampleMath<S>>(
    math: &M,
    before: PeerView<S>,
    start: D,
    turns: Seq<Turn<S, D>>,
    pcm_len: int,
)
    requires
        crate::refill::is_trace(math, before, start, turns, pcm_len),
    ensures
        counts_alike(before, crate::refill::run(before, turns, pcm_len).0),
        crate::refill::run(before, turns, pcm_len).0.total_expected >= before.total_expected,
    decreases turns.len(),
{
    if turns.len() > 0 {
        let earlier = turns.drop_last();
        law_refill_counts_alike(math, before, start, earlier, pcm_len);
        let v = crate::refill::run(before, earlier, pcm_len).0;
        let event = turns.last().event;
        let w = crate::refill::turned(v, event, pcm_len).0;
        assert(counts_alike(v, w) && w.total_expected >= v.total_expected) by {
            reveal(crate::refill::turned);
            law_step_counts_alike(v, event, pcm_len, 2);
        }
        lemma_counts_on(before, v, w);
    }
}

/// What a refill leaves behind keeps the statistics in step with the totals, and packets are only
/// taken out.
pub proof fn law_refilled_peer_counts_alike<S: Copy, D: FrameDecoder<S>, M: SampleMath<S>>(
    math: &M,
    before: PeerView<S>,
    after: PeerView<S>,
    start: D,
    end: D,
    pcm_len: int,
    result: RefillResult<S>,
)
    requires
        crate::refill::is_refilled(math, before, after, start, end, pcm_len, result),
    ensures
        counts_alike(before, after),
        after.total_expected >= before.total_expected,
{
    let turns = choose|turns: Seq<Turn<S, D>>|
        #![trigger crate::refill::is_trace(math, before, start, turns, pcm_len)]
        crate::refill::is_trace(math, before, start, turns, pcm_len) && crate::refill::ends(
            math,
            before,
            after,
            start,
            end,
            turns,
            pcm_len,
            result,
        );
    law_refill_counts_alike(math, before, start, turns, pcm_len);
}

/// Picking a frame never counts past what a counter holds.
proof fn lemma_advance_counts_within<S>(v: PeerView<S>, pcm_len: int)
    requires
        v.can_advance(pcm_len),
        v.stat_expected <= u32::MAX,
    ensures
        v.advanced(pcm_len).0.stat_expected <= u32::MAX,
{
}

/// A step never counts past what a counter holds.
#[verifier::spinoff_prover]
proof fn lemma_step_counts_within<S>(v: PeerView<S>, event: EventView<S>, pcm_len: int)
    requires
        v.expects(event),
        v.has_room(event, pcm_len),
        v.stat_expected <= u32::MAX,
    ensures
        v.step(event, pcm_len, 2).0.stat_expected <= u32::MAX,
{
    let width = v.channels.width();
    match (v.stage, event) {
        (RefillStage::Idle, EventView::Begin) => {
            lemma_advance_counts_within(v.begun(), pcm_len);
        },
        (RefillStage::Decoding, EventView::Decoded(samples)) => {
            let decoded = match samples {
                Some(n) => Some(n * width),
                None => None,
            };
            lemma_finish_counts(v.frame_decoded(samples), false, decoded, pcm_len, 2);
        },
        (RefillStage::Concealing { fec: true }, EventView::Decoded(None)) => {},
        (RefillStage::Concealing { fec }, EventView::Decoded(samples)) => {
            let s = if !fec && samples is Some {
                v.strained()
            } else {
                v
            };
            let decoded = match samples {
                Some(n) if n > 0 => Some(n * width),
                _ => None,
            };
            lemma_finish_counts(s.frame_lost(samples), false, decoded, pcm_len, 2);
        },
        (RefillStage::Crossfading, EventView::Crossfaded(Some((first, _)))) => {
            let w = PeerView {
                good_frames: v.good_frames + 2,
                stage: RefillStage::Idle,
                ..v.expecting()
            };
            lemma_finish_counts(w, true, Some(first * width), pcm_len, 2);
        },
        (RefillStage::Crossfading, EventView::Crossfaded(None)) => {
            let w = PeerView {
                next: crate::peer_model::after(v.next),
                stage: RefillStage::Idle,
                ..v
            };
            lemma_advance_counts_within(w, pcm_len);
        },
        (RefillStage::Mixing(plan), EventView::Mixed(frame)) => {
            lemma_advance_counts_within(v.mixed(plan, frame), pcm_len);
        },
        _ => {},
    }
}

/// However long a refill is, the peer stays in order, and no counter runs over.
pub proof fn law_refills_keep_peers_in_order<S: Copy, D: FrameDecoder<S>, M: SampleMath<S>>(
    math: &M,
    before: PeerView<S>,
    start: D,
    turns: Seq<Turn<S, D>>,
    pcm_len: int,
)
    requires
        crate::refill::is_trace(math, before, start, turns, pcm_len),
        before.wf(),
        before.stat_expected <= u32::MAX,
    ensures
        crate::refill::run(before, turns, pcm_len).0.wf(),
        crate::refill::run(before, turns, pcm_len).0.stat_expected <= u32::MAX,
    decreases turns.len(),
{
    if turns.len() > 0 {
        let earlier = turns.drop_last();
        law_refills_keep_peers_in_order(math, before, start, earlier, pcm_len);
        let v = crate::refill::run(before, earlier, pcm_len).0;
        let event = turns.last().event;
        reveal(crate::refill::turned);
        crate::peer_model::lemma_step_wf(v, event, pcm_len, 2);
        lemma_step_counts_within(v, event, pcm_len);
    }
}

/// What a refill leaves behind is in order.
pub proof fn law_refilled_peers_are_in_order<S: Copy, D: FrameDecoder<S>, M: SampleMath<S>>(
    math: &M,
    before: PeerView<S>,
    after: PeerView<S>,
    start: D,
    end: D,
    pcm_len: int,
    result: RefillResult<S>,
)
    requires
        crate::refill::is_refilled(math, before, after, start, end, pcm_len, result),
        before.wf(),
        before.stat_expected <= u32::MAX,
    ensures
        after.wf(),
        after.stat_expected <= u32::MAX,
{
    let turns = choose|turns: Seq<Turn<S, D>>|
        #![trigger crate::refill::is_trace(math, before, start, turns, pcm_len)]
        crate::refill::is_trace(math, before, start, turns, pcm_len) && crate::refill::ends(
            math,
            before,
            after,
            start,
            end,
            turns,
            pcm_len,
            result,
        );
    law_refills_keep_peers_in_order(math, before, start, turns, pcm_len);
}

/// A decoder that answers by a rule: with the decoder it becomes, and with the samples a channel
/// and the samples, if it can decode.
pub open spec fn answers_by<S, D: FrameDecoder<S>>(
    rule: spec_fn(D, Seq<u8>, int, bool) -> (D, Option<(int, Seq<S>)>),
) -> bool {
    forall|d: D, data: &Vec<u8>, room: usize, fec: bool, e: D, answer: Option<(usize, Vec<S>)>|
        #[trigger]
        call_ensures(D::decode, (d, data, room, fec), (e, answer)) ==> {
            &&& rule(d, data@, room as int, fec).0 == e
            &&& match (rule(d, data@, room as int, fec).1, answer) {
                (Some((n, samples)), Some((m, given))) => n == m && samples == given@,
                (None, None) => true,
                _ => false,
            }
        }
}

/// An answer that counts: of at most so many samples a channel, and as many samples as it says.
pub open spec fn counting<S>(answer: Option<(int, Seq<S>)>, width: int, limit: int) -> Option<
    (int, Seq<S>),
> {
    match answer {
        Some((n, samples)) => if 0 <= n <= limit && samples.len() == n * width {
            Some((n, samples))
        } else {
            None
        },
        None => None,
    }
}

/// A payload that is to be decoded goes to the decoder as it is, once, and what the decoder gives
/// is what is reported and kept for mixing. A frame that is longer than any can be, or not of the
/// length that it says, counts as none.
pub proof fn law_payloads_go_to_the_decoder<S: Copy, D: FrameDecoder<S>, M: SampleMath<S>>(
    math: &M,
    rule: spec_fn(D, Seq<u8>, int, bool) -> (D, Option<(int, Seq<S>)>),
    w: PeerView<S>,
    payload: Seq<u8>,
    capacity: int,
    fec: bool,
    decoder: D,
    decoded: Seq<S>,
    turn: Turn<S, D>,
)
    requires
        answers_by(rule),
        crate::refill::does(
            math,
            w,
            crate::peer_model::ActionView::Decode { payload, capacity, fec },
            decoder,
            decoded,
            turn,
        ),
    ensures
        ({
            let (after, answer) = rule(decoder, payload, capacity, fec);
            &&& turn.decoder == after
            &&& match counting(answer, w.channels.width(), 5760) {
                Some((n, samples)) => turn.event == EventView::<S>::Decoded(Some(n))
                    && turn.samples == samples,
                None => turn.event == EventView::<S>::Decoded(None) && turn.samples.len() == 0,
            }
        }),
{
    reveal(crate::refill::does);
    let width = w.channels.width();
    let frame = choose|frame: Option<(int, Seq<S>)>|
        #![trigger crate::refill::reports_frame(turn, frame)]
        crate::refill::replies(
            decoder,
            turn.decoder,
            payload,
            capacity,
            fec,
            width,
            5760,
            frame,
        ) && crate::refill::reports_frame(turn, frame);
    lemma_reply(rule, decoder, turn.decoder, payload, capacity, fec, width, 5760, frame);
}

/// A decoder's reply is its rule's, as far as it counts.
pub proof fn lemma_reply<S, D: FrameDecoder<S>>(
    rule: spec_fn(D, Seq<u8>, int, bool) -> (D, Option<(int, Seq<S>)>),
    before: D,
    after: D,
    payload: Seq<u8>,
    capacity: int,
    fec: bool,
    width: int,
    limit: int,
    frame: Option<(int, Seq<S>)>,
)
    requires
        answers_by(rule),
        crate::refill::replies(before, after, payload, capacity, fec, width, limit, frame),
    ensures
        after == rule(before, payload, capacity, fec).0,
        frame == counting(rule(before, payload, capacity, fec).1, width, limit),
{
    let (data, room, answer) = choose|
        data: Vec<u8>,
        room: usize,
        answer: Option<(usize, Vec<S>)>,
    |
        #![trigger call_ensures(D::decode, (before, &data, room, fec), (after, answer))]
        {
            &&& data@ == payload
            &&& room == capacity
            &&& call_ensures(D::decode, (before, &data, room, fec), (after, answer))
            &&& frame == crate::refill::taken(answer, width, limit)
        };
    assert(call_ensures(D::decode, (before, &data, room, fec), (after, answer)));
}

/// Two payloads that are to be joined go to the decoder one after the other, neither as
/// redundancy, and what it gives for both is joined, the first leading over to the second. Where
/// either gives nothing that fits, nothing is reported.
pub proof fn law_joined_payloads_go_in_order<S: Copy, D: FrameDecoder<S>, M: SampleMath<S>>(
    math: &M,
    rule: spec_fn(D, Seq<u8>, int, bool) -> (D, Option<(int, Seq<S>)>),
    w: PeerView<S>,
    first: Seq<u8>,
    second: Seq<u8>,
    capacity: int,
    decoder: D,
    decoded: Seq<S>,
    turn: Turn<S, D>,
)
    requires
        answers_by(rule),
        crate::refill::does(
            math,
            w,
            crate::peer_model::ActionView::Crossfade { first, second, capacity },
            decoder,
            decoded,
            turn,
        ),
    ensures
        ({
            let width = w.channels.width();
            let (between, one) = rule(decoder, first, capacity, false);
            let (after, two) = rule(between, second, capacity, false);
            &&& turn.decoder == after
            &&& match (
                counting(one, width, capacity / width),
                counting(two, width, capacity / width),
            ) {
                (Some((a, samples)), Some((b, other))) => {
                    &&& turn.event == EventView::<S>::Crossfaded(Some((a, b)))
                    &&& crate::mix::is_crossfaded(math, samples, other, turn.samples)
                },
                _ => turn.event == EventView::<S>::Crossfaded(None) && turn.samples.len() == 0,
            }
        }),
{
    reveal(crate::refill::does);
    let width = w.channels.width();
    let limit = capacity / width;
    let (between, one, two) = choose|
        between: D,
        one: Option<(int, Seq<S>)>,
        two: Option<(int, Seq<S>)>,
    |
        crate::refill::fades(
            math,
            width,
            first,
            second,
            capacity,
            decoder,
            between,
            turn,
            one,
            two,
        );
    lemma_reply(rule, decoder, between, first, capacity, false, width, limit, one);
    lemma_reply(rule, between, turn.decoder, second, capacity, false, width, limit, two);
}

/// A frame is mixed from what was decoded last, by the plan that the refill made and with what
/// still waits; the decoder has no part in it.
pub proof fn law_mixing_takes_what_was_decoded<S: Copy, D: FrameDecoder<S>, M: SampleMath<S>>(
    math: &M,
    w: PeerView<S>,
    plan: crate::peer_model::MixPlan,
    decoder: D,
    decoded: Seq<S>,
    turn: Turn<S, D>,
)
    requires
        w.stage == RefillStage::Mixing(plan),
        crate::refill::does(
            math,
            w,
            crate::peer_model::ActionView::Mix(plan),
            decoder,
            decoded,
            turn,
        ),
    ensures
        turn.decoder == decoder,
        turn.samples == decoded,
        turn.event matches EventView::Mixed(frame) && crate::mix::follows_plan(
            math,
            plan,
            decoded,
            w.buffer.skip(w.buffer.len() - plan.overlap),
            frame,
        ),
{
    reveal(crate::refill::does);
}

/// A refill begins once, with the decoder as it is handed over, and after that only does what was
/// asked for.
pub proof fn law_refills_do_what_was_asked<S: Copy, D: FrameDecoder<S>, M: SampleMath<S>>(
    math: &M,
    before: PeerView<S>,
    start: D,
    turns: Seq<Turn<S, D>>,
    pcm_len: int,
)
    requires
        crate::refill::is_trace(math, before, start, turns, pcm_len),
        turns.len() > 0,
    ensures
        ({
            let earlier = turns.drop_last();
            let turn = turns.last();
            let (w, action) = crate::refill::run(before, earlier, pcm_len);
            &&& crate::refill::run(before, turns, pcm_len) == w.step(turn.event, pcm_len, 2)
            &&& turns.len() == 1 ==> w == before && turn.event is Begin && turn.decoder == start
            &&& turns.len() > 1 ==> crate::refill::does(
                math,
                w,
                action,
                earlier.last().decoder,
                earlier.last().samples,
                turn,
            )
        }),
{
    reveal(crate::refill::turned);
}

/// A refill that plays ends where it was told to stop, and hands over the frame that was decoded
/// for its last mixing; one that ends in silence was told so, or fades what waits out as it was
/// told.
pub proof fn law_refills_end_as_told<S: Copy, D: FrameDecoder<S>, M: SampleMath<S>>(
    math: &M,
    before: PeerView<S>,
    after: PeerView<S>,
    start: D,
    end: D,
    turns: Seq<Turn<S, D>>,
    pcm_len: int,
    result: RefillResult<S>,
)
    requires
        crate::refill::ends(math, before, after, start, end, turns, pcm_len, result),
    ensures
        ({
            let (w, action) = crate::refill::run(before, turns, pcm_len);
            match action {
                crate::peer_model::ActionView::Stop => result is Silent ==> false,
                crate::peer_model::ActionView::StopSilent => !(result is Played) && after == w,
                crate::peer_model::ActionView::FadeOut { start: from, len } => result is Silent
                    ==> after.buffer.len() == w.buffer.len() && crate::mix::falls(
                    math,
                    w.buffer,
                    after.buffer,
                    from,
                    len,
                ),
                _ => result is Exhausted,
            }
        }),
        result matches RefillResult::Played(Some(frame)) ==> exists|i: int|
            0 <= i < turns.len() && #[trigger] turns[i].samples == frame@ && turns[i].event is Mixed
                && forall|j: int| i < j < turns.len() ==> !((#[trigger] turns[j]).event is Mixed),
        result matches RefillResult::Played(None) ==> forall|j: int|
            0 <= j < turns.len() ==> !((#[trigger] turns[j]).event is Mixed),
        !(result is Exhausted) ==> turns.len() > 0 && end == turns.last().decoder,
{
    if let RefillResult::Played(last) = result {
        lemma_last_frame(turns, last);
    }
}

/// The last frame that was mixed, told by where it stands.
proof fn lemma_last_frame<S, D>(turns: Seq<Turn<S, D>>, last: Option<Vec<S>>)
    requires
        crate::refill::is_last_frame(turns, last),
    ensures
        match last {
            Some(frame) => exists|i: int|
                0 <= i < turns.len() && #[trigger] turns[i].samples == frame@
                    && turns[i].event is Mixed && forall|j: int|
                    i < j < turns.len() ==> !((#[trigger] turns[j]).event is Mixed),
            None => forall|j: int|
                0 <= j < turns.len() ==> !((#[trigger] turns[j]).event is Mixed),
        },
    decreases turns.len(),
{
    if turns.len() > 0 {
        let n = turns.len() - 1;
        if turns.last().event is Mixed {
            assert(turns[n].samples == last->Some_0@);
        } else {
            let earlier = turns.drop_last();
            lemma_last_frame(earlier, last);
            match last {
                Some(frame) => {
                    let i = choose|i: int|
                        0 <= i < earlier.len() && #[trigger] earlier[i].samples == frame@
                            && earlier[i].event is Mixed && forall|j: int|
                            i < j < earlier.len() ==> !((#[trigger] earlier[j]).event is Mixed);
                    assert(turns[i].samples == frame@);
                    assert forall|j: int| i < j < turns.len() implies !((
                    #[trigger] turns[j]).event is Mixed) by {
                        if j < n {
                            assert(earlier[j] == turns[j]);
                        }
                    }
                },
                None => {
                    assert forall|j: int| 0 <= j < turns.len() implies !((
                    #[trigger] turns[j]).event is Mixed) by {
                        if j < n {
                            assert(earlier[j] == turns[j]);
                        }
                    }
                },
            }
        }
    }
}

} // verus!
