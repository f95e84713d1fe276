//! What holds of a peer's playback across operations.

use crate::peer_model::{
    ActionView, EventView, PeerView, RefillStage, HISTORY, MAX_FRAME, MAX_SEQUENCE,
};
use crate::types::Channels;
use vstd::prelude::*;

verus! {

/// What is left to do in a refill: packets to use up, whether a blend is due, samples to produce,
/// and where in a frame the refill stands.
pub open spec fn work_left<S>(v: PeerView<S>, pcm_len: int) -> (int, int, int, int) {
    let waiting = match v.stage {
        RefillStage::Mixing(plan) => v.buffer.len() - plan.overlap + plan.frame,
        _ => v.buffer.len() as int,
    };
    (
        v.jitter.dom().len() + match v.stage {
            RefillStage::Decoding => 1int,
            RefillStage::Crossfading => 2,
            _ => 0,
        },
        if v.was_plc {
            1
        } else {
            0
        },
        crate::peer_model::max_of(pcm_len - waiting, 0),
        match v.stage {
            RefillStage::Idle => 0,
            RefillStage::Concealing { fec: false } => 1,
            RefillStage::Concealing { fec: true } => 2,
            RefillStage::Decoding | RefillStage::Crossfading => 3,
            RefillStage::Mixing(_) => 4,
        },
    )
}

/// `a` comes before `b`, compared from the first component on.
pub open spec fn less_work(a: (int, int, int, int), b: (int, int, int, int)) -> bool {
    ||| a.0 < b.0
    ||| a.0 == b.0 && a.1 < b.1
    ||| a.0 == b.0 && a.1 == b.1 && a.2 < b.2
    ||| a.0 == b.0 && a.1 == b.1 && a.2 == b.2 && a.3 < b.3
}

/// The refill asks for nothing more.
pub open spec fn stops(action: ActionView) -> bool {
    action is Stop || action is StopSilent || action is FadeOut
}

/// A refill that waits for a frame has not produced enough samples yet.
pub open spec fn is_short<S>(v: PeerView<S>, pcm_len: int) -> bool {
    v.stage is Idle || v.stage is Mixing || v.buffer.len() < pcm_len
}

/// Left and right samples alternate: what waits, and what is about to join it, is whole frames.
pub open spec fn is_aligned<S>(v: PeerView<S>) -> bool {
    &&& v.buffer.len() % 2 == 0
    &&& v.stage matches RefillStage::Mixing(plan) ==> plan.frame % 2 == 0 && plan.overlap % 2 == 0
}

proof fn lemma_advance_goes_on<S>(v: PeerView<S>, pcm_len: int)
    requires
        v.wf(),
        v.can_advance(pcm_len),
    ensures
        ({
            let (w, action) = v.advanced(pcm_len);
            &&& is_short(w, pcm_len)
            &&& !stops(action) ==> {
                &&& work_left(w, pcm_len).0 == v.jitter.dom().len()
                &&& w.was_plc == v.was_plc
                &&& w.buffer == v.buffer
                &&& w.stage !is Mixing
                &&& w.stage !is Idle
            }
        }),
{
    if v.buffer.len() >= pcm_len || v.awaiting_first_packet || (v.is_buffering && !v.primed()) {
    } else {
        let w = v.started().expecting().resynced();
        let keys = v.jitter.dom();
        assert(w.jitter == v.jitter);
        assert(w.jitter.remove(w.next).dom() =~= keys.remove(w.next));
        assert(w.jitter.remove(w.next).remove(crate::peer_model::after(w.next)).dom()
            =~= keys.remove(w.next).remove(crate::peer_model::after(w.next)));
        if keys.len() > 0 {
            crate::jitter::lemma_has_lowest(keys);
            crate::jitter::lemma_has_highest(keys);
        } else {
            crate::jitter::lemma_no_bounds(keys);
        }
    }
}

proof fn lemma_finish_goes_on<S>(v: PeerView<S>, skipped: bool, n: int, pcm_len: int)
    requires
        v.wf(),
        v.stage is Idle,
        v.buffer.len() < pcm_len,
        0 <= n <= 2 * crate::peer_model::MAX_FRAME,
        v.channels == Channels::Stereo ==> n % 2 == 0,
    ensures
        ({
            let w = v.finished(skipped, Some(n), pcm_len, 2).0;
            &&& w.stage is Mixing
            &&& is_aligned(w)
            &&& work_left(w, pcm_len).0 <= v.jitter.dom().len()
            &&& !skipped ==> !w.was_plc
            &&& !skipped && n > 0 && !v.was_plc ==> work_left(w, pcm_len).2 < pcm_len
                - v.buffer.len()
        }),
{
    let w = v.finished(skipped, Some(n), pcm_len, 2).0;
    let jitter = v.jitter;
    assert(w.jitter.dom() =~= jitter.dom().intersect(Set::new(|k: u32| k >= w.next)));
    vstd::set_lib::lemma_len_intersect(jitter.dom(), Set::new(|k: u32| k >= w.next));
}

/// An event leads on to the end of a refill for a stereo device: unless it begins or stops the
/// refill, it leaves less to do.
pub open spec fn leads_on<S>(v: PeerView<S>, event: EventView<S>, pcm_len: int) -> bool {
    let (w, action) = v.step(event, pcm_len, 2);
    &&& is_short(w, pcm_len)
    &&& event is Begin || stops(action) || less_work(work_left(w, pcm_len), work_left(v, pcm_len))
}

proof fn lemma_decoded_leads_on<S>(v: PeerView<S>, samples: Option<int>, pcm_len: int)
    requires
        v.wf(),
        v.stage is Decoding,
        v.expects(EventView::Decoded(samples)),
        v.has_room(EventView::Decoded(samples), pcm_len),
        is_short(v, pcm_len),
    ensures
        leads_on(v, EventView::Decoded(samples), pcm_len),
{
    if let Some(n) = samples {
        let width = v.channels.width();
        lemma_finish_goes_on(v.frame_decoded(samples), false, n * width, pcm_len);
    }
}

proof fn lemma_concealed_leads_on<S>(v: PeerView<S>, samples: Option<int>, pcm_len: int)
    requires
        v.wf(),
        v.stage is Concealing,
        v.expects(EventView::Decoded(samples)),
        v.has_room(EventView::Decoded(samples), pcm_len),
        is_short(v, pcm_len),
    ensures
        leads_on(v, EventView::Decoded(samples), pcm_len),
{
    match (v.stage, samples) {
        (RefillStage::Concealing { fec }, Some(n)) => {
            let s = if !fec {
                v.strained()
            } else {
                v
            };
            if n > 0 {
                let width = v.channels.width();
                lemma_finish_goes_on(s.frame_lost(samples), false, n * width, pcm_len);
            }
        },
        _ => {},
    }
}

proof fn lemma_crossfaded_leads_on<S>(v: PeerView<S>, samples: Option<(int, int)>, pcm_len: int)
    requires
        v.wf(),
        v.stage is Crossfading,
        v.expects(EventView::Crossfaded(samples)),
        v.has_room(EventView::Crossfaded(samples), pcm_len),
        is_short(v, pcm_len),
    ensures
        leads_on(v, EventView::Crossfaded(samples), pcm_len),
{
    match samples {
        Some((first, _)) => {
            let w = PeerView {
                good_frames: v.good_frames + 2,
                stage: RefillStage::Idle,
                ..v.expecting()
            };
            lemma_finish_goes_on(w, true, first * v.channels.width(), pcm_len);
        },
        None => {
            let w = PeerView {
                next: crate::peer_model::after(v.next),
                stage: RefillStage::Idle,
                ..v
            };
            lemma_advance_goes_on(w, pcm_len);
        },
    }
}

proof fn lemma_mixed_leads_on<S>(v: PeerView<S>, frame: Seq<S>, pcm_len: int)
    requires
        v.wf(),
        v.expects(EventView::Mixed(frame)),
        v.has_room(EventView::Mixed(frame), pcm_len),
    ensures
        leads_on(v, EventView::Mixed(frame), pcm_len),
{
    match v.stage {
        RefillStage::Mixing(plan) => {
            lemma_advance_goes_on(v.mixed(plan, frame), pcm_len);
        },
        _ => {},
    }
}

/// A refill for a stereo device comes to an end: after its beginning, each step that does not
/// stop it leaves less to do.
#[verifier::spinoff_prover]
pub proof fn law_refill_terminates<S>(v: PeerView<S>, event: EventView<S>, pcm_len: int)
    requires
        v.wf(),
        v.expects(event),
        v.has_room(event, pcm_len),
        is_short(v, pcm_len),
    ensures
        leads_on(v, event, pcm_len),
{
    match event {
        EventView::Begin => {
            lemma_advance_goes_on(v.begun(), pcm_len);
        },
        EventView::Decoded(samples) => {
            if v.stage is Decoding {
                lemma_decoded_leads_on(v, samples, pcm_len);
            } else {
                lemma_concealed_leads_on(v, samples, pcm_len);
            }
        },
        EventView::Crossfaded(samples) => {
            lemma_crossfaded_leads_on(v, samples, pcm_len);
        },
        EventView::Mixed(frame) => {
            lemma_mixed_leads_on(v, frame, pcm_len);
        },
    }
}

/// A refill stops once enough samples wait. Short of that it stops only while playback waits for
/// a first packet, or while the peer is silent and the frame that is due is missing.
pub proof fn law_refill_stops_when_filled<S>(
    v: PeerView<S>,
    event: EventView<S>,
    pcm_len: int,
    outputs: int,
)
    requires
        v.wf(),
        v.expects(event),
        v.has_room(event, pcm_len),
    ensures
        ({
            let (w, action) = v.step(event, pcm_len, outputs);
            &&& stops(action) ==> w.stage is Idle
            &&& action is Stop ==> w.buffer.len() >= pcm_len || w.awaiting_first_packet
            &&& action is StopSilent ==> w.buffer.len() >= pcm_len
            &&& action is FadeOut ==> w.is_silenced && !w.jitter.contains_key(w.next)
        }),
{
}

/// On a stereo device, left and right are never swapped: a refill for a whole number of frames
/// keeps whole frames.
pub proof fn law_refill_keeps_alignment<S>(v: PeerView<S>, event: EventView<S>, pcm_len: int)
    requires
        v.wf(),
        v.expects(event),
        v.has_room(event, pcm_len),
        is_short(v, pcm_len),
        is_aligned(v),
        pcm_len % 2 == 0,
    ensures
        is_aligned(v.step(event, pcm_len, 2).0),
{
    let width = v.channels.width();
    match (v.stage, event) {
        (RefillStage::Decoding, EventView::Decoded(Some(n))) => {
            lemma_finish_goes_on(v.frame_decoded(Some(n)), false, n * width, pcm_len);
        },
        (RefillStage::Concealing { fec }, EventView::Decoded(Some(n))) => {
            let s = if !fec {
                v.strained()
            } else {
                v
            };
            if n > 0 {
                lemma_finish_goes_on(s.frame_lost(Some(n)), false, n * width, pcm_len);
            }
        },
        (RefillStage::Crossfading, EventView::Crossfaded(Some((first, _)))) => {
            let w = PeerView {
                good_frames: v.good_frames + 2,
                stage: RefillStage::Idle,
                ..v.expecting()
            };
            lemma_finish_goes_on(w, true, first * width, pcm_len);
        },
        _ => {},
    }
}

/// Before the first packet a refill plays and counts nothing.
pub proof fn law_refill_waits_for_first_packet<S>(v: PeerView<S>, pcm_len: int, outputs: int)
    requires
        v.wf(),
        v.stage is Idle,
        v.awaiting_first_packet,
    ensures
        ({
            let (w, action) = v.step(EventView::Begin, pcm_len, outputs);
            &&& action is Stop
            &&& w == PeerView { silence_frames: w.silence_frames, target: w.target, ..v }
        }),
{
    let w = v.step(EventView::Begin, pcm_len, outputs).0;
    assert(w =~= PeerView { silence_frames: w.silence_frames, target: w.target, ..v });
}

/// A packet that comes after its frame was given up takes the loss back, unless playback has
/// stopped to collect packets again.
pub proof fn law_late_packet_is_forgiven<S>(
    v: PeerView<S>,
    samples: Option<int>,
    payload: Seq<u8>,
)
    requires
        v.wf(),
        v.stage is Concealing,
        v.next <= MAX_SEQUENCE,
        !v.awaiting_first_packet,
        !v.frame_lost(samples).is_buffering,
    ensures
        v.frame_lost(samples).lost.contains(v.next),
        v.frame_lost(samples).total_lost == v.total_lost + 1,
        v.frame_lost(samples).received(v.next, payload).total_lost == v.total_lost,
        v.frame_lost(samples).received(v.next, payload).stat_lost == v.stat_lost,
        !v.frame_lost(samples).received(v.next, payload).lost.contains(v.next),
{
}

/// A peer that speaks up after silence starts afresh: its first packet is the first to play,
/// whatever was played before.
pub proof fn law_first_packet_starts_playback<S>(
    v: PeerView<S>,
    sequence: u32,
    payload: Seq<u8>,
)
    requires
        v.wf(),
        v.is_silenced,
        sequence <= MAX_SEQUENCE,
    ensures
        ({
            let w = v.silence_set(false).received(sequence, payload);
            &&& w.next == sequence
            &&& !w.awaiting_first_packet
            &&& w.jitter == Map::<u32, Seq<u8>>::empty().insert(sequence, payload)
            &&& w.buffer.len() == 0
            &&& w.stat_lost == 0 && w.stat_expected == 0
        }),
{
    let s = v.silence_set(false);
    let filed = PeerView { bytes: s.bytes + payload.len(), ..s }.synced_to(sequence).filed(
        sequence,
        payload,
    );
    assert(filed.jitter.dom() =~= Set::<u32>::empty().insert(sequence));
}

/// A packet is kept as it came, unless it lies too far behind playback or is the oldest of too
/// many. The others stay, but for the oldest of too many.
pub proof fn law_packet_is_kept<S>(v: PeerView<S>, sequence: u32, payload: Seq<u8>)
    requires
        v.wf(),
        sequence <= MAX_SEQUENCE,
    ensures
        ({
            let w = v.received(sequence, payload);
            let keys = v.jitter.dom().insert(sequence);
            let evicted = keys.len() > HISTORY;
            &&& sequence + HISTORY >= w.next && !(evicted && crate::jitter::is_lowest(
                keys,
                sequence,
            )) ==> w.jitter.contains_key(sequence) && w.jitter[sequence] == payload
            &&& forall|k: u32|
                #![trigger w.jitter.contains_key(k)]
                v.jitter.contains_key(k) && k != sequence && !(evicted && crate::jitter::is_lowest(
                    keys,
                    k,
                )) ==> w.jitter.contains_key(k) && w.jitter[k] == v.jitter[k]
        }),
{
    let synced = PeerView { bytes: v.bytes + payload.len(), ..v }.synced_to(sequence);
    let filed = synced.filed(sequence, payload);
    let keys = v.jitter.dom().insert(sequence);
    assert(v.received(sequence, payload).next == synced.next);
    if filed.jitter.dom().len() > HISTORY {
        assert(filed.jitter.dom() =~= keys);
        crate::jitter::lemma_has_lowest(keys);
    }
}

/// A packet touches no sample, no expectation, and nothing but its own entry among the lost.
pub proof fn law_packet_leaves_samples<S>(v: PeerView<S>, sequence: u32, payload: Seq<u8>)
    ensures
        ({
            let w = v.received(sequence, payload);
            &&& w.buffer == v.buffer
            &&& w.stat_expected == v.stat_expected
            &&& w.total_expected == v.total_expected
            &&& w.is_silenced == v.is_silenced
            &&& forall|k: u32| k != sequence ==> (#[trigger] w.lost.contains(k) == v.lost.contains(k))
        }),
{
}

/// Setting the same silence twice is setting it once.
pub proof fn law_silence_is_idempotent<S>(v: PeerView<S>, silenced: bool)
    ensures
        v.silence_set(silenced).is_silenced == silenced,
        v.silence_set(silenced).silence_set(silenced) == v.silence_set(silenced),
{
}

/// Every request to a decoder is for the frame that is due, for the one after it with its
/// redundant copy, or for nothing at all; and only a peer that is not silent has frames made up.
pub proof fn law_frames_are_picked_in_order<S>(
    v: PeerView<S>,
    event: EventView<S>,
    pcm_len: int,
    outputs: int,
)
    requires
        v.wf(),
        v.expects(event),
        v.has_room(event, pcm_len),
    ensures
        ({
            let (w, action) = v.step(event, pcm_len, outputs);
            match action {
                ActionView::Decode { payload, capacity: _, fec } => {
                    ||| w.stage is Decoding && !fec && v.jitter.contains_key(w.next) && payload
                        == v.jitter[w.next]
                    ||| w.stage == (RefillStage::Concealing { fec: true }) && fec
                        && !w.is_silenced && !v.jitter.contains_key(w.next)
                        && v.jitter.contains_key(crate::peer_model::after(w.next)) && payload
                        == v.jitter[crate::peer_model::after(w.next)]
                    ||| w.stage == (RefillStage::Concealing { fec: false }) && !fec
                        && !w.is_silenced && payload.len() == 0
                },
                ActionView::Crossfade { first, second, .. } => {
                    &&& w.stage is Crossfading
                    &&& w.next >= 2
                    &&& v.jitter.contains_key((w.next - 2) as u32)
                    &&& v.jitter.contains_key((w.next - 1) as u32)
                    &&& first == v.jitter[(w.next - 2) as u32]
                    &&& second == v.jitter[(w.next - 1) as u32]
                },
                _ => true,
            }
        }),
{
}

/// Playback goes back to collecting packets only after more than fifteen frames in a row were
/// made up and no packet follows.
pub proof fn law_only_dropouts_collect_again<S>(
    v: PeerView<S>,
    event: EventView<S>,
    pcm_len: int,
    outputs: int,
)
    requires
        v.wf(),
        v.expects(event),
        !v.is_buffering,
        v.step(event, pcm_len, outputs).0.is_buffering,
    ensures
        v.stage is Concealing,
        v.streak + 1 > 15,
        forall|k: u32| #[trigger] v.jitter.contains_key(k) ==> k <= v.next,
{
    assert forall|k: u32| #[trigger] v.jitter.contains_key(k) implies k <= v.next by {
        crate::jitter::lemma_has_highest(v.jitter.dom());
    }
}

/// Only the first frame of a sentence rises from silence, and only concealed audio is blended
/// with what follows it.
pub proof fn law_fades_are_rare<S>(v: PeerView<S>, decoded: int, outputs: int)
    requires
        v.wf(),
        0 <= decoded <= 2 * MAX_FRAME,
    ensures
        v.plan(decoded, outputs).fade_in > 0 ==> v.played < 2 && v.buffer.len() == 0 && !v.was_plc,
        v.plan(decoded, outputs).overlap > 0 ==> v.was_plc && v.buffer.len() > 0,
        v.plan(decoded, outputs).overlap <= v.plan(decoded, outputs).frame,
{
}

} // verus!
