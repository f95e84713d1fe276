//! The output of the receiving side: the voice of every peer in the room, one over the other, with
//! the sound under way on top. How loud a frame is, how the rate of playback follows the latency
//! and when a loss rate has moved is left to the caller's arithmetic; who is heard, in which order
//! things happen, and what is reported is settled here.

use crate::client::{needed_samples, report_loss, ClientState, ClientView, ServerEffect};
use crate::encode::EncodeState;
use crate::mix::{add_samples, SampleMath};
use crate::peer::PeerState;
use crate::peer_model::PeerView;
use crate::protocol::{ClientMessage, ServerMessage};
use crate::refill::{FrameDecoder, RefillResult};
use crate::resample::PlayMath;
use crate::samples::pad;
use std::collections::HashMap;
use vstd::prelude::*;

verus! {

broadcast use vstd::std_specs::hash::group_hash_axioms;

/// The arithmetic of an output.
pub trait OutputMath<S, P>: PlayMath<S, P> {
    /// How loud a frame is.
    fn loudness(&self, frame: &Vec<S>) -> P;

    /// How loud silence is.
    fn stillness(&self) -> P;

    /// The latency, smoothed: from what it was, the samples that wait, the length of a frame and
    /// the frames that are queued.
    fn smoothed(&self, latency: P, waiting: usize, frame: usize, queued: u32) -> P;

    /// The rate of playback, from what it was, the latency, the latency that is aimed at, and
    /// whether playback has settled.
    fn steered(&self, rate: P, latency: P, target: usize, settled: bool) -> P;

    /// The share of frames that were lost.
    fn loss_rate(&self, lost: u32, expected: u32) -> P;

    /// The share of frames that were lost when none were.
    fn no_loss(&self) -> P;

    /// Whether a loss rate differs enough from the one that was reported.
    fn has_moved(&self, reported: P, rate: P) -> bool;

    /// How many samples an output of the given length may use up.
    fn stretched(&self, len: usize) -> usize;

    /// The position where playback starts.
    fn origin(&self) -> P;

    /// The rate of a recording played as it is.
    fn plain_rate(&self) -> P;

    /// The latency to go by before anything is known.
    fn first_latency(&self) -> P;

    /// The latency of playback that keeps to a target.
    fn latency_at(&self, target: usize) -> P;
}

/// What a peer's playback needs besides its state.
pub struct Voice<D, P> {
    pub decoder: D,
    pub volume: P,
    /// Where playback is, in frames of what waits.
    pub at: P,
    pub rate: P,
    pub latency: P,
    /// The loss rate that was reported last.
    pub reported: P,
}

/// The voice of a peer that has just joined.
pub open spec fn is_fresh<S, D, P: Copy, M: OutputMath<S, P>>(
    math: &M,
    decoder: D,
    voice: Voice<D, P>,
) -> bool {
    &&& voice.decoder == decoder
    &&& call_ensures(M::stillness, (math,), voice.volume)
    &&& call_ensures(M::origin, (math,), voice.at)
    &&& call_ensures(M::plain_rate, (math,), voice.rate)
    &&& call_ensures(M::first_latency, (math,), voice.latency)
    &&& call_ensures(M::no_loss, (math,), voice.reported)
}

/// The voice of a peer that speaks up again: it starts from a clean state, with a latency that
/// keeps to the peer's target.
pub open spec fn is_woken<S, D: FrameDecoder<S>, P: Copy, M: OutputMath<S, P>>(
    math: &M,
    target: int,
    before: Voice<D, P>,
    voice: Voice<D, P>,
) -> bool {
    &&& call_ensures(D::reset, (before.decoder,), voice.decoder)
    &&& call_ensures(M::origin, (math,), voice.at)
    &&& call_ensures(M::plain_rate, (math,), voice.rate)
    &&& call_ensures(M::latency_at, (math, target as usize), voice.latency)
    &&& voice.volume == before.volume
    &&& voice.reported == before.reported
}

/// What an effect makes of the voices, with the decoder that was made for it. `after` is the
/// client afterwards.
pub open spec fn is_voiced<S, D: FrameDecoder<S>, P: Copy, M: OutputMath<S, P>>(
    math: &M,
    effect: ServerEffect,
    decoder: Option<D>,
    after: ClientView<S>,
    before: Map<u32, Voice<D, P>>,
    voices: Map<u32, Voice<D, P>>,
) -> bool {
    match effect {
        ServerEffect::Joined { peer_id } => {
            &&& decoder is Some
            &&& voices.contains_key(peer_id)
            &&& is_fresh(math, decoder->Some_0, voices[peer_id])
            &&& voices == before.insert(peer_id, voices[peer_id])
        },
        ServerEffect::Left { peer_id } => voices == before.remove(peer_id),
        ServerEffect::Woken { peer_id } => if before.contains_key(peer_id) {
            &&& voices.contains_key(peer_id)
            &&& is_woken(math, after.peers[peer_id].target, before[peer_id], voices[peer_id])
            &&& voices == before.insert(peer_id, voices[peer_id])
        } else {
            voices == before
        },
        ServerEffect::Relaid { peer_id } => if before.contains_key(peer_id) {
            &&& decoder is Some
            &&& voices == before.insert(
                peer_id,
                Voice { decoder: decoder->Some_0, ..before[peer_id] },
            )
        } else {
            voices == before
        },
        _ => voices == before,
    }
}

/// Every peer has a voice, and nobody else has one.
pub open spec fn all_have_voices<S, D, P>(
    v: ClientView<S>,
    voices: Map<u32, Voice<D, P>>,
) -> bool {
    v.peers.dom() == voices.dom()
}

/// What came of a peer.
#[derive(Debug)]
pub enum Heard {
    /// A number has run out.
    Exhausted,
    /// The peer is silent, with nothing left to play.
    Idle,
    /// The peer was played, and this is to be reported.
    Played(Option<ClientMessage>),
}

/// A peer is silent, with nothing left to play.
pub open spec fn rests<S>(v: PeerView<S>) -> bool {
    v.is_silenced && v.jitter.dom() == Set::<u32>::empty() && v.buffer.len() == 0
}

/// A peer's volume after a refill: that of the last frame, or that of silence.
pub open spec fn is_loud<S: Copy, P: Copy, M: OutputMath<S, P>>(
    math: &M,
    before: P,
    after: P,
    result: RefillResult<S>,
) -> bool {
    match result {
        RefillResult::Played(Some(frame)) => call_ensures(M::loudness, (math, &frame), after),
        RefillResult::Silent => call_ensures(M::stillness, (math,), after),
        _ => after == before,
    }
}

/// The latency and the rate follow what waits of a peer.
pub open spec fn is_steered<S: Copy, D, P: Copy, M: OutputMath<S, P>>(
    math: &M,
    peer: PeerView<S>,
    before: Voice<D, P>,
    after: Voice<D, P>,
) -> bool {
    &&& call_ensures(
        M::smoothed,
        (
            math,
            before.latency,
            peer.buffer.len() as usize,
            peer.last_frame_size as usize,
            peer.queued() as u32,
        ),
        after.latency,
    )
    &&& call_ensures(
        M::steered,
        (math, before.rate, after.latency, peer.target as usize, peer.played >= 100),
        after.rate,
    )
}

/// A window of the statistics is closed at the given loss rate.
pub open spec fn closes_window<S: Copy, P: Copy, M: OutputMath<S, P>>(
    math: &M,
    peer_id: u32,
    peer: PeerView<S>,
    before: P,
    after: P,
    report: Option<ClientMessage>,
    rate: P,
    moved: bool,
) -> bool {
    let lost = peer.stat_lost as u32;
    let expected = peer.stat_expected as u32;
    &&& call_ensures(M::loss_rate, (math, lost, expected), rate)
    &&& call_ensures(M::has_moved, (math, before, rate), moved)
    &&& report == crate::client::loss_report(peer_id, lost, expected, moved)
    &&& after == if report is Some {
        rate
    } else {
        before
    }
}

/// The loss of a peer is reported where a window of the statistics has closed and there is
/// something to say.
pub open spec fn is_reported<S: Copy, P: Copy, M: OutputMath<S, P>>(
    math: &M,
    peer_id: u32,
    before: PeerView<S>,
    after: PeerView<S>,
    reported: P,
    now: P,
    report: Option<ClientMessage>,
) -> bool {
    if before.stat_expected < 50 {
        after == before && now == reported && report is None
    } else {
        &&& after == PeerView { stat_expected: 0, stat_lost: 0, ..before }
        &&& exists|rate: P, moved: bool|
            closes_window(
                math,
                peer_id,
                before,
                reported,
                now,
                report,
                rate,
                moved,
            )
    }
}

/// A refilled peer was played over an output: the rate was steered first, and the loss reported
/// last.
pub open spec fn is_played_out<S: Copy, D, P: Copy, M: OutputMath<S, P>>(
    math: &M,
    peer_id: u32,
    filled: PeerView<S>,
    after: PeerView<S>,
    before: Voice<D, P>,
    voice: Voice<D, P>,
    under: Seq<S>,
    over: Seq<S>,
    report: Option<ClientMessage>,
) -> bool {
    &&& is_steered(math, filled, before, voice)
    &&& exists|pulled: PeerView<S>|
        #![trigger is_reported(math, peer_id, pulled, after, before.reported, voice.reported, report)]
        {
            &&& crate::resample::pulls(
                math,
                filled,
                pulled,
                under,
                over,
                before.at,
                voice.rate,
                voice.at,
            )
            &&& is_reported(
                math,
                peer_id,
                pulled,
                after,
                before.reported,
                voice.reported,
                report,
            )
        }
}

/// What came of a peer once it was refilled.
pub open spec fn comes_of<S: Copy, D, P: Copy, M: OutputMath<S, P>>(
    math: &M,
    peer_id: u32,
    filled: PeerView<S>,
    after: PeerView<S>,
    before: Voice<D, P>,
    voice: Voice<D, P>,
    under: Seq<S>,
    over: Seq<S>,
    result: RefillResult<S>,
    heard: Heard,
) -> bool {
    &&& heard is Exhausted <==> result is Exhausted
    &&& heard is Idle <==> !(result is Exhausted) && rests(filled)
    &&& match heard {
        Heard::Played(report) => is_played_out(
            math,
            peer_id,
            filled,
            after,
            before,
            voice,
            under,
            over,
            report,
        ),
        _ => {
            &&& after == filled
            &&& over == under
            &&& voice == Voice {
                decoder: voice.decoder,
                volume: voice.volume,
                ..before
            }
        },
    }
}

/// A peer was brought to the output: it is refilled in any case, passed over if it is silent with
/// nothing left to play, and else played and reported on.
pub open spec fn is_popped<S: Copy, D: FrameDecoder<S>, P: Copy, M: OutputMath<S, P>>(
    math: &M,
    peer_id: u32,
    needed: int,
    peer: PeerView<S>,
    after: PeerView<S>,
    before: Voice<D, P>,
    voice: Voice<D, P>,
    under: Seq<S>,
    over: Seq<S>,
    heard: Heard,
) -> bool {
    exists|filled: PeerView<S>, result: RefillResult<S>|
        #![trigger crate::refill::is_refilled(math, peer, filled, before.decoder, voice.decoder, needed, result)]
        {
            &&& crate::refill::is_refilled(
                math,
                peer,
                filled,
                before.decoder,
                voice.decoder,
                needed,
                result,
            )
            &&& is_loud(math, before.volume, voice.volume, result)
            &&& comes_of(
                math,
                peer_id,
                filled,
                after,
                before,
                voice,
                under,
                over,
                result,
                heard,
            )
        }
}

impl<S: Copy> PeerState<S> {
    /// Closes a window of the statistics, if fifty frames were expected: the loss rate that counts
    /// as reported then, and the report.
    fn report<P: Copy, M: OutputMath<S, P>>(
        &mut self,
        math: &M,
        peer_id: u32,
        reported: P,
    ) -> (result: (P, Option<ClientMessage>))
        requires
            old(self)@.wf(),
            old(self).stage is Idle,
        ensures
            final(self)@.wf(),
            final(self).stage is Idle,
            is_reported(
                math,
                peer_id,
                old(self)@,
                final(self)@,
                reported,
                result.0,
                result.1,
            ),
    {
        match self.take_loss_window() {
            Some((lost, expected)) => {
                let rate = math.loss_rate(lost, expected);
                let moved = math.has_moved(reported, rate);
                let report = report_loss(peer_id, lost, expected, moved);
                let now = if report.is_some() {
                    rate
                } else {
                    reported
                };
                assert(closes_window(
                    math,
                    peer_id,
                    old(self)@,
                    reported,
                    now,
                    report,
                    rate,
                    moved,
                ));
                (now, report)
            },
            None => (reported, None),
        }
    }

    /// Brings a peer to an output of stereo frames.
    pub fn pop<D: FrameDecoder<S>, P: Copy, M: OutputMath<S, P>>(
        &mut self,
        math: &M,
        peer_id: u32,
        needed: usize,
        voice: Voice<D, P>,
        output: &mut Vec<S>,
    ) -> (result: (Voice<D, P>, Heard))
        requires
            old(self)@.wf(),
            old(self).stage is Idle,
            needed < usize::MAX,
            old(output)@.len() % 2 == 0,
        ensures
            final(self)@.wf(),
            !(result.1 is Exhausted) ==> final(self).stage is Idle,
            final(output)@.len() == old(output)@.len(),
            is_popped(
                math,
                peer_id,
                needed as int,
                old(self)@,
                final(self)@,
                voice,
                result.0,
                old(output)@,
                final(output)@,
                result.1,
            ),
    {
        let ghost before = voice;
        let ghost under = output@;
        let Voice { decoder, volume, at, rate, latency, reported } = voice;
        let (decoder, result) = self.refill(decoder, math, needed);
        let ghost filled = self@;
        let ghost came = result;
        let volume = match &result {
            RefillResult::Played(Some(frame)) => math.loudness(frame),
            RefillResult::Silent => math.stillness(),
            _ => volume,
        };
        assert(is_loud(math, before.volume, volume, came));
        if matches!(result, RefillResult::Exhausted) {
            let voice = Voice { decoder, volume, at, rate, latency, reported };
            assert(comes_of(
                math,
                peer_id,
                filled,
                self@,
                before,
                voice,
                under,
                output@,
                came,
                Heard::Exhausted,
            ));
            return (voice, Heard::Exhausted);
        }
        if self.is_idle() {
            let voice = Voice { decoder, volume, at, rate, latency, reported };
            assert(comes_of(
                math,
                peer_id,
                filled,
                self@,
                before,
                voice,
                under,
                output@,
                came,
                Heard::Idle,
            ));
            return (voice, Heard::Idle);
        }
        let latency = math.smoothed(
            latency,
            self.buffer.len(),
            self.last_frame_size,
            self.queued_frames(),
        );
        let rate = math.steered(rate, latency, self.target_jitter_frames, self.has_settled());
        let at = self.pull_samples(math, output, at, rate);
        let ghost pulled = self@;
        let (reported, report) = self.report(math, peer_id, reported);
        let voice = Voice { decoder, volume, at, rate, latency, reported };
        assert(is_reported(
            math,
            peer_id,
            pulled,
            self@,
            before.reported,
            voice.reported,
            report,
        ));
        let heard = Heard::Played(report);
        assert(comes_of(
            math,
            peer_id,
            filled,
            self@,
            before,
            voice,
            under,
            output@,
            came,
            heard,
        ));
        (voice, heard)
    }
}

/// What one peer adds to an output.
pub struct Part<S> {
    pub heard: Heard,
    /// The output afterwards.
    pub output: Seq<S>,
}

/// The output before a peer's turn.
pub open spec fn output_before<S>(start: Seq<S>, parts: Seq<Part<S>>, i: int) -> Seq<S> {
    if i > 0 {
        parts[i - 1].output
    } else {
        start
    }
}

/// The reports that peers leave behind, in their order.
pub open spec fn reports_of<S>(parts: Seq<Part<S>>) -> Seq<ClientMessage>
    decreases parts.len(),
{
    if parts.len() == 0 {
        Seq::empty()
    } else {
        match parts.last().heard {
            Heard::Played(Some(report)) => reports_of(parts.drop_last()).push(report),
            _ => reports_of(parts.drop_last()),
        }
    }
}

/// A peer had its turn. One without a voice is passed over.
pub open spec fn is_visited<S: Copy, D: FrameDecoder<S>, P: Copy, M: OutputMath<S, P>>(
    math: &M,
    needed: int,
    id: u32,
    peers: Map<u32, PeerView<S>>,
    peers_after: Map<u32, PeerView<S>>,
    voices: Map<u32, Voice<D, P>>,
    voices_after: Map<u32, Voice<D, P>>,
    under: Seq<S>,
    part: Part<S>,
) -> bool {
    if voices.contains_key(id) {
        is_popped(
            math,
            id,
            needed,
            peers[id],
            peers_after[id],
            voices[id],
            voices_after[id],
            under,
            part.output,
            part.heard,
        )
    } else {
        &&& peers_after[id] == peers[id]
        &&& part.output == under
        &&& part.heard is Idle
    }
}

/// As many peers as there are parts had their turn, in the order of `ids`, each over the output
/// that the one before it left. No peer comes in or goes, and whoever had no turn stays as it was.
/// A number may have run out with the last of them only.
pub open spec fn is_round<S: Copy, D: FrameDecoder<S>, P: Copy, M: OutputMath<S, P>>(
    math: &M,
    needed: int,
    start: Seq<S>,
    ids: Seq<u32>,
    parts: Seq<Part<S>>,
    peers: Map<u32, PeerView<S>>,
    peers_after: Map<u32, PeerView<S>>,
    voices: Map<u32, Voice<D, P>>,
    voices_after: Map<u32, Voice<D, P>>,
) -> bool {
    &&& ids.no_duplicates()
    &&& ids.to_set() == peers.dom()
    &&& peers_after.dom() == peers.dom()
    &&& voices_after.dom() == voices.dom()
    &&& parts.len() <= ids.len()
    &&& forall|i: int|
        0 <= i < parts.len() ==> is_visited(
            math,
            needed,
            #[trigger] ids[i],
            peers,
            peers_after,
            voices,
            voices_after,
            output_before(start, parts, i),
            parts[i],
        )
    &&& forall|i: int| 0 <= i < parts.len() - 1 ==> !((#[trigger] parts[i]).heard is Exhausted)
    &&& forall|id: u32| #[trigger]
        peers.contains_key(id) && !ids.take(parts.len() as int).contains(id) ==> peers_after[id]
            == peers[id]
    &&& forall|id: u32| #[trigger]
        voices.contains_key(id) && !ids.take(parts.len() as int).contains(id) ==> voices_after[id]
            == voices[id]
}

/// One more peer has its turn.
#[verifier::spinoff_prover]
proof fn lemma_round_goes_on<S: Copy, D: FrameDecoder<S>, P: Copy, M: OutputMath<S, P>>(
    math: &M,
    needed: int,
    start: Seq<S>,
    ids: Seq<u32>,
    parts: Seq<Part<S>>,
    part: Part<S>,
    peers: Map<u32, PeerView<S>>,
    peers_between: Map<u32, PeerView<S>>,
    peers_after: Map<u32, PeerView<S>>,
    voices: Map<u32, Voice<D, P>>,
    voices_between: Map<u32, Voice<D, P>>,
    voices_after: Map<u32, Voice<D, P>>,
)
    requires
        is_round(math, needed, start, ids, parts, peers, peers_between, voices, voices_between),
        parts.len() < ids.len(),
        parts.len() > 0 ==> !(parts.last().heard is Exhausted),
        peers_after.dom() == peers_between.dom(),
        voices_after.dom() == voices_between.dom(),
        forall|id: u32|
            id != ids[parts.len() as int] && peers_after.contains_key(id)
                ==> #[trigger] peers_after[id] == peers_between[id],
        forall|id: u32|
            id != ids[parts.len() as int] && voices_after.contains_key(id)
                ==> #[trigger] voices_after[id] == voices_between[id],
        is_visited(
            math,
            needed,
            ids[parts.len() as int],
            peers,
            peers_after,
            voices,
            voices_after,
            output_before(start, parts, parts.len() as int),
            part,
        ),
    ensures
        is_round(
            math,
            needed,
            start,
            ids,
            parts.push(part),
            peers,
            peers_after,
            voices,
            voices_after,
        ),
        output_before(start, parts.push(part), (parts.len() + 1) as int) == part.output,
        reports_of(parts.push(part)) == match part.heard {
            Heard::Played(Some(report)) => reports_of(parts).push(report),
            _ => reports_of(parts),
        },
{
    let all = parts.push(part);
    let n = parts.len() as int;
    assert(all.drop_last() =~= parts);
    assert forall|i: int| 0 <= i < all.len() implies is_visited(
        math,
        needed,
        #[trigger] ids[i],
        peers,
        peers_after,
        voices,
        voices_after,
        output_before(start, all, i),
        all[i],
    ) by {
        assert(ids.to_set().contains(ids[i]));
        if i < n {
            assert(ids[i] != ids[n]);
            assert(all[i] == parts[i]);
            assert(output_before(start, all, i) == output_before(start, parts, i));
            assert(peers_after[ids[i]] == peers_between[ids[i]]);
            if voices.contains_key(ids[i]) {
                assert(voices_after[ids[i]] == voices_between[ids[i]]);
            }
        } else {
            assert(output_before(start, all, i) == output_before(start, parts, i));
        }
    }
    assert forall|i: int| 0 <= i < all.len() - 1 implies !((#[trigger] all[i]).heard
        is Exhausted) by {
        assert(all[i] == parts[i]);
    }
    assert forall|id: u32| !ids.take(n + 1).contains(id) implies id != ids[n] && !(
    #[trigger] ids.take(n).contains(id)) by {
        assert(ids.take(n + 1)[n] == ids[n]);
        if ids.take(n).contains(id) {
            let j = choose|j: int| 0 <= j < n && ids.take(n)[j] == id;
            assert(ids.take(n + 1)[j] == id);
        }
    }
    assert(all.len() == n + 1);
    assert forall|id: u32| #[trigger] peers.contains_key(id) && !ids.take(n + 1).contains(
        id,
    ) implies peers_after[id] == peers[id] by {
        assert(!ids.take(n).contains(id));
        assert(peers_after.dom().contains(id));
        assert(peers_after[id] == peers_between[id]);
    }
    assert forall|id: u32| #[trigger] voices.contains_key(id) && !ids.take(n + 1).contains(
        id,
    ) implies voices_after[id] == voices[id] by {
        assert(!ids.take(n).contains(id));
        assert(voices_after.dom().contains(id));
        assert(voices_after[id] == voices_between[id]);
    }
    assert(all[n] == part);
    assert(output_before(start, all, n + 1) == part.output);
}

/// An output with all peers in it is finished: the sound under way comes on top, and nothing is
/// left of all that where the output is muted.
pub open spec fn is_finished<S: Copy, M: SampleMath<S>>(
    math: &M,
    v: ClientView<S>,
    under: Seq<S>,
    over: Seq<S>,
) -> bool {
    if v.mute_output {
        over == Seq::new(under.len(), |i: int| v.silence)
    } else {
        crate::mix::is_added(math, under, v.cue(under.len() as int), over)
    }
}

/// The output was made over all peers, after which the sound goes on as far.
pub open spec fn is_output<S: Copy, D: FrameDecoder<S>, P: Copy, M: OutputMath<S, P>>(
    math: &M,
    needed: int,
    len: int,
    before: ClientView<S>,
    after: ClientView<S>,
    voices: Map<u32, Voice<D, P>>,
    voices_after: Map<u32, Voice<D, P>>,
    ids: Seq<u32>,
    parts: Seq<Part<S>>,
    result: Option<(Vec<S>, Vec<ClientMessage>)>,
) -> bool {
    let start = Seq::new(len as nat, |i: int| before.silence);
    &&& is_round(
        math,
        needed,
        start,
        ids,
        parts,
        before.peers,
        after.peers,
        voices,
        voices_after,
    )
    &&& match result {
        Some((output, reports)) => {
            &&& parts.len() == ids.len()
            &&& parts.len() > 0 ==> !(parts.last().heard is Exhausted)
            &&& after == ClientView { peers: after.peers, ..before.sounded(len) }
            &&& is_finished(
                math,
                before,
                output_before(start, parts, parts.len() as int),
                output@,
            )
            &&& reports@ == reports_of(parts)
        },
        None => {
            &&& parts.len() > 0
            &&& parts.last().heard is Exhausted
            &&& after == ClientView { peers: after.peers, ..before }
        },
    }
}

/// The output of a client where its arithmetic stretches the length to `scaled`. It is made over
/// all peers in some order.
pub open spec fn makes_output<S: Copy, D: FrameDecoder<S>, P: Copy, M: OutputMath<S, P>>(
    math: &M,
    scaled: usize,
    len: int,
    before: ClientView<S>,
    after: ClientView<S>,
    voices: Map<u32, Voice<D, P>>,
    voices_after: Map<u32, Voice<D, P>>,
    result: Option<(Vec<S>, Vec<ClientMessage>)>,
) -> bool {
    let needed = crate::client::needed_for(scaled as int);
    if scaled + 8 > usize::MAX {
        result is None && after == before && voices_after == voices
    } else {
        is_some_output(math, needed, len, before, after, voices, voices_after, result)
    }
}

/// The output is one over all peers in some order.
pub open spec fn is_some_output<S: Copy, D: FrameDecoder<S>, P: Copy, M: OutputMath<S, P>>(
    math: &M,
    needed: int,
    len: int,
    before: ClientView<S>,
    after: ClientView<S>,
    voices: Map<u32, Voice<D, P>>,
    voices_after: Map<u32, Voice<D, P>>,
    result: Option<(Vec<S>, Vec<ClientMessage>)>,
) -> bool {
    exists|ids: Seq<u32>, parts: Seq<Part<S>>|
        is_output(
            math,
            needed,
            len,
            before,
            after,
            voices,
            voices_after,
            ids,
            parts,
            result,
        )
}

impl<S: Copy> ClientState<S> {
    /// Takes a control message in, with the decoder that was made for it, if it needs one and it
    /// could be made. Voices come, go and start over with their peers.
    #[verifier::spinoff_prover]
    pub fn serve<D: FrameDecoder<S>, P: Copy, M: OutputMath<S, P>>(
        &mut self,
        voices: &mut HashMap<u32, Voice<D, P>>,
        math: &M,
        msg: ServerMessage,
        encode: &mut EncodeState<S>,
        decoder: Option<D>,
    ) -> (effect: ServerEffect)
        requires
            old(self).wf(),
            old(encode)@.wf(),
        ensures
            final(self).wf(),
            final(encode)@.wf(),
            final(self)@ == old(self)@.served(msg, decoder is Some),
            final(encode)@ == match msg {
                ServerMessage::TargetLossRate { percent } => old(encode)@.loss_noted(percent),
                _ => old(encode)@,
            },
            effect == old(self)@.effect(msg, old(encode)@, decoder is Some),
            is_voiced(math, effect, decoder, final(self)@, old(voices)@, final(voices)@),
            all_have_voices(old(self)@, old(voices)@) ==> all_have_voices(
                final(self)@,
                final(voices)@,
            ),
    {
        let effect = self.handle_server_message(msg, encode, decoder.is_some());
        match effect {
            ServerEffect::Joined { peer_id } => {
                if let Some(made) = decoder {
                    let voice = Voice {
                        decoder: made,
                        volume: math.stillness(),
                        at: math.origin(),
                        rate: math.plain_rate(),
                        latency: math.first_latency(),
                        reported: math.no_loss(),
                    };
                    voices.insert(peer_id, voice);
                    assert(is_fresh(math, made, voice));
                    assert(voices@ =~= old(voices)@.insert(peer_id, voice));
                }
            },
            ServerEffect::Left { peer_id } => {
                let _ = voices.remove(&peer_id);
            },
            ServerEffect::Woken { peer_id } => {
                if let Some(voice) = voices.remove(&peer_id) {
                    let target: usize = match self.peers.get(&peer_id) {
                        Some(peer) => peer.target_jitter_frames,
                        None => 0,
                    };
                    let woken = Voice {
                        decoder: voice.decoder.reset(),
                        volume: voice.volume,
                        at: math.origin(),
                        rate: math.plain_rate(),
                        latency: math.latency_at(target),
                        reported: voice.reported,
                    };
                    voices.insert(peer_id, woken);
                    assert(self@.peers.contains_key(peer_id));
                    assert(self@.peers[peer_id] == self.peers@[peer_id]@);
                    assert(self@.peers[peer_id].target == target);
                    assert(is_woken(math, self@.peers[peer_id].target, voice, woken));
                    assert(voices@ =~= old(voices)@.insert(peer_id, woken));
                } else {
                    assert(voices@ =~= old(voices)@);
                }
            },
            ServerEffect::Relaid { peer_id } => {
                if let Some(made) = decoder {
                    if let Some(voice) = voices.remove(&peer_id) {
                        let relaid = Voice { decoder: made, ..voice };
                        voices.insert(peer_id, relaid);
                        assert(voices@ =~= old(voices)@.insert(peer_id, relaid));
                    } else {
                        assert(voices@ =~= old(voices)@);
                    }
                }
            },
            _ => {},
        }
        proof {
            if all_have_voices(old(self)@, old(voices)@) {
                assert(self@.peers.dom() =~= voices@.dom());
            }
        }
        effect
    }

    /// Finishes an output with all peers in it: plays the sound under way over it, and mutes it.
    pub fn finish_output<M: SampleMath<S>>(&mut self, math: &M, output: &mut Vec<S>)
        requires
            old(self).wf(),
        ensures
            final(self).wf(),
            final(self)@ == old(self)@.sounded(old(output)@.len() as int),
            is_finished(math, old(self)@, old(output)@, final(output)@),
    {
        let len: usize = output.len();
        let sound = self.take_sfx(len);
        add_samples(math, output, &sound);
        if self.mute_output {
            output.clear();
            pad(output, self.silence, len);
            assert(output@ =~= Seq::new(len as nat, |i: int| old(self)@.silence));
        }
    }

    /// The next samples for the speakers, stereo, and what is to be reported. There are none when
    /// a number has run out, in a peer or for the length.
    pub fn pop_audio<D: FrameDecoder<S>, P: Copy, M: OutputMath<S, P>>(
        &mut self,
        voices: &mut HashMap<u32, Voice<D, P>>,
        math: &M,
        len: usize,
    ) -> (result: Option<(Vec<S>, Vec<ClientMessage>)>)
        requires
            old(self).wf(),
            len % 2 == 0,
        ensures
            result is Some ==> final(self).wf(),
            result matches Some((output, _)) ==> output@.len() == len,
            all_have_voices(old(self)@, old(voices)@) ==> all_have_voices(
                final(self)@,
                final(voices)@,
            ),
            exists|scaled: usize| #[trigger]
                call_ensures(M::stretched, (math, len), scaled) && makes_output(
                    math,
                    scaled,
                    len as int,
                    old(self)@,
                    final(self)@,
                    old(voices)@,
                    final(voices)@,
                    result,
                ),
    {
        let ghost before = self@;
        let ghost voices_before = voices@;
        let scaled: usize = math.stretched(len);
        assert(call_ensures(M::stretched, (math, len), scaled));
        if scaled > usize::MAX - 8 {
            return None;
        }
        let needed: usize = needed_samples(scaled);
        let mut output: Vec<S> = Vec::new();
        pad(&mut output, self.silence, len);
        let ghost start = Seq::new(len as nat, |i: int| before.silence);
        assert(output@ =~= start);
        let mut reports: Vec<ClientMessage> = Vec::new();
        let ghost mut parts: Seq<Part<S>> = Seq::empty();
        let ids: Vec<u32> = self.peer_ids();
        let mut i: usize = 0;
        while i < ids.len()
            invariant
                i <= ids@.len(),
                parts.len() == i,
                before == old(self)@,
                voices_before == old(voices)@,
                start == Seq::new(len as nat, |i: int| before.silence),
                call_ensures(M::stretched, (math, len), scaled),
                scaled + 8 <= usize::MAX,
                needed == crate::client::needed_for(scaled as int),
                needed < usize::MAX,
                len % 2 == 0,
                output@.len() == len,
                self.wf(),
                self@ == (ClientView { peers: self@.peers, ..before }),
                is_round(
                    math,
                    needed as int,
                    start,
                    ids@,
                    parts,
                    before.peers,
                    self@.peers,
                    voices_before,
                    voices@,
                ),
                i > 0 ==> !(parts.last().heard is Exhausted),
                output@ == output_before(start, parts, i as int),
                reports@ == reports_of(parts),
            decreases ids@.len() - i,
        {
            let id: u32 = ids[i];
            let ghost peers_between = self@.peers;
            let ghost voices_between = voices@;
            let ghost under = output@;
            assert(ids@.to_set().contains(id));
            assert(self.peers@.contains_key(id));
            let mut heard: Heard = Heard::Idle;
            if let Some(voice) = voices.remove(&id) {
                if let Some(mut peer) = self.peers.remove(&id) {
                    assert(peer@ == peers_between[id]);
                    let (voice, came) = peer.pop(math, id, needed, voice, &mut output);
                    heard = came;
                    self.peers.insert(id, peer);
                    voices.insert(id, voice);
                }
            }
            proof {
                let part = Part { heard, output: output@ };
                assert(self@.peers.dom() =~= peers_between.dom());
                assert(voices@.dom() =~= voices_between.dom());
                lemma_round_goes_on(
                    math,
                    needed as int,
                    start,
                    ids@,
                    parts,
                    part,
                    before.peers,
                    peers_between,
                    self@.peers,
                    voices_before,
                    voices_between,
                    voices@,
                );
                parts = parts.push(part);
            }
            match heard {
                Heard::Exhausted => {
                    assert(is_output(
                        math,
                        needed as int,
                        len as int,
                        before,
                        self@,
                        voices_before,
                        voices@,
                        ids@,
                        parts,
                        None,
                    ));
                    return None;
                },
                Heard::Played(Some(report)) => {
                    reports.push(report);
                },
                _ => {},
            }
            i = i + 1;
        }
        self.finish_output(math, &mut output);
        let result = Some((output, reports));
        assert(is_output(
            math,
            needed as int,
            len as int,
            before,
            self@,
            voices_before,
            voices@,
            ids@,
            parts,
            result,
        ));
        result
    }
}

/// Bringing a peer to an output keeps the output's length.
proof fn lemma_pop_keeps_length<S: Copy, D: FrameDecoder<S>, P: Copy, M: OutputMath<S, P>>(
    math: &M,
    peer_id: u32,
    needed: int,
    peer: PeerView<S>,
    after: PeerView<S>,
    before: Voice<D, P>,
    voice: Voice<D, P>,
    under: Seq<S>,
    over: Seq<S>,
    heard: Heard,
)
    requires
        is_popped(math, peer_id, needed, peer, after, before, voice, under, over, heard),
    ensures
        over.len() == under.len(),
{
}

/// A round keeps the output's length.
proof fn lemma_round_keeps_length<S: Copy, D: FrameDecoder<S>, P: Copy, M: OutputMath<S, P>>(
    math: &M,
    needed: int,
    start: Seq<S>,
    ids: Seq<u32>,
    parts: Seq<Part<S>>,
    peers: Map<u32, PeerView<S>>,
    peers_after: Map<u32, PeerView<S>>,
    voices: Map<u32, Voice<D, P>>,
    voices_after: Map<u32, Voice<D, P>>,
    n: int,
)
    requires
        is_round(math, needed, start, ids, parts, peers, peers_after, voices, voices_after),
        0 <= n <= parts.len(),
    ensures
        output_before(start, parts, n).len() == start.len(),
    decreases n,
{
    if n > 0 {
        let i = n - 1;
        lemma_round_keeps_length(
            math,
            needed,
            start,
            ids,
            parts,
            peers,
            peers_after,
            voices,
            voices_after,
            i,
        );
        let id = ids[i];
        let under = output_before(start, parts, i);
        assert(is_visited(
            math,
            needed,
            id,
            peers,
            peers_after,
            voices,
            voices_after,
            under,
            parts[i],
        ));
        if voices.contains_key(id) {
            lemma_pop_keeps_length(
                math,
                id,
                needed,
                peers[id],
                peers_after[id],
                voices[id],
                voices_after[id],
                under,
                parts[i].output,
                parts[i].heard,
            );
        }
    }
}

/// Nothing is heard of a muted output, whoever speaks and whatever sound is under way. The peers
/// and the sound go on all the same.
pub proof fn law_muted_output_is_silent<S: Copy, D: FrameDecoder<S>, P: Copy, M: OutputMath<S, P>>(
    math: &M,
    scaled: usize,
    len: nat,
    before: ClientView<S>,
    after: ClientView<S>,
    voices: Map<u32, Voice<D, P>>,
    voices_after: Map<u32, Voice<D, P>>,
    result: Option<(Vec<S>, Vec<ClientMessage>)>,
)
    requires
        makes_output(
            math,
            scaled,
            len as int,
            before,
            after,
            voices,
            voices_after,
            result,
        ),
        before.mute_output,
    ensures
        result matches Some((output, _)) ==> output@ == Seq::new(len, |i: int| before.silence)
            && after == (ClientView { peers: after.peers, ..before.sounded(len as int) }),
{
    if result is Some {
        let needed = crate::client::needed_for(scaled as int);
        let start = Seq::new(len, |i: int| before.silence);
        let (ids, parts) = choose|ids: Seq<u32>, parts: Seq<Part<S>>|
            is_output(
                math,
                needed,
                len as int,
                before,
                after,
                voices,
                voices_after,
                ids,
                parts,
                result,
            );
        lemma_round_keeps_length(
            math,
            needed,
            start,
            ids,
            parts,
            before.peers,
            after.peers,
            voices,
            voices_after,
            parts.len() as int,
        );
    }
}

/// In an empty room, with no sound under way, there is nothing to hear and nothing to report.
pub proof fn law_empty_room_is_silent<S: Copy, D: FrameDecoder<S>, P: Copy, M: OutputMath<S, P>>(
    math: &M,
    scaled: usize,
    len: nat,
    before: ClientView<S>,
    after: ClientView<S>,
    voices: Map<u32, Voice<D, P>>,
    voices_after: Map<u32, Voice<D, P>>,
    result: Option<(Vec<S>, Vec<ClientMessage>)>,
)
    requires
        makes_output(
            math,
            scaled,
            len as int,
            before,
            after,
            voices,
            voices_after,
            result,
        ),
        scaled + 8 <= usize::MAX,
        before.peers == Map::<u32, PeerView<S>>::empty(),
        before.sfx is None,
    ensures
        after == before,
        result matches Some((output, reports)) && output@ == Seq::new(
            len,
            |i: int| before.silence,
        ) && reports@.len() == 0,
{
    let needed = crate::client::needed_for(scaled as int);
    let start = Seq::new(len, |i: int| before.silence);
    let (ids, parts) = choose|ids: Seq<u32>, parts: Seq<Part<S>>|
        is_output(
            math,
            needed,
            len as int,
            before,
            after,
            voices,
            voices_after,
            ids,
            parts,
            result,
        );
    if ids.len() > 0 {
        assert(ids.to_set().contains(ids[0]));
    }
    assert(after.peers =~= before.peers);
    if let Some((output, reports)) = result {
        assert(output@ =~= start);
    }
}

/// Bringing a peer to an output only takes packets out, and counts no more frames as lost than it
/// expected.
pub proof fn law_popped_peer_counts_on<S: Copy, D: FrameDecoder<S>, P: Copy, M: OutputMath<S, P>>(
    math: &M,
    peer_id: u32,
    needed: int,
    peer: PeerView<S>,
    after: PeerView<S>,
    before: Voice<D, P>,
    voice: Voice<D, P>,
    under: Seq<S>,
    over: Seq<S>,
    heard: Heard,
)
    requires
        is_popped(math, peer_id, needed, peer, after, before, voice, under, over, heard),
        peer.stage is Idle,
    ensures
        after.jitter.submap_of(peer.jitter),
        0 <= after.total_lost - peer.total_lost <= after.total_expected - peer.total_expected,
{
    let (filled, result) = choose|filled: PeerView<S>, result: RefillResult<S>|
        #![trigger crate::refill::is_refilled(math, peer, filled, before.decoder, voice.decoder, needed, result)]
        crate::refill::is_refilled(
            math,
            peer,
            filled,
            before.decoder,
            voice.decoder,
            needed,
            result,
        ) && comes_of(
            math,
            peer_id,
            filled,
            after,
            before,
            voice,
            under,
            over,
            result,
            heard,
        );
    crate::refill_laws::law_refilled_peer_counts_alike(
        math,
        peer,
        filled,
        before.decoder,
        voice.decoder,
        needed,
        result,
    );
    assert(after.jitter == filled.jitter);
}

} // verus!
