//! What holds of an output: who is heard, how playback is steered, and what is reported.

use crate::client::{ClientView, ServerEffect};
use crate::output::{Heard, OutputMath, Part, Voice};
use crate::peer_model::PeerView;
use crate::protocol::ClientMessage;
use crate::refill::{FrameDecoder, RefillResult};
use vstd::prelude::*;

verus! {

/// A peer that is passed over is silent, with no packet and no sample left, and adds nothing to the
/// output; its playback stands where it stood.
pub proof fn law_only_idle_peers_are_passed_over<
    S: Copy,
    D: FrameDecoder<S>,
    P: Copy,
    M: OutputMath<S, P>,
>(
    math: &M,
    peer_id: u32,
    needed: int,
    peer: PeerView<S>,
    after: PeerView<S>,
    before: Voice<D, P>,
    voice: Voice<D, P>,
    under: Seq<S>,
    over: Seq<S>,
    heard: Heard,
)
    requires
        crate::output::is_popped(
            math,
            peer_id,
            needed,
            peer,
            after,
            before,
            voice,
            under,
            over,
            heard,
        ),
        heard is Idle,
    ensures
        after.is_silenced,
        forall|k: u32| !#[trigger] after.jitter.contains_key(k),
        after.buffer.len() == 0,
        over == under,
        voice.at == before.at,
        voice.rate == before.rate,
        voice.latency == before.latency,
        voice.reported == before.reported,
{
}

/// The arithmetic of an output, where it goes by the same rule every time.
#[verifier::reject_recursive_types(S)]
#[verifier::reject_recursive_types(P)]
pub struct Rules<S, P> {
    pub loudness: spec_fn(Seq<S>) -> P,
    pub stillness: P,
    pub smoothed: spec_fn(P, int, int, int) -> P,
    pub steered: spec_fn(P, P, int, bool) -> P,
    pub loss_rate: spec_fn(int, int) -> P,
    pub has_moved: spec_fn(P, P) -> bool,
}

/// The arithmetic goes by these rules.
pub open spec fn goes_by<S: Copy, P: Copy, M: OutputMath<S, P>>(
    math: &M,
    rules: Rules<S, P>,
) -> bool {
    &&& forall|frame: &Vec<S>, r: P| #[trigger]
        call_ensures(M::loudness, (math, frame), r) ==> r == (rules.loudness)(frame@)
    &&& forall|r: P| #[trigger] call_ensures(M::stillness, (math,), r) ==> r == rules.stillness
    &&& forall|latency: P, waiting: usize, frame: usize, queued: u32, r: P| #[trigger]
        call_ensures(M::smoothed, (math, latency, waiting, frame, queued), r) ==> r == (
        rules.smoothed)(latency, waiting as int, frame as int, queued as int)
    &&& forall|rate: P, latency: P, target: usize, settled: bool, r: P| #[trigger]
        call_ensures(M::steered, (math, rate, latency, target, settled), r) ==> r == (
        rules.steered)(rate, latency, target as int, settled)
    &&& forall|lost: u32, expected: u32, r: P| #[trigger]
        call_ensures(M::loss_rate, (math, lost, expected), r) ==> r == (rules.loss_rate)(
            lost as int,
            expected as int,
        )
    &&& forall|reported: P, rate: P, r: bool| #[trigger]
        call_ensures(M::has_moved, (math, reported, rate), r) ==> r == (rules.has_moved)(
            reported,
            rate,
        )
}

/// A peer that plays was refilled first, as far as was needed. The volume is that of the last frame
/// that was played, or that of silence. Then the latency is measured, from the samples and the
/// frames that wait, and the rate steered by it, with care until a hundred frames have played; then
/// the samples are pulled, from where playback stood and at the new rate.
pub open spec fn is_heard_by<S: Copy, D: FrameDecoder<S>, P: Copy, M: OutputMath<S, P>>(
    math: &M,
    rules: Rules<S, P>,
    needed: int,
    peer: PeerView<S>,
    filled: PeerView<S>,
    pulled: PeerView<S>,
    before: Voice<D, P>,
    voice: Voice<D, P>,
    under: Seq<S>,
    over: Seq<S>,
    result: RefillResult<S>,
) -> bool {
    &&& crate::refill::is_refilled(
        math,
        peer,
        filled,
        before.decoder,
        voice.decoder,
        needed,
        result,
    )
    &&& match result {
        RefillResult::Played(Some(frame)) => voice.volume == (rules.loudness)(frame@),
        RefillResult::Played(None) => voice.volume == before.volume,
        RefillResult::Silent => voice.volume == rules.stillness,
        RefillResult::Exhausted => false,
    }
    &&& !filled.is_silenced || filled.buffer.len() > 0 || filled.jitter.dom()
        != Set::<u32>::empty()
    &&& filled.buffer.len() <= usize::MAX ==> voice.latency == (rules.smoothed)(
        before.latency,
        filled.buffer.len() as int,
        filled.last_frame_size,
        filled.queued(),
    )
    &&& voice.rate == (rules.steered)(
        before.rate,
        voice.latency,
        filled.target,
        filled.played >= 100,
    )
    &&& crate::resample::pulls(
        math,
        filled,
        pulled,
        under,
        over,
        before.at,
        voice.rate,
        voice.at,
    )
}

/// Loss is reported last: once fifty frames were expected the statistics start over, and a report
/// is made where none or all were lost or the rate has moved from the one reported before.
pub open spec fn is_reported_by<S, D, P>(
    rules: Rules<S, P>,
    peer_id: u32,
    pulled: PeerView<S>,
    after: PeerView<S>,
    before: Voice<D, P>,
    voice: Voice<D, P>,
    report: Option<ClientMessage>,
) -> bool {
    let rate = (rules.loss_rate)(pulled.stat_lost, pulled.stat_expected);
    let due = pulled.stat_expected >= 50 && (pulled.stat_lost == 0 || pulled.stat_lost
        >= pulled.stat_expected || (rules.has_moved)(before.reported, rate));
    &&& due <==> report is Some
    &&& report matches Some(msg) ==> msg == (ClientMessage::ReportPeerLoss {
        peer_id,
        lost: pulled.stat_lost as u32,
        expected: pulled.stat_expected as u32,
    })
    &&& voice.reported == if due {
        rate
    } else {
        before.reported
    }
    &&& after == if pulled.stat_expected >= 50 {
        PeerView { stat_expected: 0, stat_lost: 0, ..pulled }
    } else {
        pulled
    }
}

/// A peer that is heard goes through all of that, in this order.
pub proof fn law_heard_peers_are_refilled_steered_played_and_reported<
    S: Copy,
    D: FrameDecoder<S>,
    P: Copy,
    M: OutputMath<S, P>,
>(
    math: &M,
    rules: Rules<S, P>,
    peer_id: u32,
    needed: int,
    peer: PeerView<S>,
    after: PeerView<S>,
    before: Voice<D, P>,
    voice: Voice<D, P>,
    under: Seq<S>,
    over: Seq<S>,
    report: Option<ClientMessage>,
)
    requires
        goes_by(math, rules),
        crate::output::is_popped(
            math,
            peer_id,
            needed,
            peer,
            after,
            before,
            voice,
            under,
            over,
            Heard::Played(report),
        ),
        peer.wf(),
        peer.stat_expected <= u32::MAX,
    ensures
        exists|filled: PeerView<S>, pulled: PeerView<S>, result: RefillResult<S>|
            #![trigger is_heard_by(math, rules, needed, peer, filled, pulled, before, voice, under, over, result)]
            {
                &&& is_heard_by(
                    math,
                    rules,
                    needed,
                    peer,
                    filled,
                    pulled,
                    before,
                    voice,
                    under,
                    over,
                    result,
                )
                &&& is_reported_by(rules, peer_id, pulled, after, before, voice, report)
            },
{
    let (filled, result) = choose|filled: PeerView<S>, result: RefillResult<S>|
        #![trigger crate::refill::is_refilled(math, peer, filled, before.decoder, voice.decoder, needed, result)]
        crate::refill::is_refilled(
            math,
            peer,
            filled,
            before.decoder,
            voice.decoder,
            needed,
            result,
        ) && crate::output::is_loud(math, before.volume, voice.volume, result)
            && crate::output::comes_of(
            math,
            peer_id,
            filled,
            after,
            before,
            voice,
            under,
            over,
            result,
            Heard::Played(report),
        );
    let pulled = choose|pulled: PeerView<S>|
        #![trigger crate::output::is_reported(math, peer_id, pulled, after, before.reported, voice.reported, report)]
        crate::resample::pulls(
            math,
            filled,
            pulled,
            under,
            over,
            before.at,
            voice.rate,
            voice.at,
        ) && crate::output::is_reported(
            math,
            peer_id,
            pulled,
            after,
            before.reported,
            voice.reported,
            report,
        );
    crate::refill_laws::law_refilled_peers_are_in_order(
        math,
        peer,
        filled,
        before.decoder,
        voice.decoder,
        needed,
        result,
    );
    assert(pulled.stat_expected == filled.stat_expected && pulled.stat_lost == filled.stat_lost);
    if filled.jitter.dom().len() > 0 {
        crate::jitter::lemma_has_highest(filled.jitter.dom());
    } else {
        assert(filled.jitter.dom() =~= Set::empty());
        crate::jitter::lemma_no_bounds(filled.jitter.dom());
    }
    assert(0 <= filled.queued() <= u32::MAX);
    assert(is_heard_by(
        math,
        rules,
        needed,
        peer,
        filled,
        pulled,
        before,
        voice,
        under,
        over,
        result,
    ));
}

/// An output that is not muted is what all peers together play, with the sound under way added to
/// its beginning, as far as that reaches; behind it nothing changes.
pub proof fn law_the_sound_comes_on_top<S: Copy, M: crate::mix::SampleMath<S>>(
    math: &M,
    value: spec_fn(S) -> int,
    v: ClientView<S>,
    under: Seq<S>,
    over: Seq<S>,
    i: int,
)
    requires
        crate::mix_laws::is_exact(math, value),
        v.wf(),
        crate::output::is_finished(math, v, under, over),
        !v.mute_output,
        0 <= i < under.len(),
    ensures
        over.len() == under.len(),
        v.sfx is None ==> over[i] == under[i],
        v.sfx matches Some(sfx) ==> if sfx.position + i < sfx.pcm.len() {
            value(over[i]) == value(under[i]) + value(sfx.pcm[sfx.position + i])
        } else {
            over[i] == under[i]
        },
{
    let cue = v.cue(under.len() as int);
    crate::room_laws::law_sounds_are_played_sample_by_sample(v, under.len() as int);
    crate::mix_laws::law_samples_add_up(math, value, under, cue, over, i);
}

/// Nothing is heard of a muted output, in its whole length.
pub proof fn law_mute_silences_everything<S: Copy, M: crate::mix::SampleMath<S>>(
    math: &M,
    v: ClientView<S>,
    under: Seq<S>,
    over: Seq<S>,
    i: int,
)
    requires
        crate::output::is_finished(math, v, under, over),
        v.mute_output,
        0 <= i < under.len(),
    ensures
        over.len() == under.len(),
        over[i] == v.silence,
{
}

/// In an output every peer with a voice has its turn, for as many samples as the length needs,
/// and none of them ran out of numbers; a peer without one is left alone. Nobody comes or goes.
pub proof fn law_everybody_has_a_turn<
    S: Copy,
    D: FrameDecoder<S>,
    P: Copy,
    M: OutputMath<S, P>,
>(
    math: &M,
    scaled: usize,
    len: nat,
    before: ClientView<S>,
    after: ClientView<S>,
    voices: Map<u32, Voice<D, P>>,
    voices_after: Map<u32, Voice<D, P>>,
    result: Option<(Vec<S>, Vec<ClientMessage>)>,
    id: u32,
)
    requires
        crate::output::makes_output(
            math,
            scaled,
            len as int,
            before,
            after,
            voices,
            voices_after,
            result,
        ),
        result is Some,
        before.peers.contains_key(id),
    ensures
        scaled + 8 <= usize::MAX,
        after.peers.dom() == before.peers.dom(),
        voices_after.dom() == voices.dom(),
        !voices.contains_key(id) ==> after.peers[id] == before.peers[id],
        voices.contains_key(id) ==> exists|under: Seq<S>, over: Seq<S>, heard: Heard|
            #![trigger has_turn(math, scaled, before.peers[id], after.peers[id], voices[id], voices_after[id], id, under, over, heard)]
            has_turn(
                math,
                scaled,
                before.peers[id],
                after.peers[id],
                voices[id],
                voices_after[id],
                id,
                under,
                over,
                heard,
            ) && !(heard is Exhausted),
{
    let needed = crate::client::needed_for(scaled as int);
    let start = Seq::new(len, |i: int| before.silence);
    let (ids, parts) = choose|ids: Seq<u32>, parts: Seq<Part<S>>|
        crate::output::is_output(
            math,
            needed,
            len as int,
            before,
            after,
            voices,
            voices_after,
            ids,
            parts,
            result,
        );
    assert(ids.to_set().contains(id));
    let i = choose|i: int| 0 <= i < ids.len() && ids[i] == id;
    assert(0 <= i < parts.len());
    let under = crate::output::output_before(start, parts, i);
    assert(crate::output::is_visited(
        math,
        needed,
        ids[i],
        before.peers,
        after.peers,
        voices,
        voices_after,
        under,
        parts[i],
    ));
    if voices.contains_key(id) {
        assert(!(parts[i].heard is Exhausted));
        assert(has_turn(
            math,
            scaled,
            before.peers[id],
            after.peers[id],
            voices[id],
            voices_after[id],
            id,
            under,
            parts[i].output,
            parts[i].heard,
        ));
    }
}

/// A peer has its turn, with the number of samples that goes with a length: an even one, of seven
/// or eight more than the output may use up.
pub open spec fn has_turn<S: Copy, D: FrameDecoder<S>, P: Copy, M: OutputMath<S, P>>(
    math: &M,
    scaled: usize,
    peer: PeerView<S>,
    after: PeerView<S>,
    before: Voice<D, P>,
    voice: Voice<D, P>,
    id: u32,
    under: Seq<S>,
    over: Seq<S>,
    heard: Heard,
) -> bool {
    crate::output::is_popped(
        math,
        id,
        if scaled % 2 == 0 {
            scaled + 8
        } else {
            scaled + 7
        },
        peer,
        after,
        before,
        voice,
        under,
        over,
        heard,
    )
}

/// Peers are heard one over the other: the first over silence, and each over what the one before
/// it left. The last of them leaves what the sound comes on top of.
pub proof fn law_peers_are_heard_over_one_another<
    S: Copy,
    D: FrameDecoder<S>,
    P: Copy,
    M: OutputMath<S, P>,
>(
    math: &M,
    needed: int,
    len: nat,
    before: ClientView<S>,
    after: ClientView<S>,
    voices: Map<u32, Voice<D, P>>,
    voices_after: Map<u32, Voice<D, P>>,
    ids: Seq<u32>,
    parts: Seq<Part<S>>,
    output: Vec<S>,
    reports: Vec<ClientMessage>,
    i: int,
)
    requires
        crate::output::is_output(
            math,
            needed,
            len as int,
            before,
            after,
            voices,
            voices_after,
            ids,
            parts,
            Some((output, reports)),
        ),
        0 <= i < ids.len(),
    ensures
        parts.len() == ids.len(),
        ({
            let under = if i == 0 {
                Seq::new(len, |j: int| before.silence)
            } else {
                parts[i - 1].output
            };
            &&& voices.contains_key(ids[i]) ==> crate::output::is_popped(
                math,
                ids[i],
                needed,
                before.peers[ids[i]],
                after.peers[ids[i]],
                voices[ids[i]],
                voices_after[ids[i]],
                under,
                parts[i].output,
                parts[i].heard,
            )
            &&& !voices.contains_key(ids[i]) ==> parts[i].output == under
        }),
        crate::output::is_finished(math, before, parts.last().output, output@),
{
    let _ = ids[i];
}

/// Whoever had no turn stays as it was, peer and voice, and a number can have run out only with the
/// last turn.
pub proof fn law_no_turn_changes_nothing<
    S: Copy,
    D: FrameDecoder<S>,
    P: Copy,
    M: OutputMath<S, P>,
>(
    math: &M,
    needed: int,
    start: Seq<S>,
    ids: Seq<u32>,
    parts: Seq<Part<S>>,
    peers: Map<u32, PeerView<S>>,
    peers_after: Map<u32, PeerView<S>>,
    voices: Map<u32, Voice<D, P>>,
    voices_after: Map<u32, Voice<D, P>>,
    id: u32,
    i: int,
)
    requires
        crate::output::is_round(
            math,
            needed,
            start,
            ids,
            parts,
            peers,
            peers_after,
            voices,
            voices_after,
        ),
        forall|j: int| 0 <= j < parts.len() ==> ids[j] != id,
    ensures
        peers.contains_key(id) ==> peers_after[id] == peers[id],
        voices.contains_key(id) ==> voices_after[id] == voices[id],
        parts.len() <= ids.len(),
        0 <= i < parts.len() - 1 ==> !(parts[i].heard is Exhausted),
{
    let turns = ids.take(parts.len() as int);
    assert(!turns.contains(id)) by {
        if turns.contains(id) {
            let j = choose|j: int| 0 <= j < turns.len() && turns[j] == id;
            assert(ids[j] == id);
        }
    }
}

/// Every report that a peer's turn leaves behind is passed on, in the order of the turns, and no
/// other.
pub proof fn law_all_reports_are_passed_on<S>(parts: Seq<Part<S>>, part: Part<S>)
    ensures
        crate::output::reports_of(Seq::<Part<S>>::empty()).len() == 0,
        part.heard matches Heard::Played(Some(report)) ==> crate::output::reports_of(
            parts.push(part),
        ) == crate::output::reports_of(parts).push(report),
        !(part.heard matches Heard::Played(Some(_))) ==> crate::output::reports_of(
            parts.push(part),
        ) == crate::output::reports_of(parts),
{
    assert(parts.push(part).drop_last() =~= parts);
}

/// A voice comes with its peer, goes with it, forgets what it has heard when its peer speaks up
/// again, and gets another decoder when its peer changes its layout. No other message touches a
/// voice, and none touches another peer's.
pub proof fn law_voices_follow_their_peers<
    S,
    D: FrameDecoder<S>,
    P: Copy,
    M: OutputMath<S, P>,
>(
    math: &M,
    effect: ServerEffect,
    decoder: Option<D>,
    after: ClientView<S>,
    before: Map<u32, Voice<D, P>>,
    voices: Map<u32, Voice<D, P>>,
    id: u32,
)
    requires
        crate::output::is_voiced(math, effect, decoder, after, before, voices),
    ensures
        effect == (ServerEffect::Joined { peer_id: id }) ==> {
            &&& voices.contains_key(id)
            &&& decoder == Some(voices[id].decoder)
            &&& call_ensures(M::stillness, (math,), voices[id].volume)
            &&& call_ensures(M::origin, (math,), voices[id].at)
            &&& call_ensures(M::plain_rate, (math,), voices[id].rate)
            &&& call_ensures(M::first_latency, (math,), voices[id].latency)
            &&& call_ensures(M::no_loss, (math,), voices[id].reported)
        },
        effect == (ServerEffect::Left { peer_id: id }) ==> !voices.contains_key(id),
        effect == (ServerEffect::Woken { peer_id: id }) && before.contains_key(id) ==> {
            &&& voices.contains_key(id)
            &&& call_ensures(D::reset, (before[id].decoder,), voices[id].decoder)
            &&& call_ensures(M::origin, (math,), voices[id].at)
            &&& call_ensures(M::plain_rate, (math,), voices[id].rate)
            &&& call_ensures(
                M::latency_at,
                (math, after.peers[id].target as usize),
                voices[id].latency,
            )
            &&& voices[id].volume == before[id].volume
            &&& voices[id].reported == before[id].reported
        },
        effect == (ServerEffect::Relaid { peer_id: id }) && before.contains_key(id) ==> {
            &&& voices.contains_key(id)
            &&& decoder == Some(voices[id].decoder)
            &&& voices[id] == (Voice { decoder: voices[id].decoder, ..before[id] })
        },
        effect != (ServerEffect::Joined { peer_id: id }) && effect != (ServerEffect::Left {
            peer_id: id,
        }) ==> voices.contains_key(id) == before.contains_key(id),
        effect != (ServerEffect::Joined { peer_id: id }) && effect != (ServerEffect::Left {
            peer_id: id,
        }) && effect != (ServerEffect::Woken { peer_id: id }) && effect != (ServerEffect::Relaid {
            peer_id: id,
        }) && before.contains_key(id) ==> voices[id] == before[id],
{
}

/// A turn runs out of numbers only where the peer's refill did.
pub proof fn law_numbers_run_out_in_refills_only<
    S: Copy,
    D: FrameDecoder<S>,
    P: Copy,
    M: OutputMath<S, P>,
>(
    math: &M,
    peer_id: u32,
    needed: int,
    peer: PeerView<S>,
    after: PeerView<S>,
    before: Voice<D, P>,
    voice: Voice<D, P>,
    under: Seq<S>,
    over: Seq<S>,
    heard: Heard,
)
    requires
        crate::output::is_popped(
            math,
            peer_id,
            needed,
            peer,
            after,
            before,
            voice,
            under,
            over,
            heard,
        ),
        heard is Exhausted,
    ensures
        crate::refill::is_refilled(
            math,
            peer,
            after,
            before.decoder,
            voice.decoder,
            needed,
            RefillResult::Exhausted,
        ),
        over == under,
{
}

} // verus!
