//! What holds of a packet that comes in for a peer.

use crate::peer_model::{PeerView, MAX_SEQUENCE};
use vstd::prelude::*;

verus! {

/// A packet counts as late if playback has passed it, by a thousand frames at most.
pub open spec fn is_late(sequence: u32, next: u32) -> bool {
    sequence < next && next - sequence <= 1000
}

/// A packet never makes playback jump. Once a stream plays, the frame that is due stays due,
/// whatever comes in; while packets are only being collected, it can move back to a packet that
/// belongs before it, and nowhere else. Only the first packet after silence sets it freely.
pub proof fn law_packets_move_playback_back_only<S>(
    v: PeerView<S>,
    sequence: u32,
    payload: Seq<u8>,
)
    ensures
        ({
            let w = v.received(sequence, payload);
            &&& !w.awaiting_first_packet
            &&& v.awaiting_first_packet ==> w.next == sequence
            &&& !v.awaiting_first_packet && !v.is_buffering ==> w.next == v.next
            &&& !v.awaiting_first_packet && v.is_buffering && sequence < v.next ==> w.next
                == sequence
            &&& !v.awaiting_first_packet && v.is_buffering && sequence >= v.next ==> w.next
                == v.next
        }),
{
}

/// While packets are being collected, the order in which they come in does not matter for where
/// playback starts: it is the lowest of them.
pub proof fn law_collecting_starts_at_the_lowest<S>(
    v: PeerView<S>,
    one: u32,
    two: u32,
    first: Seq<u8>,
    second: Seq<u8>,
)
    requires
        v.awaiting_first_packet,
        v.is_buffering,
    ensures
        v.received(one, first).received(two, second).next == v.received(two, second).received(
            one,
            first,
        ).next,
        v.received(one, first).received(two, second).next <= one,
        v.received(one, first).received(two, second).next <= two,
        v.received(one, first).received(two, second).next == one || v.received(
            one,
            first,
        ).received(two, second).next == two,
{
}

/// The packets that wait after one more came in are those from before and this one, each with its
/// own payload: nothing else appears. It waits unless it lies over a thousand frames behind
/// playback; and where a thousand wait already, the lowest goes.
pub proof fn law_packets_wait_under_their_numbers<S>(
    v: PeerView<S>,
    sequence: u32,
    payload: Seq<u8>,
    k: u32,
)
    requires
        v.wf(),
        sequence <= MAX_SEQUENCE,
    ensures
        ({
            let w = v.received(sequence, payload);
            let fits = sequence + 1000 >= w.next;
            let full = v.jitter.dom().len() == 1000 && !v.jitter.contains_key(sequence);
            let lowest = (k == sequence || v.jitter.contains_key(k)) && k <= sequence && forall|
                j: u32,
            | #[trigger]
                v.jitter.contains_key(j) ==> k <= j;
            &&& w.jitter.contains_key(k) ==> (k == sequence && fits) || v.jitter.contains_key(k)
            &&& w.jitter.contains_key(k) ==> w.jitter[k] == if k == sequence && fits {
                payload
            } else {
                v.jitter[k]
            }
            &&& k == sequence && fits && !(full && lowest) ==> w.jitter.contains_key(k)
            &&& v.jitter.contains_key(k) && !(fits && full && lowest) ==> w.jitter.contains_key(k)
            &&& fits && full && lowest ==> !w.jitter.contains_key(k)
            &&& w.jitter.dom().len() <= 1000
        }),
{
    let w = v.received(sequence, payload);
    let synced = PeerView { bytes: v.bytes + payload.len(), ..v }.synced_to(sequence);
    let filed = synced.filed(sequence, payload);
    let keys = v.jitter.dom().insert(sequence);
    crate::peer_model::lemma_received_wf(v, sequence, payload);
    assert(w.next == synced.next);
    if sequence + 1000 >= w.next {
        assert(filed.jitter.dom() =~= keys);
        if keys.len() > 1000 {
            crate::jitter::lemma_has_lowest(keys);
            let low = crate::jitter::lowest(keys)->Some_0;
            assert(keys.contains(sequence));
            assert forall|j: u32| #[trigger] v.jitter.contains_key(j) implies low <= j by {
                assert(keys.contains(j));
            }
            if (k == sequence || v.jitter.contains_key(k)) && k <= sequence && forall|j: u32|
                #[trigger] v.jitter.contains_key(j) ==> k <= j {
                assert(crate::jitter::is_lowest(keys, k));
                crate::jitter::lemma_lowest(keys, k);
            }
        }
    }
}

/// A late packet takes its loss back, in all and in the running statistics; any other leaves the
/// account of losses alone.
pub proof fn law_late_packets_take_losses_back<S>(
    v: PeerView<S>,
    sequence: u32,
    payload: Seq<u8>,
)
    requires
        v.wf(),
    ensures
        ({
            let w = v.received(sequence, payload);
            let forgives = is_late(sequence, w.next) && v.lost.contains(sequence);
            &&& forgives ==> w.lost == v.lost.remove(sequence) && w.total_lost == v.total_lost - 1
            &&& forgives ==> w.stat_lost == if v.stat_lost > 0 {
                v.stat_lost - 1
            } else {
                0
            }
            &&& !forgives ==> w.lost == v.lost && w.total_lost == v.total_lost && w.stat_lost
                == v.stat_lost
        }),
{
    if v.lost.contains(sequence) {
        assert(v.lost.len() > 0) by {
            if v.lost.len() == 0 {
                assert(v.lost =~= Set::empty());
            }
        }
    }
}

/// A late packet calls for a deeper buffer, by one frame and up to a hundred, once more than fifty
/// frames have played and nothing is being collected. No other packet does.
pub proof fn law_late_packets_deepen_the_buffer<S>(
    v: PeerView<S>,
    sequence: u32,
    payload: Seq<u8>,
)
    requires
        v.wf(),
    ensures
        ({
            let w = v.received(sequence, payload);
            let calls = is_late(sequence, w.next) && !v.is_buffering && v.played > 50;
            &&& calls && v.target < 100 ==> w.target == v.target + 1
            &&& calls && v.target == 100 ==> w.target == 100
            &&& !calls ==> w.target == v.target
        }),
{
}

/// Every packet counts with the bytes of its payload, and but for where playback starts, the
/// packets, the losses and the depth of the buffer it changes nothing.
pub proof fn law_packets_change_nothing_else<S>(v: PeerView<S>, sequence: u32, payload: Seq<u8>)
    ensures
        ({
            let w = v.received(sequence, payload);
            &&& w.bytes == v.bytes + payload.len()
            &&& w == (PeerView {
                next: w.next,
                awaiting_first_packet: w.awaiting_first_packet,
                jitter: w.jitter,
                lost: w.lost,
                total_lost: w.total_lost,
                stat_lost: w.stat_lost,
                target: w.target,
                bytes: w.bytes,
                ..v
            })
        }),
{
}

/// A peer that falls silent loses the packets that wait, and nothing of what it has earned; one
/// that speaks up starts over, with a buffer of three frames and nothing counted in the running
/// statistics. Being told again changes nothing.
pub proof fn law_silence_starts_and_ends<S>(v: PeerView<S>, silenced: bool)
    ensures
        ({
            let w = v.silence_set(silenced);
            &&& w.is_silenced == silenced
            &&& v.is_silenced == silenced ==> w == v
            &&& v.is_silenced != silenced ==> {
                &&& w.jitter == Map::<u32, Seq<u8>>::empty()
                &&& w.awaiting_first_packet
                &&& w.is_buffering
                &&& w.stage is Idle
            }
            &&& !v.is_silenced && silenced ==> w == (PeerView {
                jitter: w.jitter,
                awaiting_first_packet: true,
                is_buffering: true,
                is_silenced: true,
                stage: w.stage,
                ..v
            })
            &&& v.is_silenced && !silenced ==> {
                &&& w.buffer.len() == 0
                &&& w.target == 3
                &&& w.next == 0
                &&& !w.was_plc
                &&& w.played == 0
                &&& w.good_frames == 0
                &&& w.stat_expected == 0
                &&& w.stat_lost == 0
                &&& w == (PeerView {
                    buffer: w.buffer,
                    jitter: w.jitter,
                    awaiting_first_packet: true,
                    is_buffering: true,
                    is_silenced: false,
                    target: 3,
                    next: 0,
                    was_plc: false,
                    played: 0,
                    good_frames: 0,
                    stat_expected: 0,
                    stat_lost: 0,
                    stage: w.stage,
                    ..v
                })
            }
        }),
{
}

/// A peer that starts over drops all audio and waits for a first packet, with everything else as
/// it was.
pub proof fn law_starting_over_drops_audio<S>(v: PeerView<S>)
    ensures
        ({
            let w = v.restarted();
            &&& w.buffer.len() == 0
            &&& w.jitter == Map::<u32, Seq<u8>>::empty()
            &&& w.is_buffering
            &&& w.awaiting_first_packet
            &&& w.stage is Idle
            &&& w == (PeerView {
                buffer: w.buffer,
                jitter: w.jitter,
                is_buffering: true,
                awaiting_first_packet: true,
                stage: w.stage,
                ..v
            })
        }),
{
}

/// A peer that has just joined is silent, empty and waits for a first packet; nothing is counted
/// yet, a frame counts as 480 samples a channel, and the buffer aims at one frame.
pub proof fn law_new_peers_are_silent<S>(channels: crate::types::Channels, silence: S)
    ensures
        ({
            let w = PeerView::fresh(channels, silence);
            &&& w.channels == channels && w.silence == silence
            &&& w.is_silenced && w.awaiting_first_packet && w.is_buffering
            &&& w.buffer.len() == 0 && w.jitter == Map::<u32, Seq<u8>>::empty()
            &&& w.lost == Set::<u32>::empty()
            &&& w.total_expected == 0 && w.total_lost == 0 && w.stat_expected == 0 && w.stat_lost
                == 0
            &&& w.good_frames == 0 && w.silence_frames == 0 && w.played == 0 && w.streak == 0
            &&& w.target == 1 && w.last_frame_size == 480 && w.next == 0
            &&& w.bytes == 0 && w.ping == 0 && !w.was_plc
            &&& w.stage is Idle
            &&& w.wf()
        }),
{
}

} // verus!
