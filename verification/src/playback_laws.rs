//! What holds of a refill's steps: when it stops, which frame it picks, what becomes of a frame
//! that was decoded, made up or joined from two, and how deep the buffer should be.

use crate::peer_model::{ActionView, EventView, Layout, MixPlan, PeerView, RefillStage};
use crate::types::Channels;
use vstd::prelude::*;

verus! {

/// A refill that begins counts silence, and then goes on from where it stands.
pub proof fn law_beginning_goes_on<S>(v: PeerView<S>, pcm_len: int, outputs: int)
    requires
        v.stage is Idle,
    ensures
        ({
            let tired = v.is_silenced && v.silence_frames >= 99;
            let u = PeerView {
                silence_frames: if !v.is_silenced || tired {
                    0
                } else {
                    v.silence_frames + 1
                },
                target: if tired && v.target > 0 {
                    v.target - 1
                } else if tired {
                    0
                } else {
                    v.target
                },
                ..v
            };
            v.step(EventView::Begin, pcm_len, outputs) == u.advanced(pcm_len)
        }),
{
}

/// A mixed frame joins what waits, in place of the part that it was blended with, and the refill
/// goes on from there.
pub proof fn law_mixed_frames_join_and_go_on<S>(
    v: PeerView<S>,
    plan: MixPlan,
    frame: Seq<S>,
    pcm_len: int,
    outputs: int,
)
    requires
        v.wf(),
        v.stage == RefillStage::Mixing(plan),
    ensures
        ({
            let kept = v.buffer.len() - plan.overlap;
            let joined = Seq::new(
                (kept + frame.len()) as nat,
                |i: int|
                    if i < kept {
                        v.buffer[i]
                    } else {
                        frame[i - kept]
                    },
            );
            let u = PeerView { buffer: joined, stage: RefillStage::Idle, ..v };
            v.step(EventView::Mixed(frame), pcm_len, outputs) == u.advanced(pcm_len)
        }),
{
    let kept = v.buffer.len() - plan.overlap;
    let joined = Seq::new(
        (kept + frame.len()) as nat,
        |i: int|
            if i < kept {
                v.buffer[i]
            } else {
                frame[i - kept]
            },
    );
    assert(v.mixed(plan, frame).buffer =~= joined);
}

/// Two frames that could not be decoded are passed over, and the refill goes on behind them.
pub proof fn law_failed_joins_are_passed_over<S>(v: PeerView<S>, pcm_len: int, outputs: int)
    requires
        v.stage is Crossfading,
        v.next < u32::MAX,
    ensures
        v.step(EventView::Crossfaded(None), pcm_len, outputs) == (PeerView {
            next: (v.next + 1) as u32,
            stage: RefillStage::Idle,
            ..v
        }).advanced(pcm_len),
{
}

/// With enough samples, or before a first packet, a refill stops and leaves all as it is.
pub proof fn law_enough_is_enough<S>(u: PeerView<S>, pcm_len: int)
    requires
        u.stage is Idle,
        u.buffer.len() >= pcm_len || u.awaiting_first_packet,
    ensures
        u.advanced(pcm_len) == (u, ActionView::Stop),
{
}

/// The packets that wait reach from `oldest` to `newest`.
pub open spec fn reach(packets: Map<u32, Seq<u8>>, oldest: u32, newest: u32) -> bool {
    &&& packets.contains_key(oldest)
    &&& packets.contains_key(newest)
    &&& forall|k: u32| #[trigger] packets.contains_key(k) ==> oldest <= k <= newest
}

/// The bounds of the packets that wait are what a refill goes by.
proof fn lemma_reach(packets: Map<u32, Seq<u8>>, oldest: u32, newest: u32)
    requires
        reach(packets, oldest, newest),
    ensures
        crate::jitter::lowest(packets.dom()) == Some(oldest),
        crate::jitter::highest(packets.dom()) == Some(newest),
{
    crate::jitter::lemma_lowest(packets.dom(), oldest);
    crate::jitter::lemma_highest(packets.dom(), newest);
}

/// The frames that wait are counted from the one that is due through the newest, missing ones
/// included; there are none once playback has passed them all.
pub proof fn law_the_queue_is_counted_from_the_due_frame<S>(
    u: PeerView<S>,
    oldest: u32,
    newest: u32,
)
    ensures
        reach(u.jitter, oldest, newest) && newest >= u.next ==> u.queued() == newest - u.next + 1,
        reach(u.jitter, oldest, newest) && newest < u.next ==> u.queued() == 0,
        u.jitter == Map::<u32, Seq<u8>>::empty() ==> u.queued() == 0,
{
    if reach(u.jitter, oldest, newest) {
        lemma_reach(u.jitter, oldest, newest);
    } else if u.jitter == Map::<u32, Seq<u8>>::empty() {
        crate::jitter::lemma_no_bounds(u.jitter.dom());
    }
}

/// Output drops what it has passed from the front of what waits, in whole stereo frames, and never
/// more than there is.
pub proof fn law_passed_samples_are_dropped<S>(u: PeerView<S>, frames: int)
    requires
        0 <= frames,
    ensures
        ({
            let w = u.pulled(frames);
            &&& w == (PeerView { buffer: w.buffer, ..u })
            &&& u.buffer.len() >= 2 * frames ==> w.buffer.len() == u.buffer.len() - 2 * frames
            &&& u.buffer.len() < 2 * frames ==> w.buffer.len() == 0
            &&& forall|i: int|
                0 <= i < w.buffer.len() ==> #[trigger] w.buffer[i] == u.buffer[i + 2 * frames]
        }),
{
}

/// While packets are being collected, nothing is played but silence, up to the length asked for,
/// and nothing is counted. That lasts until they span three frames; after more than three frames
/// in a row were missed, any packet will do.
pub proof fn law_collecting_is_silent<S>(u: PeerView<S>, pcm_len: int, oldest: u32, newest: u32)
    requires
        u.stage is Idle,
        u.buffer.len() < pcm_len,
        !u.awaiting_first_packet,
        u.is_buffering,
        reach(u.jitter, oldest, newest) || u.jitter == Map::<u32, Seq<u8>>::empty(),
    ensures
        ({
            let (w, action) = u.advanced(pcm_len);
            let collects = u.jitter == Map::<u32, Seq<u8>>::empty() || (newest - oldest < 2
                && u.streak <= 3);
            &&& collects <==> w.is_buffering
            &&& collects <==> action is StopSilent
            &&& collects ==> {
                &&& w.buffer.len() == pcm_len
                &&& forall|i: int|
                    0 <= i < pcm_len ==> #[trigger] w.buffer[i] == if i < u.buffer.len() {
                        u.buffer[i]
                    } else {
                        u.silence
                    }
                &&& w == (PeerView { buffer: w.buffer, ..u })
            }
        }),
{
    if reach(u.jitter, oldest, newest) {
        lemma_reach(u.jitter, oldest, newest);
    } else {
        crate::jitter::lemma_no_bounds(u.jitter.dom());
    }
}

/// Playback picks up: more samples are wanted and there is nothing to wait for, so that the frame
/// `due` is to be played, out of the packets from `oldest` to `newest`. That is the oldest packet
/// where collecting ends, and else the frame that was due; but playback that fell more than thirty
/// frames behind the newest packet jumps to the oldest one.
pub open spec fn picks_up<S>(
    u: PeerView<S>,
    pcm_len: int,
    oldest: u32,
    newest: u32,
    due: u32,
) -> bool {
    &&& u.stage is Idle
    &&& u.buffer.len() < pcm_len
    &&& !u.awaiting_first_packet
    &&& reach(u.jitter, oldest, newest)
    &&& u.is_buffering ==> newest - oldest >= 2 || u.streak > 3
    &&& due == if u.is_buffering || (!u.is_silenced && newest > u.next + 30) {
        oldest
    } else {
        u.next
    }
}

/// Of the frames that wait, two are joined into one exactly when playback has settled, more than
/// five frames over the target wait from the due one through the newest, and the due one and the
/// next are both there. Both are then taken out.
pub proof fn law_catching_up_takes_a_full_buffer<S>(
    u: PeerView<S>,
    pcm_len: int,
    oldest: u32,
    newest: u32,
    due: u32,
)
    requires
        picks_up(u, pcm_len, oldest, newest, due),
        due < u32::MAX,
        u.is_buffering || newest <= u.next + 30 || u.is_silenced,
    ensures
        ({
            let (w, action) = u.advanced(pcm_len);
            let waiting = newest + 1 - due;
            let next = (due + 1) as u32;
            let joins = u.played > 100 && waiting > u.target + 5 && u.jitter.contains_key(due)
                && u.jitter.contains_key(next);
            &&& joins <==> action is Crossfade
            &&& joins && due + 2 <= u32::MAX ==> {
                &&& action == (ActionView::Crossfade {
                    first: u.jitter[due],
                    second: u.jitter[next],
                    capacity: u.last_frame_size,
                })
                &&& w.jitter == u.jitter.remove(due).remove(next)
                &&& w.next == due + 2
                &&& w.stage is Crossfading
            }
        }),
{
    lemma_reach(u.jitter, oldest, newest);
}

/// Playback that jumped ahead joins two frames by the same rule, as many counting as were waiting
/// where it stood.
pub proof fn law_jumping_takes_the_oldest<S>(
    u: PeerView<S>,
    pcm_len: int,
    oldest: u32,
    newest: u32,
)
    requires
        picks_up(u, pcm_len, oldest, newest, oldest),
        oldest < u32::MAX,
        !u.is_buffering,
        !u.is_silenced,
        newest > u.next + 30,
    ensures
        ({
            let (w, action) = u.advanced(pcm_len);
            let next = (oldest + 1) as u32;
            let joins = u.played > 100 && newest + 1 - u.next > u.target + 5
                && u.jitter.contains_key(next);
            &&& joins && oldest + 2 <= u32::MAX ==> {
                &&& action == (ActionView::Crossfade {
                    first: u.jitter[oldest],
                    second: u.jitter[next],
                    capacity: u.last_frame_size,
                })
                &&& w.next == oldest + 2
                &&& w.jitter == u.jitter.remove(oldest).remove(next)
            }
            &&& !joins ==> {
                &&& action == (ActionView::Decode {
                    payload: u.jitter[oldest],
                    capacity: 5760 * u.channels.width(),
                    fec: false,
                })
                &&& w.next == oldest
                &&& w.jitter == u.jitter.remove(oldest)
            }
        }),
{
    lemma_reach(u.jitter, oldest, newest);
}

/// A frame that is due and waits is decoded alone, unless two are joined: with room for the longest
/// frame there is, and taken out of those that wait.
pub proof fn law_due_frames_are_decoded<S>(
    u: PeerView<S>,
    pcm_len: int,
    oldest: u32,
    newest: u32,
    due: u32,
)
    requires
        picks_up(u, pcm_len, oldest, newest, due),
        u.jitter.contains_key(due),
        !(u.advanced(pcm_len).1 is Crossfade),
    ensures
        ({
            let (w, action) = u.advanced(pcm_len);
            &&& action == (ActionView::Decode {
                payload: u.jitter[due],
                capacity: 5760 * u.channels.width(),
                fec: false,
            })
            &&& w.jitter == u.jitter.remove(due)
            &&& w.next == due
            &&& w.stage is Decoding
        }),
{
    lemma_reach(u.jitter, oldest, newest);
}

/// A frame that is due and missing is made up: with the redundancy in the packet behind it where
/// that waits, and else from nothing, as long as the last frame was. A peer that fell silent is
/// faded out instead, over at most 160 samples and whole frames only. No packet is used up.
pub proof fn law_missing_frames_are_made_up<S>(
    u: PeerView<S>,
    pcm_len: int,
    oldest: u32,
    newest: u32,
    due: u32,
)
    requires
        u.wf(),
        picks_up(u, pcm_len, oldest, newest, due),
        due < u32::MAX,
        !u.jitter.contains_key(due),
    ensures
        ({
            let (w, action) = u.advanced(pcm_len);
            let next = (due + 1) as u32;
            let width = u.channels.width();
            &&& w.jitter == u.jitter
            &&& w.next == due
            &&& if u.is_silenced {
                fades_out(u.buffer.len() as int, w, action)
            } else if u.jitter.contains_key(next) {
                &&& action == (ActionView::Decode {
                    payload: u.jitter[next],
                    capacity: 5760 * width,
                    fec: true,
                })
                &&& w.stage == (RefillStage::Concealing { fec: true })
            } else {
                is_made_up_blind(u, w, action)
            }
        }),
{
    lemma_reach(u.jitter, oldest, newest);
}

/// The samples that wait fade out at their end: at most 160 of them, in whole stereo frames.
pub open spec fn fades_out<S>(waiting: int, w: PeerView<S>, action: ActionView) -> bool {
    &&& action matches ActionView::FadeOut { start, len } && start + len == waiting && len % 2 == 0
        && 0 <= len <= 160 && (len == 160 || len + 1 >= waiting)
    &&& w.was_plc
    &&& w.stage is Idle
}

/// A frame is made up from nothing, as long as the last one was, or 480 samples a channel.
pub open spec fn is_made_up_blind<S>(u: PeerView<S>, w: PeerView<S>, action: ActionView) -> bool {
    &&& action matches ActionView::Decode { payload, capacity, fec } && payload.len() == 0 && !fec
        && capacity == u.channels.width() * if u.last_frame_size > 0 {
        u.last_frame_size
    } else {
        480
    }
    &&& w.stage == (RefillStage::Concealing { fec: false })
}

/// Without any packet the frame that is due is made up from nothing; a peer that fell silent is
/// faded out.
pub proof fn law_dropouts_are_made_up<S>(u: PeerView<S>, pcm_len: int)
    requires
        u.wf(),
        u.stage is Idle,
        u.buffer.len() < pcm_len,
        !u.awaiting_first_packet,
        !u.is_buffering,
        u.jitter == Map::<u32, Seq<u8>>::empty(),
    ensures
        ({
            let (w, action) = u.advanced(pcm_len);
            &&& w.next == u.next
            &&& w.jitter == u.jitter
            &&& if u.is_silenced {
                fades_out(u.buffer.len() as int, w, action)
            } else {
                is_made_up_blind(u, w, action)
            }
        }),
{
    crate::jitter::lemma_no_bounds(u.jitter.dom());
}

/// Picking a frame counts it as expected, ends any collecting, and touches no sample, no target
/// and no other number.
pub proof fn law_picking_counts_one_frame<S>(u: PeerView<S>, pcm_len: int)
    requires
        u.stage is Idle,
        u.buffer.len() < pcm_len,
        !u.awaiting_first_packet,
        !(u.advanced(pcm_len).1 is StopSilent),
    ensures
        ({
            let (w, action) = u.advanced(pcm_len);
            &&& w.total_expected == u.total_expected + 1
            &&& w.stat_expected == u.stat_expected + 1
            &&& !w.is_buffering
            &&& !(action is FadeOut) ==> w.was_plc == u.was_plc
            &&& w == (PeerView {
                total_expected: w.total_expected,
                stat_expected: w.stat_expected,
                is_buffering: false,
                next: w.next,
                jitter: w.jitter,
                was_plc: w.was_plc,
                stage: w.stage,
                ..u
            })
        }),
{
}

/// The samples that wait, without an odd one at the end.
pub open spec fn whole_frames<S>(buffer: Seq<S>) -> Seq<S> {
    if buffer.len() % 2 == 1 {
        buffer.drop_last()
    } else {
        buffer
    }
}

/// Half a second of good frames, by the length of a frame: so many are needed for a shallower
/// buffer.
pub open spec fn half_second(frame_size: int) -> int {
    let millis = frame_size * 1000 / 48000;
    if millis > 0 {
        500int / millis
    } else {
        50
    }
}

/// A frame of `decoded` samples is ready to be mixed into what waited as `v`, for a device of
/// `outputs` channels. Mono goes to both ears and stereo into one; only the beginning of a
/// sentence, with nothing before it, rises from silence, over at most 128 samples; and only audio
/// that was made up is blended, over at most 240 samples, with all before them dropped.
pub open spec fn is_ready<S>(
    v: PeerView<S>,
    w: PeerView<S>,
    action: ActionView,
    decoded: int,
    played: int,
    outputs: int,
) -> bool {
    let waiting = whole_frames(v.buffer);
    let begins = played < 2 && waiting.len() == 0 && !v.was_plc;
    &&& w.stage matches RefillStage::Mixing(plan) && {
        &&& action == ActionView::Mix(plan)
        &&& plan.decoded == decoded
        &&& plan.layout == if v.channels == Channels::Mono && outputs == 2 {
            Layout::Duplicate
        } else if v.channels == Channels::Stereo && outputs == 1 {
            Layout::Average
        } else {
            Layout::Keep
        }
        &&& plan.frame == match plan.layout {
            Layout::Keep => decoded,
            Layout::Duplicate => decoded + decoded,
            Layout::Average => decoded / 2,
        }
        &&& begins && decoded >= 128 ==> plan.fade_in == 128
        &&& begins && decoded < 128 ==> plan.fade_in == decoded
        &&& !begins ==> plan.fade_in == 0
        &&& !v.was_plc ==> plan.overlap == 0 && w.buffer == waiting
        &&& v.was_plc ==> {
            &&& plan.overlap <= 240 && plan.overlap <= waiting.len() && plan.overlap <= plan.frame
            &&& plan.overlap == 240 || plan.overlap == waiting.len() || plan.overlap + 1
                >= plan.frame
            &&& w.buffer == waiting.skip(waiting.len() - plan.overlap)
        }
    }
    &&& w.played == played
    &&& w.was_plc ==> v.stage is Crossfading
    &&& v.stage is Crossfading ==> w.was_plc == !(v.was_plc && waiting.len() > 0)
}

/// After a frame, packets and losses that playback has passed are forgotten: packets at once,
/// losses after a thousand frames.
pub open spec fn is_swept<S>(w: PeerView<S>, packets: Map<u32, Seq<u8>>, lost: Set<u32>) -> bool {
    &&& forall|k: u32| #[trigger]
        w.jitter.contains_key(k) <==> packets.contains_key(k) && k >= w.next
    &&& forall|k: u32| #[trigger] w.jitter.contains_key(k) ==> w.jitter[k] == packets[k]
    &&& forall|k: u32| #[trigger] w.lost.contains(k) <==> lost.contains(k) && k + 1000 >= w.next
}

/// Good frames, so many of them by now, earn a shallower buffer after half a second, though never
/// one of less than a frame; the count then starts over.
pub open spec fn is_rewarded<S>(target: int, good: int, w: PeerView<S>) -> bool {
    if good >= half_second(w.last_frame_size) {
        w.good_frames == 0 && w.target == if target > 1 {
            target - 1
        } else {
            1
        }
    } else {
        w.good_frames == good && w.target == target
    }
}

/// Collecting ends early once more packets wait than the target asks for, and more than one.
pub open spec fn is_supplied<S>(v: PeerView<S>, target: int) -> bool {
    v.jitter.dom().len() > target && v.jitter.dom().len() > 1
}

/// One more frame has played, though no more than a thousand are counted.
pub open spec fn one_more(played: int) -> int {
    if played < 1000 {
        played + 1
    } else {
        1000
    }
}

/// What follows a frame that can be mixed, spelled out.
proof fn lemma_finished<S>(x: PeerView<S>, skipped: bool, n: int, pcm_len: int, outputs: int)
    requires
        x.wf(),
        x.stage is Idle,
        0 <= n <= 11520,
    ensures
        ({
            let (w, action) = x.finished(skipped, Some(n), pcm_len, outputs);
            let y = PeerView {
                stage: if skipped {
                    RefillStage::Crossfading
                } else {
                    RefillStage::Decoding
                },
                ..x
            };
            &&& is_ready(
                y,
                w,
                action,
                n,
                if skipped {
                    x.played
                } else {
                    one_more(x.played)
                },
                outputs,
            )
            &&& is_rewarded(x.target, x.good_frames, w)
            &&& is_swept(w, x.jitter, x.lost)
            &&& w.is_buffering == (x.is_buffering && !is_supplied(x, x.target))
            &&& w.next == x.next
            &&& w.streak == x.streak
            &&& w.last_frame_size == x.last_frame_size
            &&& keeps_counts(x, w)
        }),
{
    let (w, action) = x.finished(skipped, Some(n), pcm_len, outputs);
    let v = x.evened().supplied();
    let waiting = whole_frames(x.buffer);
    assert(v.buffer =~= waiting);
    let plan = PeerView {
        played: if skipped {
            v.played
        } else {
            crate::peer_model::min_of(v.played + 1, 1000)
        },
        ..v
    }.plan(n, outputs);
    assert(w.stage == RefillStage::Mixing(plan));
    if x.was_plc {
        assert(w.buffer =~= waiting.skip(waiting.len() - plan.overlap));
    }
    assert forall|k: u32| #[trigger]
        w.jitter.contains_key(k) <==> x.jitter.contains_key(k) && k >= w.next by {
        assert(w.jitter.dom().contains(k) == (x.jitter.dom().contains(k) && k >= w.next));
    }
}

/// Nothing could be made of a frame: silence fills what waits up to the length asked for, in whole
/// frames, and what comes next is blended with it.
pub open spec fn is_muted<S>(v: PeerView<S>, w: PeerView<S>, action: ActionView, pcm_len: int) -> bool {
    let waiting = whole_frames(v.buffer);
    &&& action is StopSilent
    &&& w.stage is Idle
    &&& w.buffer.len() >= waiting.len()
    &&& forall|i: int| 0 <= i < waiting.len() ==> #[trigger] w.buffer[i] == waiting[i]
    &&& forall|i: int| waiting.len() <= i < w.buffer.len() ==> #[trigger] w.buffer[i] == v.silence
    &&& (w.buffer.len() - waiting.len()) % 2 == 0
    &&& w.buffer.len() >= pcm_len
    &&& w.buffer.len() <= pcm_len + 1 || w.buffer.len() == waiting.len()
    &&& w.was_plc == (v.was_plc || w.buffer.len() > waiting.len())
    &&& w.played == v.played
    &&& w.jitter == v.jitter
}

/// A frame that was decoded is played next, whole: it ends any run of missing frames, counts as a
/// good one, and sets how long a frame is.
pub proof fn law_decoded_frames_are_played<S>(
    v: PeerView<S>,
    n: int,
    pcm_len: int,
    outputs: int,
)
    requires
        v.wf(),
        v.stage is Decoding,
        0 <= n <= 5760,
    ensures
        ({
            let (w, action) = v.step(EventView::Decoded(Some(n)), pcm_len, outputs);
            &&& is_ready(v, w, action, n * v.channels.width(), one_more(v.played), outputs)
            &&& w.next == v.next + 1
            &&& w.streak == 0
            &&& w.last_frame_size == n
            &&& is_rewarded(v.target, v.good_frames + 1, w)
            &&& is_swept(w, v.jitter, v.lost)
            &&& w.is_buffering == (v.is_buffering && !is_supplied(v, v.target))
            &&& keeps_counts(v, w)
        }),
{
    let width = v.channels.width();
    assert(0 <= n * width <= 11520);
    lemma_finished(v.frame_decoded(Some(n)), false, n * width, pcm_len, outputs);
}

/// No frame more was expected or lost.
pub open spec fn keeps_counts<S>(v: PeerView<S>, w: PeerView<S>) -> bool {
    &&& w.total_expected == v.total_expected
    &&& w.total_lost == v.total_lost
    &&& w.stat_expected == v.stat_expected
    &&& w.stat_lost == v.stat_lost
    &&& keeps_rest(v, w)
}

/// What a frame has no part in has not changed.
pub open spec fn keeps_rest<S>(v: PeerView<S>, w: PeerView<S>) -> bool {
    &&& w.channels == v.channels
    &&& w.silence == v.silence
    &&& w.is_silenced == v.is_silenced
    &&& w.awaiting_first_packet == v.awaiting_first_packet
    &&& w.silence_frames == v.silence_frames
    &&& w.bytes == v.bytes
    &&& w.ping == v.ping
}

/// A packet that could not be decoded leaves silence behind, and playback moves on.
pub proof fn law_undecodable_frames_are_silent<S>(v: PeerView<S>, pcm_len: int, outputs: int)
    requires
        v.wf(),
        v.stage is Decoding,
        pcm_len >= 0,
    ensures
        ({
            let (w, action) = v.step(EventView::Decoded(None), pcm_len, outputs);
            &&& is_muted(v, w, action, pcm_len)
            &&& w.next == v.next + 1
            &&& w.streak == 0
            &&& w.good_frames == v.good_frames + 1
            &&& w.target == v.target
            &&& w.last_frame_size == v.last_frame_size
            &&& w.lost == v.lost
            &&& w.is_buffering == (v.is_buffering && !is_supplied(v, v.target))
            &&& keeps_counts(v, w)
        }),
{
    assert(v.frame_decoded(None).evened().buffer =~= whole_frames(v.buffer));
}

/// Redundancy that could not be decoded is no end: the frame is then made up from nothing.
pub proof fn law_redundancy_is_tried_first<S>(v: PeerView<S>, pcm_len: int, outputs: int)
    requires
        v.stage == (RefillStage::Concealing { fec: true }),
    ensures
        ({
            let (w, action) = v.step(EventView::Decoded(None), pcm_len, outputs);
            &&& is_made_up_blind(v, w, action)
            &&& w == (PeerView { stage: w.stage, ..v })
        }),
{
}

/// The target after a frame was made up: in a long dropout, every eighth frame made up from nothing
/// asks for one frame more, up to sixty.
pub open spec fn strained_target<S>(v: PeerView<S>, blind: bool) -> int {
    if blind && v.streak > 8 && v.streak % 8 == 0 {
        if v.target < 60 {
            v.target + 1
        } else {
            60
        }
    } else {
        v.target
    }
}

/// A frame that was made up is played, and counts as lost under its number, in all and in the
/// running statistics. It ends no run of missing frames but lengthens it, and costs two good
/// ones. After more than fifteen in a row, with no packet behind, packets are collected again.
pub proof fn law_made_up_frames_are_lost<S>(
    v: PeerView<S>,
    fec: bool,
    samples: Option<int>,
    pcm_len: int,
    outputs: int,
)
    requires
        v.wf(),
        v.stage == (RefillStage::Concealing { fec }),
        !(fec && samples is None),
        samples matches Some(n) ==> 0 <= n <= 5760,
        pcm_len >= 0,
    ensures
        ({
            let (w, action) = v.step(EventView::Decoded(samples), pcm_len, outputs);
            let target = strained_target(v, !fec && samples is Some);
            let good = if v.good_frames > 2 {
                v.good_frames - 2
            } else {
                0
            };
            let followed = exists|k: u32| #[trigger] v.jitter.contains_key(k) && k > v.next;
            let collects = v.is_buffering || (!followed && v.streak + 1 > 15);
            &&& w.next == v.next + 1
            &&& w.streak == v.streak + 1
            &&& w.total_lost == v.total_lost + 1
            &&& w.stat_lost == v.stat_lost + 1
            &&& w.total_expected == v.total_expected
            &&& w.stat_expected == v.stat_expected
            &&& w.is_buffering == (collects && !is_supplied(v, target))
            &&& keeps_rest(v, w)
            &&& match samples {
                Some(n) if n > 0 => {
                    &&& is_ready(
                        v,
                        w,
                        action,
                        n * v.channels.width(),
                        one_more(v.played),
                        outputs,
                    )
                    &&& w.last_frame_size == n
                    &&& is_rewarded(target, good, w)
                    &&& is_swept(w, v.jitter, v.lost.insert(v.next))
                },
                _ => {
                    &&& is_muted(v, w, action, pcm_len)
                    &&& w.last_frame_size == v.last_frame_size
                    &&& w.good_frames == good
                    &&& w.target == target
                    &&& w.lost == v.lost.insert(v.next)
                },
            }
        }),
{
    let width = v.channels.width();
    if let Some(n) = samples {
        assert(0 <= n * width <= 11520);
    }
    let s = if !fec && samples is Some {
        v.strained()
    } else {
        v
    };
    let x = s.frame_lost(samples);
    assert(x.evened().buffer =~= whole_frames(v.buffer));
    if let Some(n) = samples {
        if n > 0 {
            lemma_finished(x, false, n * width, pcm_len, outputs);
        }
    }
    if v.jitter.dom().len() > 0 {
        crate::jitter::lemma_has_highest(v.jitter.dom());
    } else {
        assert(v.jitter.dom() =~= Set::empty());
        crate::jitter::lemma_no_bounds(v.jitter.dom());
    }
}

/// Two frames that were joined into one are played as one, and count as two good ones; the second
/// of them was expected too.
pub proof fn law_joined_frames_are_played<S>(
    v: PeerView<S>,
    first: int,
    second: int,
    pcm_len: int,
    outputs: int,
)
    requires
        v.wf(),
        v.stage is Crossfading,
        0 <= first * v.channels.width() <= v.last_frame_size,
    ensures
        ({
            let (w, action) = v.step(EventView::Crossfaded(Some((first, second))), pcm_len, outputs);
            &&& is_ready(v, w, action, first * v.channels.width(), v.played, outputs)
            &&& w.total_expected == v.total_expected + 1
            &&& w.stat_expected == v.stat_expected + 1
            &&& w.total_lost == v.total_lost
            &&& w.stat_lost == v.stat_lost
            &&& w.next == v.next
            &&& w.streak == v.streak
            &&& w.last_frame_size == v.last_frame_size
            &&& is_rewarded(v.target, v.good_frames + 2, w)
            &&& is_swept(w, v.jitter, v.lost)
            &&& w.is_buffering == (v.is_buffering && !is_supplied(v, v.target))
            &&& keeps_rest(v, w)
        }),
{
    let x = PeerView {
        good_frames: v.good_frames + 2,
        stage: RefillStage::Idle,
        ..v.expecting()
    };
    lemma_finished(x, true, first * v.channels.width(), pcm_len, outputs);
}

/// A refill lacks room for a step only where a counter or the numbers of packets have come to their
/// end, or all but.
pub proof fn law_room_ends_with_the_numbers<S>(
    v: PeerView<S>,
    event: EventView<S>,
    pcm_len: int,
)
    requires
        v.wf(),
        v.expects(event),
        !v.has_room(event, pcm_len),
    ensures
        ({
            ||| v.stat_expected >= u32::MAX
            ||| v.total_expected >= u32::MAX
            ||| v.good_frames + 2 > u32::MAX
            ||| v.streak >= u32::MAX
            ||| v.next + 31 > u32::MAX
        }),
{
}

/// In each stage a refill waits for the answer to what it asked for, and for no other; samples
/// that were given must fit what was asked.
pub proof fn law_refills_wait_for_their_answer<S>(v: PeerView<S>, event: EventView<S>)
    ensures
        v.expects(event) == match event {
            EventView::Begin => v.stage is Idle,
            EventView::Decoded(None) => v.stage is Decoding || v.stage is Concealing,
            EventView::Decoded(Some(n)) => (v.stage is Decoding || v.stage is Concealing) && 0 <= n
                <= 5760,
            EventView::Crossfaded(None) => v.stage is Crossfading,
            EventView::Crossfaded(Some((first, second))) => v.stage is Crossfading && 0 <= first
                * v.channels.width() <= v.last_frame_size && 0 <= second * v.channels.width()
                <= v.last_frame_size,
            EventView::Mixed(frame) => v.stage matches RefillStage::Mixing(plan) && frame.len()
                == plan.frame,
        },
{
}

} // verus!
