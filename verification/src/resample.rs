//! Playing a peer's samples at a rate that differs slightly from the one they were recorded at.
//! How positions and samples are computed with is left to the caller; which samples an output
//! frame is made of, and when the samples run out, is settled here.

use crate::mix::SampleMath;
use crate::peer::PeerState;
use crate::peer_model::PeerView;
use vstd::prelude::*;

verus! {

/// The arithmetic of positions between frames.
pub trait PlayMath<S, P>: SampleMath<S> {
    /// The frame at or before a position.
    fn whole(&self, at: P) -> usize;

    /// The position after one more output frame.
    fn advanced(&self, at: P, rate: P) -> P;

    /// The position once so many frames were dropped.
    fn rewound(&self, at: P, frames: usize) -> P;

    /// The sample at a position, from the one before its frame, the one of its frame and the two
    /// after it.
    fn interpolated(&self, before: S, here: S, next: S, last: S, at: P) -> S;
}

/// `after` is what a channel's sample becomes when output is at `at`, in the given frame.
pub open spec fn is_played<S: Copy, P: Copy, M: PlayMath<S, P>>(
    math: &M,
    buffer: Seq<S>,
    frame: int,
    channel: int,
    at: P,
    before: S,
    after: S,
) -> bool {
    let earlier = if frame > 0 {
        frame - 1
    } else {
        frame
    };
    exists|sample: S|
        #![trigger call_ensures(M::plus, (math, before, sample), after)]
        {
            &&& call_ensures(
                M::interpolated,
                (
                    math,
                    buffer[2 * earlier + channel],
                    buffer[2 * frame + channel],
                    buffer[2 * frame + 2 + channel],
                    buffer[2 * frame + 4 + channel],
                    at,
                ),
                sample,
            )
            &&& call_ensures(M::plus, (math, before, sample), after)
        }
}

/// `after` is the output once as many frames were played as `frames` tells, each from the frame
/// named there. The positions are those of the output frames, and the one to go on from.
pub open spec fn plays<S: Copy, P: Copy, M: PlayMath<S, P>>(
    math: &M,
    buffer: Seq<S>,
    before: Seq<S>,
    after: Seq<S>,
    rate: P,
    positions: Seq<P>,
    frames: Seq<usize>,
) -> bool {
    &&& positions.len() == frames.len() + 1
    &&& after.len() == before.len()
    &&& 2 * frames.len() <= before.len()
    &&& forall|k: int|
        0 <= k < frames.len() ==> {
            &&& call_ensures(M::whole, (math, positions[k]), #[trigger] frames[k])
            &&& 2 * frames[k] + 6 < buffer.len()
            &&& call_ensures(M::advanced, (math, positions[k], rate), positions[k + 1])
            &&& is_played(
                math,
                buffer,
                frames[k] as int,
                0,
                positions[k],
                before[2 * k],
                after[2 * k],
            )
            &&& is_played(
                math,
                buffer,
                frames[k] as int,
                1,
                positions[k],
                before[2 * k + 1],
                after[2 * k + 1],
            )
        }
    &&& forall|i: int| 2 * frames.len() <= i < after.len() ==> #[trigger] after[i] == before[i]
}

/// No sample is left for an output frame at a position.
pub open spec fn runs_out<S: Copy, P: Copy, M: PlayMath<S, P>>(
    math: &M,
    buffer: Seq<S>,
    at: P,
) -> bool {
    exists|frame: usize| #[trigger]
        call_ensures(M::whole, (math, at), frame) && 2 * frame + 6 >= buffer.len()
}

/// The position from which to go on, once the frames that output has passed were dropped.
pub open spec fn goes_on<S: Copy, P: Copy, M: PlayMath<S, P>>(
    math: &M,
    at: P,
    frames: usize,
    next: P,
) -> bool {
    &&& call_ensures(M::whole, (math, at), frames)
    &&& if frames > 0 {
        call_ensures(M::rewound, (math, at, frames), next)
    } else {
        next == at
    }
}

/// A peer was played over an output through the given positions, from the given frames.
pub open spec fn pulls_through<S: Copy, P: Copy, M: PlayMath<S, P>>(
    math: &M,
    before: PeerView<S>,
    after: PeerView<S>,
    under: Seq<S>,
    over: Seq<S>,
    at: P,
    rate: P,
    next: P,
    positions: Seq<P>,
    frames: Seq<usize>,
    passed: usize,
) -> bool {
    &&& positions.len() > 0
    &&& positions[0] == at
    &&& plays(math, before.buffer, under, over, rate, positions, frames)
    &&& 2 * frames.len() == under.len() || runs_out(math, before.buffer, positions.last())
    &&& goes_on::<S, P, M>(math, positions.last(), passed, next)
    &&& after == before.pulled(passed as int)
}

/// A peer was played over an output, from a position on and at a rate, until the output was full
/// or the samples ran out. The frames that were passed are gone, and playback goes on at `next`.
pub open spec fn pulls<S: Copy, P: Copy, M: PlayMath<S, P>>(
    math: &M,
    before: PeerView<S>,
    after: PeerView<S>,
    under: Seq<S>,
    over: Seq<S>,
    at: P,
    rate: P,
    next: P,
) -> bool {
    exists|positions: Seq<P>, frames: Seq<usize>, passed: usize|
        pulls_through(
            math,
            before,
            after,
            under,
            over,
            at,
            rate,
            next,
            positions,
            frames,
            passed,
        )
}

impl<S: Copy> PeerState<S> {
    /// The sample of a channel at a position.
    fn sample_at<P: Copy, M: PlayMath<S, P>>(
        &self,
        math: &M,
        frame: usize,
        channel: usize,
        at: P,
        under: S,
    ) -> (sample: S)
        requires
            channel < 2,
            2 * frame + 6 < self@.buffer.len(),
        ensures
            is_played(
                math,
                self@.buffer,
                frame as int,
                channel as int,
                at,
                under,
                sample,
            ),
    {
        let total: usize = self.buffer.len();
        assert(2 * frame + 6 < total);
        let here: usize = 2 * frame + channel;
        let before: usize = if frame > 0 {
            here - 2
        } else {
            here
        };
        let sample = math.interpolated(
            self.buffer[before],
            self.buffer[here],
            self.buffer[here + 2],
            self.buffer[here + 4],
            at,
        );
        let played = math.plus(under, sample);
        assert(call_ensures(M::plus, (math, under, sample), played));
        played
    }

    /// Plays this peer over an output of stereo frames, from a position on and at a rate, until
    /// the output is full or the samples run out. The frames that were passed are dropped, and
    /// the result is where to go on from.
    pub fn pull_samples<P: Copy, M: PlayMath<S, P>>(
        &mut self,
        math: &M,
        output: &mut Vec<S>,
        at: P,
        rate: P,
    ) -> (next: P)
        requires
            old(self)@.wf(),
            old(self).stage is Idle,
            old(output)@.len() % 2 == 0,
        ensures
            final(self)@.wf(),
            pulls(
                math,
                old(self)@,
                final(self)@,
                old(output)@,
                final(output)@,
                at,
                rate,
                next,
            ),
    {
        let ghost buffer = self@.buffer;
        let ghost before = output@;
        let ghost mut positions: Seq<P> = seq![at];
        let ghost mut frames: Seq<usize> = Seq::empty();
        let mut position: P = at;
        let mut i: usize = 0;
        let mut dry: bool = false;
        while i < output.len() && !dry
            invariant
                self@.wf(),
                self.stage is Idle,
                self@ == old(self)@,
                self@.buffer == buffer,
                output@.len() == before.len(),
                before.len() % 2 == 0,
                before == old(output)@,
                i <= output@.len(),
                i == 2 * frames.len(),
                positions[0] == at,
                positions.last() == position,
                plays(math, buffer, before, output@, rate, positions, frames),
                dry ==> runs_out(math, buffer, position),
            decreases output@.len() - i,
                if dry {
                    0int
                } else {
                    1
                },
        {
            let frame: usize = math.whole(position);
            match self.taps(frame) {
                Some(_) => {
                    let ghost under = output@;
                    let left = self.sample_at(math, frame, 0, position, output[i]);
                    let right = self.sample_at(math, frame, 1, position, output[i + 1]);
                    output.set(i, left);
                    output.set(i + 1, right);
                    let next = math.advanced(position, rate);
                    proof {
                        let earlier = positions;
                        let played = frames;
                        positions = positions.push(next);
                        frames = frames.push(frame);
                        assert forall|k: int| 0 <= k < frames.len() implies {
                            &&& call_ensures(M::whole, (math, positions[k]), #[trigger] frames[k])
                            &&& 2 * frames[k] + 6 < buffer.len()
                            &&& call_ensures(
                                M::advanced,
                                (math, positions[k], rate),
                                positions[k + 1],
                            )
                            &&& is_played(
                                math,
                                buffer,
                                frames[k] as int,
                                0,
                                positions[k],
                                before[2 * k],
                                output@[2 * k],
                            )
                            &&& is_played(
                                math,
                                buffer,
                                frames[k] as int,
                                1,
                                positions[k],
                                before[2 * k + 1],
                                output@[2 * k + 1],
                            )
                        } by {
                            if k < played.len() {
                                assert(frames[k] == played[k]);
                                assert(positions[k] == earlier[k]);
                                assert(positions[k + 1] == earlier[k + 1]);
                                assert(output@[2 * k] == under[2 * k]);
                                assert(output@[2 * k + 1] == under[2 * k + 1]);
                            } else {
                                assert(2 * k == i);
                                assert(under[i as int] == before[i as int]);
                                assert(under[i + 1] == before[i + 1]);
                            }
                        }
                        assert forall|j: int|
                            2 * frames.len() <= j < output@.len() implies #[trigger] output@[j]
                            == before[j] by {
                            assert(output@[j] == under[j]);
                        }
                    }
                    position = next;
                    i = i + 2;
                },
                None => {
                    assert(call_ensures(M::whole, (math, position), frame));
                    dry = true;
                },
            }
        }
        let passed: usize = math.whole(position);
        let next: P = if passed > 0 {
            math.rewound(position, passed)
        } else {
            position
        };
        self.drop_frames(passed);
        assert(pulls_through(
            math,
            old(self)@,
            self@,
            before,
            output@,
            at,
            rate,
            next,
            positions,
            frames,
            passed,
        ));
        next
    }
}

/// Playing a peer only takes samples from the front of what waits, in whole frames: left and right
/// are never swapped.
pub proof fn law_pulling_takes_whole_frames<S: Copy, P: Copy, M: PlayMath<S, P>>(
    math: &M,
    before: PeerView<S>,
    after: PeerView<S>,
    under: Seq<S>,
    over: Seq<S>,
    at: P,
    rate: P,
    next: P,
)
    requires
        pulls(math, before, after, under, over, at, rate, next),
        before.buffer.len() % 2 == 0,
    ensures
        after == (PeerView { buffer: after.buffer, ..before }),
        after.buffer.len() <= before.buffer.len(),
        after.buffer == before.buffer.skip(before.buffer.len() - after.buffer.len()),
        after.buffer.len() % 2 == 0,
        over.len() == under.len(),
{
    let (positions, frames, passed) = choose|
        positions: Seq<P>,
        frames: Seq<usize>,
        passed: usize,
    |
        pulls_through(
            math,
            before,
            after,
            under,
            over,
            at,
            rate,
            next,
            positions,
            frames,
            passed,
        );
    assert(after == before.pulled(passed as int));
    assert(after.buffer =~= before.buffer.skip(before.buffer.len() - after.buffer.len()));
}

/// Six samples or fewer play nothing: the output stays as it was. Nothing is dropped either, and
/// the position stays, where playback was in the first frame.
pub proof fn law_few_samples_play_nothing<S: Copy, P: Copy, M: PlayMath<S, P>>(
    math: &M,
    before: PeerView<S>,
    after: PeerView<S>,
    under: Seq<S>,
    over: Seq<S>,
    at: P,
    rate: P,
    next: P,
)
    requires
        pulls(math, before, after, under, over, at, rate, next),
        before.buffer.len() <= 6,
    ensures
        over == under,
        (forall|frame: usize| #[trigger] call_ensures(M::whole, (math, at), frame) ==> frame == 0)
            ==> next == at && after == before,
{
    let (positions, frames, passed) = choose|
        positions: Seq<P>,
        frames: Seq<usize>,
        passed: usize,
    |
        pulls_through(
            math,
            before,
            after,
            under,
            over,
            at,
            rate,
            next,
            positions,
            frames,
            passed,
        );
    if frames.len() > 0 {
        assert(2 * frames[0] + 6 < before.buffer.len());
    }
    assert(over =~= under);
    assert(positions.last() == at);
    if passed == 0 {
        assert(after.buffer =~= before.buffer);
        assert(after =~= before);
    }
}

/// Playback goes on in the first frame of what is left, for any arithmetic in which a position
/// lies in one frame only, and in the first one once the frames before it are dropped.
pub proof fn law_playback_goes_on_in_first_frame<S: Copy, P: Copy, M: PlayMath<S, P>>(
    math: &M,
    before: PeerView<S>,
    after: PeerView<S>,
    under: Seq<S>,
    over: Seq<S>,
    at: P,
    rate: P,
    next: P,
    frame: usize,
)
    requires
        pulls(math, before, after, under, over, at, rate, next),
        forall|p: P, f: usize, g: usize| #[trigger]
            call_ensures(M::whole, (math, p), f) && #[trigger] call_ensures(M::whole, (math, p), g)
                ==> f == g,
        forall|p: P, f: usize, q: P, g: usize|
            f > 0 && call_ensures(M::whole, (math, p), f) && #[trigger] call_ensures(
                M::rewound,
                (math, p, f),
                q,
            ) && #[trigger] call_ensures(M::whole, (math, q), g) ==> g == 0,
        call_ensures(M::whole, (math, next), frame),
    ensures
        frame == 0,
{
    let (positions, frames, passed) = choose|
        positions: Seq<P>,
        frames: Seq<usize>,
        passed: usize,
    |
        pulls_through(
            math,
            before,
            after,
            under,
            over,
            at,
            rate,
            next,
            positions,
            frames,
            passed,
        );
    assert(goes_on::<S, P, M>(math, positions.last(), passed, next));
}

} // verus!
