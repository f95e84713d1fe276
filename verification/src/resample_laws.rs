//! What holds of playing a peer's samples, for positions and samples that are computed with
//! exactly.

use crate::peer_model::PeerView;
use crate::resample::PlayMath;
use vstd::prelude::*;

verus! {

/// Positions stand for whole frames, counted exactly; a sample at such a position is that of its
/// frame, and samples add up.
pub open spec fn counts_frames<S, P, M: PlayMath<S, P>>(
    math: &M,
    frame: spec_fn(P) -> int,
    value: spec_fn(S) -> int,
    rate: P,
) -> bool {
    &&& forall|p: P, f: usize| #[trigger] call_ensures(M::whole, (math, p), f) ==> f == frame(p)
    &&& forall|p: P, q: P| #[trigger]
        call_ensures(M::advanced, (math, p, rate), q) ==> frame(q) == frame(p) + frame(rate)
    &&& forall|p: P, n: usize, q: P| #[trigger]
        call_ensures(M::rewound, (math, p, n), q) ==> frame(q) == frame(p) - n
    &&& forall|before: S, here: S, next: S, last: S, p: P, r: S| #[trigger]
        call_ensures(M::interpolated, (math, before, here, next, last, p), r) ==> r == here
    &&& forall|left: S, right: S, r: S| #[trigger]
        call_ensures(M::plus, (math, left, right), r) ==> value(r) == value(left) + value(right)
}

/// Where output stands after so many frames.
proof fn lemma_positions<S: Copy, P: Copy, M: PlayMath<S, P>>(
    math: &M,
    frame: spec_fn(P) -> int,
    value: spec_fn(S) -> int,
    buffer: Seq<S>,
    under: Seq<S>,
    over: Seq<S>,
    rate: P,
    positions: Seq<P>,
    frames: Seq<usize>,
    k: int,
)
    requires
        counts_frames(math, frame, value, rate),
        crate::resample::plays(math, buffer, under, over, rate, positions, frames),
        0 <= k <= frames.len(),
    ensures
        frame(positions[k]) == frame(positions[0]) + k * frame(rate),
        k < frames.len() ==> frames[k] == frame(positions[k]),
    decreases k,
{
    if k > 0 {
        lemma_positions(
            math,
            frame,
            value,
            buffer,
            under,
            over,
            rate,
            positions,
            frames,
            k - 1,
        );
        let _ = frames[k - 1];
        assert(k * frame(rate) == (k - 1) * frame(rate) + frame(rate)) by (nonlinear_arith);
    } else {
        assert(k * frame(rate) == 0) by (nonlinear_arith)
            requires
                k == 0,
        ;
    }
    if k < frames.len() {
        let _ = frames[k];
    }
}

/// Samples are played in order and to the ear they belong to, from the position on and at the
/// rate: the output frame number `k` gets the frame that stands `k` times the rate behind the
/// position, left to left and right to right, on top of what it held. That goes on to the end of
/// the output, or until fewer than seven samples are left from there on; behind that the output
/// stays as it was. What was passed is dropped, and playback goes on where it stopped.
pub proof fn law_samples_are_played_in_order<S: Copy, P: Copy, M: PlayMath<S, P>>(
    math: &M,
    frame: spec_fn(P) -> int,
    value: spec_fn(S) -> int,
    before: PeerView<S>,
    after: PeerView<S>,
    under: Seq<S>,
    over: Seq<S>,
    at: P,
    rate: P,
    next: P,
)
    requires
        counts_frames(math, frame, value, rate),
        crate::resample::pulls(math, before, after, under, over, at, rate, next),
        under.len() % 2 == 0,
    ensures
        exists|n: int| #[trigger]
            plays_frames(
                value,
                before.buffer,
                under,
                over,
                frame(at),
                frame(rate),
                n,
            ) && ({
                let passed = frame(at) + n * frame(rate);
                &&& passed >= 0
                &&& frame(next) == 0
                &&& 2 * passed <= before.buffer.len() ==> after.buffer == before.buffer.skip(
                    2 * passed,
                )
                &&& 2 * passed > before.buffer.len() ==> after.buffer.len() == 0
                &&& after == (PeerView { buffer: after.buffer, ..before })
            }),
{
    let (positions, frames, passed) = choose|
        positions: Seq<P>,
        frames: Seq<usize>,
        passed: usize,
    |
        crate::resample::pulls_through(
            math,
            before,
            after,
            under,
            over,
            at,
            rate,
            next,
            positions,
            frames,
            passed,
        );
    let n = frames.len() as int;
    let buffer = before.buffer;
    assert forall|k: int| 0 <= k < n implies #[trigger] plays_frame(
        value,
        buffer,
        under,
        over,
        frame(at),
        frame(rate),
        k,
    ) by {
        lemma_positions(math, frame, value, buffer, under, over, rate, positions, frames, k);
        let _ = frames[k];
    }
    lemma_positions(math, frame, value, buffer, under, over, rate, positions, frames, n);
    assert(positions.last() == positions[n]);
    assert(plays_frames(value, buffer, under, over, frame(at), frame(rate), n));
    assert(passed == frame(at) + n * frame(rate));
    if passed == 0 {
        assert(next == positions.last());
    }
}

/// The output frame number `k` got the frame that stands `k` times the rate behind the position,
/// with at least seven samples from there on.
pub open spec fn plays_frame<S>(
    value: spec_fn(S) -> int,
    buffer: Seq<S>,
    under: Seq<S>,
    over: Seq<S>,
    at: int,
    rate: int,
    k: int,
) -> bool {
    let f = at + k * rate;
    &&& 0 <= f
    &&& buffer.len() - 2 * f >= 7
    &&& value(over[2 * k]) == value(under[2 * k]) + value(buffer[2 * f])
    &&& value(over[2 * k + 1]) == value(under[2 * k + 1]) + value(buffer[2 * f + 1])
}

/// The first `n` output frames got frames from `at` on, `rate` apart, as many as there are or were
/// wanted; the others stay as they were.
pub open spec fn plays_frames<S>(
    value: spec_fn(S) -> int,
    buffer: Seq<S>,
    under: Seq<S>,
    over: Seq<S>,
    at: int,
    rate: int,
    n: int,
) -> bool {
    &&& 0 <= n
    &&& 2 * n <= under.len()
    &&& over.len() == under.len()
    &&& forall|k: int|
        0 <= k < n ==> #[trigger] plays_frame(value, buffer, under, over, at, rate, k)
    &&& 2 * n == under.len() || buffer.len() - 2 * (at + n * rate) < 7
    &&& forall|i: int| 2 * n <= i < under.len() ==> #[trigger] over[i] == under[i]
}

/// A sample between two frames is made of the four around it, of the same ear: the one before, its
/// own and the two behind. The first frame has none before it and counts twice.
pub proof fn law_samples_are_made_of_their_neighbours<S: Copy, P: Copy, M: PlayMath<S, P>>(
    math: &M,
    blend: spec_fn(S, S, S, S, P) -> S,
    sum: spec_fn(S, S) -> S,
    buffer: Seq<S>,
    f: int,
    ear: int,
    at: P,
    before: S,
    after: S,
)
    requires
        forall|a: S, b: S, c: S, d: S, p: P, r: S| #[trigger]
            call_ensures(M::interpolated, (math, a, b, c, d, p), r) ==> r == blend(a, b, c, d, p),
        forall|a: S, b: S, r: S| #[trigger]
            call_ensures(M::plus, (math, a, b), r) ==> r == sum(a, b),
        0 <= f,
        ear == 0 || ear == 1,
        2 * f + 6 < buffer.len(),
        crate::resample::is_played(math, buffer, f, ear, at, before, after),
    ensures
        f > 0 ==> after == sum(
            before,
            blend(
                buffer[2 * (f - 1) + ear],
                buffer[2 * f + ear],
                buffer[2 * (f + 1) + ear],
                buffer[2 * (f + 2) + ear],
                at,
            ),
        ),
        f == 0 ==> after == sum(
            before,
            blend(buffer[ear], buffer[ear], buffer[2 + ear], buffer[4 + ear], at),
        ),
{
}

} // verus!
