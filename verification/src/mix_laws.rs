//! What holds of fading, blending and mixing, for samples that are computed with exactly.

use crate::mix::SampleMath;
use crate::peer_model::{Layout, MixPlan};
use vstd::prelude::*;

verus! {

/// Samples stand for numbers, and the arithmetic of samples is that of these numbers.
pub open spec fn is_exact<S, M: SampleMath<S>>(math: &M, value: spec_fn(S) -> int) -> bool {
    &&& forall|s: S, num: usize, den: usize, r: S| #[trigger]
        call_ensures(M::scaled, (math, s, num, den), r) ==> value(r) * den == value(s) * num
    &&& forall|from: S, to: S, num: usize, den: usize, r: S| #[trigger]
        call_ensures(M::faded, (math, from, to, num, den), r) ==> value(r) * den == value(from) * (
        den - num) + value(to) * num
    &&& forall|left: S, right: S, r: S| #[trigger]
        call_ensures(M::mean, (math, left, right), r) ==> 2 * value(r) == value(left) + value(right)
    &&& forall|left: S, right: S, r: S| #[trigger]
        call_ensures(M::plus, (math, left, right), r) ==> value(r) == value(left) + value(right)
    &&& forall|s: S, count: usize, r: S| #[trigger]
        call_ensures(M::divided, (math, s, count), r) ==> value(r) * count == value(s)
}

/// A fade in starts with silence and rises by equal steps; behind it nothing changes.
pub proof fn law_fading_in_rises_evenly<S: Copy, M: SampleMath<S>>(
    math: &M,
    value: spec_fn(S) -> int,
    before: Seq<S>,
    after: Seq<S>,
    len: int,
    i: int,
)
    requires
        is_exact(math, value),
        crate::mix::rises(math, before, after, len),
        0 <= len <= before.len() <= usize::MAX,
        0 <= i < before.len(),
    ensures
        after.len() == before.len(),
        i < len ==> value(after[i]) * len == value(before[i]) * i,
        i >= len ==> after[i] == before[i],
{
    let _ = after[i];
}

/// A fade out falls by equal steps down to silence at its very end; around it nothing changes.
pub proof fn law_fading_out_falls_to_silence<S: Copy, M: SampleMath<S>>(
    math: &M,
    value: spec_fn(S) -> int,
    before: Seq<S>,
    after: Seq<S>,
    start: int,
    len: int,
    i: int,
)
    requires
        is_exact(math, value),
        crate::mix::falls(math, before, after, start, len),
        0 <= start,
        0 <= len,
        start + len <= before.len() <= usize::MAX,
        0 <= i < before.len(),
    ensures
        after.len() == before.len(),
        start <= i < start + len ==> value(after[i]) * len == value(before[i]) * (start + len - 1
            - i),
        !(start <= i < start + len) ==> after[i] == before[i],
{
    let _ = after[i];
}

/// Two channels become one as their mean.
pub proof fn law_two_channels_become_their_mean<S: Copy, M: SampleMath<S>>(
    math: &M,
    value: spec_fn(S) -> int,
    stereo: Seq<S>,
    mono: Seq<S>,
    i: int,
)
    requires
        is_exact(math, value),
        crate::mix::averages(math, stereo, mono),
        0 <= i,
        2 * i + 1 < stereo.len(),
    ensures
        mono.len() == stereo.len() / 2,
        2 * value(mono[i]) == value(stereo[2 * i]) + value(stereo[2 * i + 1]),
{
    let _ = mono[i];
}

/// A frame that is blended with what still waits begins as that and ends as itself: what waits
/// falls by equal steps while the frame rises by the same. Behind that it is the frame.
pub proof fn law_blending_leads_over<S: Copy, M: SampleMath<S>>(
    math: &M,
    value: spec_fn(S) -> int,
    old_end: Seq<S>,
    frame: Seq<S>,
    after: Seq<S>,
    i: int,
)
    requires
        is_exact(math, value),
        crate::mix::is_blended(math, old_end, frame, after),
        old_end.len() <= frame.len() <= usize::MAX,
        0 <= i < frame.len(),
    ensures
        after.len() == frame.len(),
        i < old_end.len() ==> value(after[i]) * old_end.len() == value(old_end[i]) * (old_end.len()
            - i) + value(frame[i]) * i,
        i >= old_end.len() ==> after[i] == frame[i],
{
    let _ = after[i];
}

/// Two frames are joined into one as long as the first, which leads by equal steps from the first
/// to the second; beyond the shorter of the two it is the first.
pub proof fn law_joining_leads_from_first_to_second<S: Copy, M: SampleMath<S>>(
    math: &M,
    value: spec_fn(S) -> int,
    first: Seq<S>,
    second: Seq<S>,
    after: Seq<S>,
    i: int,
)
    requires
        is_exact(math, value),
        crate::mix::is_crossfaded(math, first, second, after),
        first.len() <= usize::MAX,
        second.len() <= usize::MAX,
        0 <= i < first.len(),
    ensures
        after.len() == first.len(),
        i < second.len() ==> ({
            let len = if first.len() <= second.len() {
                first.len() as int
            } else {
                second.len() as int
            };
            value(after[i]) * len == value(first[i]) * (len - i) + value(second[i]) * i
        }),
        i >= second.len() ==> after[i] == first[i],
{
    let _ = after[i];
}

/// Samples that are played over others add up; behind them nothing changes.
pub proof fn law_samples_add_up<S: Copy, M: SampleMath<S>>(
    math: &M,
    value: spec_fn(S) -> int,
    before: Seq<S>,
    added: Seq<S>,
    after: Seq<S>,
    i: int,
)
    requires
        is_exact(math, value),
        crate::mix::is_added(math, before, added, after),
        added.len() <= before.len(),
        0 <= i < before.len(),
    ensures
        after.len() == before.len(),
        i < added.len() ==> value(after[i]) == value(before[i]) + value(added[i]),
        i >= added.len() ==> after[i] == before[i],
{
    let _ = after[i];
}

/// The sample of a decoded frame that the sample at `i` of a frame is made of.
pub open spec fn source(layout: Layout, i: int) -> int {
    match layout {
        Layout::Duplicate => i / 2,
        _ => i,
    }
}

/// A frame with nothing before it rises from silence as far as its plan says, and is laid out for
/// the output: each sample of a mono frame stands for both ears.
pub proof fn law_sentences_rise_from_silence<S: Copy, M: SampleMath<S>>(
    math: &M,
    value: spec_fn(S) -> int,
    plan: MixPlan,
    decoded: Seq<S>,
    mixed: Seq<S>,
    i: int,
)
    requires
        is_exact(math, value),
        crate::mix::follows_plan(math, plan, decoded, Seq::empty(), mixed),
        !(plan.layout is Average),
        plan.fade_in <= decoded.len() <= usize::MAX,
        0 <= i < mixed.len(),
    ensures
        mixed.len() == match plan.layout {
            Layout::Duplicate => 2 * decoded.len(),
            _ => decoded.len(),
        },
        ({
            let j = source(plan.layout, i);
            &&& j < plan.fade_in ==> value(mixed[i]) * plan.fade_in == value(decoded[j]) * j
            &&& j >= plan.fade_in ==> mixed[i] == decoded[j]
        }),
{
    let (risen, frame) = choose|risen: Seq<S>, frame: Seq<S>|
        #![trigger crate::mix::rises(math, decoded, risen, plan.fade_in as int), crate::mix::is_laid_out(math, risen, frame, plan.layout)]
        {
            &&& crate::mix::rises(math, decoded, risen, plan.fade_in as int)
            &&& crate::mix::is_laid_out(math, risen, frame, plan.layout)
            &&& crate::mix::is_blended(math, Seq::empty(), frame, mixed)
        };
    assert(mixed =~= frame);
    let j = source(plan.layout, i);
    assert(frame[i] == risen[j]);
    law_fading_in_rises_evenly(math, value, decoded, risen, plan.fade_in as int, j);
}

/// A frame that follows audio that was made up leads over from what still waits of that, and is
/// laid out for the output.
pub proof fn law_made_up_audio_leads_over<S: Copy, M: SampleMath<S>>(
    math: &M,
    value: spec_fn(S) -> int,
    plan: MixPlan,
    decoded: Seq<S>,
    tail: Seq<S>,
    mixed: Seq<S>,
    i: int,
)
    requires
        is_exact(math, value),
        crate::mix::follows_plan(math, plan, decoded, tail, mixed),
        plan.fade_in == 0,
        !(plan.layout is Average),
        tail.len() <= mixed.len() <= usize::MAX,
        0 <= i < mixed.len(),
    ensures
        ({
            let n = tail.len() as int;
            let here = decoded[source(plan.layout, i)];
            &&& i < n ==> value(mixed[i]) * n == value(tail[i]) * (n - i) + value(here) * i
            &&& i >= n ==> mixed[i] == here
        }),
{
    let (risen, frame) = choose|risen: Seq<S>, frame: Seq<S>|
        #![trigger crate::mix::rises(math, decoded, risen, plan.fade_in as int), crate::mix::is_laid_out(math, risen, frame, plan.layout)]
        {
            &&& crate::mix::rises(math, decoded, risen, plan.fade_in as int)
            &&& crate::mix::is_laid_out(math, risen, frame, plan.layout)
            &&& crate::mix::is_blended(math, tail, frame, mixed)
        };
    assert(risen =~= decoded);
    law_blending_leads_over(math, value, tail, frame, mixed, i);
}

/// A stereo frame for a device of one channel becomes the mean of both ears, where it neither
/// rises nor is blended.
pub proof fn law_one_speaker_gets_the_mean<S: Copy, M: SampleMath<S>>(
    math: &M,
    value: spec_fn(S) -> int,
    plan: MixPlan,
    decoded: Seq<S>,
    mixed: Seq<S>,
    i: int,
)
    requires
        is_exact(math, value),
        crate::mix::follows_plan(math, plan, decoded, Seq::empty(), mixed),
        plan.fade_in == 0,
        plan.layout is Average,
        0 <= i,
        2 * i + 1 < decoded.len(),
    ensures
        2 * value(mixed[i]) == value(decoded[2 * i]) + value(decoded[2 * i + 1]),
{
    let (risen, frame) = choose|risen: Seq<S>, frame: Seq<S>|
        #![trigger crate::mix::rises(math, decoded, risen, plan.fade_in as int), crate::mix::is_laid_out(math, risen, frame, plan.layout)]
        {
            &&& crate::mix::rises(math, decoded, risen, plan.fade_in as int)
            &&& crate::mix::is_laid_out(math, risen, frame, plan.layout)
            &&& crate::mix::is_blended(math, Seq::empty(), frame, mixed)
        };
    assert(risen =~= decoded);
    assert(mixed =~= frame);
    law_two_channels_become_their_mean(math, value, decoded, frame, i);
}

/// The numbers of samples, added up.
pub open spec fn total<S>(value: spec_fn(S) -> int, samples: Seq<S>) -> int
    decreases samples.len(),
{
    if samples.len() == 0 {
        0
    } else {
        total(value, samples.drop_last()) + value(samples.last())
    }
}

/// Sums add up as numbers do.
proof fn lemma_sums<S: Copy, M: SampleMath<S>>(
    math: &M,
    value: spec_fn(S) -> int,
    silence: S,
    samples: Seq<S>,
    sums: Seq<S>,
    n: int,
)
    requires
        is_exact(math, value),
        value(silence) == 0,
        crate::mix::adds_up(math, silence, samples, sums),
        0 <= n <= samples.len(),
    ensures
        value(sums[n]) == total(value, samples.take(n)),
    decreases n,
{
    if n > 0 {
        lemma_sums(math, value, silence, samples, sums, n - 1);
        let _ = samples[n - 1];
        assert(samples.take(n).drop_last() =~= samples.take(n - 1));
    }
}

/// All channels of a frame become one as their mean.
pub proof fn law_all_channels_become_their_mean<S: Copy, M: SampleMath<S>>(
    math: &M,
    value: spec_fn(S) -> int,
    data: Seq<S>,
    width: int,
    silence: S,
    mono: Seq<S>,
    f: int,
)
    requires
        is_exact(math, value),
        value(silence) == 0,
        crate::mix::averages_frames(math, data, width, silence, mono),
        0 < width <= usize::MAX,
        0 <= f,
        f * width + width <= data.len(),
    ensures
        mono.len() == data.len() as int / width,
        f < mono.len(),
        value(mono[f]) * width == total(value, data.subrange(f * width, f * width + width)),
{
    assert(f < data.len() as int / width) by (nonlinear_arith)
        requires
            0 < width,
            0 <= f,
            f * width + width <= data.len(),
    ;
    assert(0 <= f * width) by (nonlinear_arith)
        requires
            0 <= f,
            0 < width,
    ;
    let samples = data.subrange(f * width, f * width + width);
    let mean = mono[f];
    let sums = choose|sums: Seq<S>| #[trigger]
        crate::mix::adds_up(math, silence, samples, sums) && call_ensures(
            M::divided,
            (math, sums.last(), samples.len() as usize),
            mean,
        );
    lemma_sums(math, value, silence, samples, sums, samples.len() as int);
    assert(samples.take(samples.len() as int) =~= samples);
}

} // verus!
