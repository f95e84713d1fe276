//! Fading, blending and mixing. What a sample is, and how samples are added or scaled, is left to
//! the caller; which samples are brought together, and in what proportion, is settled here.

use crate::peer::PeerState;
use crate::peer_model::{Layout, MixPlan, RefillStage};
use vstd::prelude::*;

verus! {

/// The arithmetic of samples.
pub trait SampleMath<S> {
    /// The sample times `num / den`.
    fn scaled(&self, sample: S, num: usize, den: usize) -> S
        requires
            den > 0,
    ;

    /// The way from one sample to another, `num / den` of it gone.
    fn faded(&self, from: S, to: S, num: usize, den: usize) -> S
        requires
            den > 0,
    ;

    /// The mean of two samples.
    fn mean(&self, left: S, right: S) -> S;

    /// The sum of two samples.
    fn plus(&self, left: S, right: S) -> S;

    /// The sample divided by a count.
    fn divided(&self, sample: S, count: usize) -> S
        requires
            count > 0,
    ;
}

/// `after` is `before` with its first `len` samples rising linearly from silence.
pub open spec fn rises<S: Copy, M: SampleMath<S>>(
    math: &M,
    before: Seq<S>,
    after: Seq<S>,
    len: int,
) -> bool {
    &&& after.len() == before.len()
    &&& forall|i: int|
        0 <= i < len ==> call_ensures(
            M::scaled,
            (math, before[i], i as usize, len as usize),
            #[trigger] after[i],
        )
    &&& forall|i: int| len <= i < after.len() ==> #[trigger] after[i] == before[i]
}

/// Lets the first `len` samples rise linearly from silence.
pub fn fade_in<S: Copy, M: SampleMath<S>>(math: &M, frame: &mut Vec<S>, len: usize)
    requires
        len <= old(frame)@.len(),
    ensures
        rises(math, old(frame)@, final(frame)@, len as int),
{
    let mut i: usize = 0;
    while i < len
        invariant
            i <= len <= frame@.len(),
            frame@.len() == old(frame)@.len(),
            forall|j: int|
                0 <= j < i ==> call_ensures(
                    M::scaled,
                    (math, old(frame)@[j], j as usize, len),
                    #[trigger] frame@[j],
                ),
            forall|j: int| i <= j < frame@.len() ==> #[trigger] frame@[j] == old(frame)@[j],
        decreases len - i,
    {
        let sample = math.scaled(frame[i], i, len);
        frame.set(i, sample);
        i = i + 1;
    }
}

/// `after` is `before` with `len` samples from `start` on falling linearly to silence.
pub open spec fn falls<S: Copy, M: SampleMath<S>>(
    math: &M,
    before: Seq<S>,
    after: Seq<S>,
    start: int,
    len: int,
) -> bool {
    &&& after.len() == before.len()
    &&& forall|i: int|
        start <= i < start + len ==> call_ensures(
            M::scaled,
            (math, before[i], (len - 1 - (i - start)) as usize, len as usize),
            #[trigger] after[i],
        )
    &&& forall|i: int|
        0 <= i < after.len() && !(start <= i < start + len) ==> #[trigger] after[i] == before[i]
}

/// Lets `len` samples from `start` on fall linearly to silence.
pub fn fade_out<S: Copy, M: SampleMath<S>>(
    math: &M,
    buffer: &mut Vec<S>,
    start: usize,
    len: usize,
)
    requires
        start + len <= old(buffer)@.len(),
    ensures
        falls(math, old(buffer)@, final(buffer)@, start as int, len as int),
{
    let total: usize = buffer.len();
    let mut i: usize = 0;
    while i < len
        invariant
            i <= len,
            start + len <= total == buffer@.len(),
            buffer@.len() == old(buffer)@.len(),
            forall|j: int|
                start <= j < start + i ==> call_ensures(
                    M::scaled,
                    (math, old(buffer)@[j], (len - 1 - (j - start)) as usize, len),
                    #[trigger] buffer@[j],
                ),
            forall|j: int|
                0 <= j < buffer@.len() && !(start <= j < start + i) ==> #[trigger] buffer@[j]
                    == old(buffer)@[j],
        decreases len - i,
    {
        let at: usize = start + i;
        let sample = math.scaled(buffer[at], len - 1 - i, len);
        buffer.set(at, sample);
        i = i + 1;
    }
}

/// `after` is `before` in another layout.
pub open spec fn is_laid_out<S: Copy, M: SampleMath<S>>(
    math: &M,
    before: Seq<S>,
    after: Seq<S>,
    layout: Layout,
) -> bool {
    match layout {
        Layout::Keep => after == before,
        Layout::Duplicate => after == crate::samples::doubled(before),
        Layout::Average => averages(math, before, after),
    }
}

/// `mono` is the mean of the two channels of `stereo`.
pub open spec fn averages<S: Copy, M: SampleMath<S>>(
    math: &M,
    stereo: Seq<S>,
    mono: Seq<S>,
) -> bool {
    &&& mono.len() == stereo.len() / 2
    &&& forall|i: int|
        0 <= i < mono.len() ==> call_ensures(
            M::mean,
            (math, stereo[2 * i], stereo[2 * i + 1]),
            #[trigger] mono[i],
        )
}

/// The mean of left and right. An odd sample at the end goes.
pub fn average_pairs<S: Copy, M: SampleMath<S>>(math: &M, stereo: &[S]) -> (mono: Vec<S>)
    ensures
        averages(math, stereo@, mono@),
{
    let mut mono: Vec<S> = Vec::new();
    let pairs: usize = stereo.len() / 2;
    let mut i: usize = 0;
    while i < pairs
        invariant
            i <= pairs,
            pairs == stereo@.len() / 2,
            stereo@.len() <= usize::MAX,
            mono@.len() == i,
            forall|j: int|
                0 <= j < i ==> call_ensures(
                    M::mean,
                    (math, stereo@[2 * j], stereo@[2 * j + 1]),
                    #[trigger] mono@[j],
                ),
        decreases pairs - i,
    {
        mono.push(math.mean(stereo[2 * i], stereo[2 * i + 1]));
        i = i + 1;
    }
    mono
}

/// `after` is `frame` with its first `old_end.len()` samples faded in from `old_end`.
pub open spec fn is_blended<S: Copy, M: SampleMath<S>>(
    math: &M,
    old_end: Seq<S>,
    frame: Seq<S>,
    after: Seq<S>,
) -> bool {
    &&& after.len() == frame.len()
    &&& forall|i: int|
        0 <= i < old_end.len() ==> call_ensures(
            M::faded,
            (math, old_end[i], frame[i], i as usize, old_end.len() as usize),
            #[trigger] after[i],
        )
    &&& forall|i: int| old_end.len() <= i < after.len() ==> #[trigger] after[i] == frame[i]
}

/// Blends what still waits, from `from` on, into the beginning of a frame.
pub fn blend<S: Copy, M: SampleMath<S>>(
    math: &M,
    waiting: &Vec<S>,
    from: usize,
    frame: &mut Vec<S>,
)
    requires
        from <= waiting@.len(),
        waiting@.len() - from <= old(frame)@.len(),
    ensures
        is_blended(math, waiting@.skip(from as int), old(frame)@, final(frame)@),
{
    let total: usize = waiting.len();
    let overlap: usize = total - from;
    let ghost tail = waiting@.skip(from as int);
    let mut i: usize = 0;
    while i < overlap
        invariant
            i <= overlap <= frame@.len(),
            overlap == tail.len(),
            from + overlap == total == waiting@.len(),
            tail == waiting@.skip(from as int),
            frame@.len() == old(frame)@.len(),
            forall|j: int|
                0 <= j < i ==> call_ensures(
                    M::faded,
                    (math, tail[j], old(frame)@[j], j as usize, overlap),
                    #[trigger] frame@[j],
                ),
            forall|j: int| i <= j < frame@.len() ==> #[trigger] frame@[j] == old(frame)@[j],
        decreases overlap - i,
    {
        let sample = math.faded(waiting[from + i], frame[i], i, overlap);
        assert(tail[i as int] == waiting@[from + i]);
        frame.set(i, sample);
        i = i + 1;
    }
}

/// `mixed` is what a plan makes of a decoded frame, with `tail` the samples that still wait and
/// are blended.
pub open spec fn follows_plan<S: Copy, M: SampleMath<S>>(
    math: &M,
    plan: MixPlan,
    decoded: Seq<S>,
    tail: Seq<S>,
    mixed: Seq<S>,
) -> bool {
    exists|risen: Seq<S>, frame: Seq<S>|
        #![trigger rises(math, decoded, risen, plan.fade_in as int), is_laid_out(math, risen, frame, plan.layout)]
        {
            &&& rises(math, decoded, risen, plan.fade_in as int)
            &&& is_laid_out(math, risen, frame, plan.layout)
            &&& is_blended(math, tail, frame, mixed)
        }
}

/// Carries a plan out.
pub fn mix_frame<S: Copy, M: SampleMath<S>>(
    math: &M,
    plan: MixPlan,
    decoded: Vec<S>,
    waiting: &Vec<S>,
) -> (mixed: Vec<S>)
    requires
        plan.is_sound(),
        decoded@.len() == plan.decoded,
        plan.overlap <= waiting@.len(),
    ensures
        mixed@.len() == plan.frame,
        follows_plan(math, plan, decoded@, waiting@.skip(waiting@.len() - plan.overlap), mixed@),
{
    let mut risen = decoded;
    fade_in(math, &mut risen, plan.fade_in);
    let ghost faded = risen@;
    let mut frame: Vec<S> = match plan.layout {
        Layout::Keep => risen,
        Layout::Duplicate => crate::samples::duplicate_channels(risen.as_slice()),
        Layout::Average => average_pairs(math, risen.as_slice()),
    };
    assert(is_laid_out(math, faded, frame@, plan.layout));
    assert(frame@.len() == plan.frame);
    let from: usize = waiting.len() - plan.overlap;
    blend(math, waiting, from, &mut frame);
    frame
}

impl<S: Copy> PeerState<S> {
    /// Mixes the frame that a refill asks for.
    pub fn mix<M: SampleMath<S>>(&self, math: &M, decoded: Vec<S>) -> (mixed: Vec<S>)
        requires
            self@.wf(),
            self.stage matches RefillStage::Mixing(plan) && decoded@.len() == plan.decoded,
        ensures
            self.stage matches RefillStage::Mixing(plan) && mixed@.len() == plan.frame
                && follows_plan(
                math,
                plan,
                decoded@,
                self@.buffer.skip(self@.buffer.len() - plan.overlap),
                mixed@,
            ),
    {
        match self.stage {
            RefillStage::Mixing(plan) => mix_frame(math, plan, decoded, &self.buffer),
            _ => decoded,
        }
    }
}

/// `after` is the fade from one frame to the next: as long as the first, and beyond the shorter of
/// the two as the first.
pub open spec fn is_crossfaded<S: Copy, M: SampleMath<S>>(
    math: &M,
    first: Seq<S>,
    second: Seq<S>,
    after: Seq<S>,
) -> bool {
    let len = crate::peer_model::min_of(first.len() as int, second.len() as int);
    &&& after.len() == first.len()
    &&& forall|i: int|
        0 <= i < len ==> call_ensures(
            M::faded,
            (math, first[i], second[i], i as usize, len as usize),
            #[trigger] after[i],
        )
    &&& forall|i: int| len <= i < after.len() ==> #[trigger] after[i] == first[i]
}

/// Fades from one frame to the next.
pub fn crossfade<S: Copy, M: SampleMath<S>>(
    math: &M,
    first: Vec<S>,
    second: &Vec<S>,
) -> (faded: Vec<S>)
    ensures
        is_crossfaded(math, first@, second@, faded@),
{
    let ghost start = first@;
    let mut faded = first;
    let len: usize = if faded.len() <= second.len() {
        faded.len()
    } else {
        second.len()
    };
    let mut i: usize = 0;
    while i < len
        invariant
            i <= len <= faded@.len(),
            len <= second@.len(),
            faded@.len() == start.len(),
            forall|j: int|
                0 <= j < i ==> call_ensures(
                    M::faded,
                    (math, start[j], second@[j], j as usize, len),
                    #[trigger] faded@[j],
                ),
            forall|j: int| i <= j < faded@.len() ==> #[trigger] faded@[j] == start[j],
        decreases len - i,
    {
        let sample = math.faded(faded[i], second[i], i, len);
        faded.set(i, sample);
        i = i + 1;
    }
    faded
}

/// `sums` are the sums of a start and more and more of some samples.
pub open spec fn adds_up<S: Copy, M: SampleMath<S>>(
    math: &M,
    start: S,
    samples: Seq<S>,
    sums: Seq<S>,
) -> bool {
    &&& sums.len() == samples.len() + 1
    &&& sums[0] == start
    &&& forall|i: int|
        0 <= i < samples.len() ==> call_ensures(
            M::plus,
            (math, sums[i], #[trigger] samples[i]),
            sums[i + 1],
        )
}

/// `mono` holds the mean of each whole frame of `data`, which has `width` channels a frame.
pub open spec fn averages_frames<S: Copy, M: SampleMath<S>>(
    math: &M,
    data: Seq<S>,
    width: int,
    silence: S,
    mono: Seq<S>,
) -> bool {
    &&& mono.len() == data.len() as int / width
    &&& forall|f: int|
        0 <= f < mono.len() ==> is_mean(
            math,
            data.subrange(f * width, f * width + width),
            silence,
            #[trigger] mono[f],
        )
}

/// `mean` is the sum of some samples, divided by how many there are.
pub open spec fn is_mean<S: Copy, M: SampleMath<S>>(
    math: &M,
    samples: Seq<S>,
    silence: S,
    mean: S,
) -> bool {
    exists|sums: Seq<S>| #[trigger]
        adds_up(math, silence, samples, sums) && call_ensures(
            M::divided,
            (math, sums.last(), samples.len() as usize),
            mean,
        )
}

/// The mean of the samples from `from` up to `to`.
fn mean_of<S: Copy, M: SampleMath<S>>(
    math: &M,
    data: &[S],
    from: usize,
    to: usize,
    silence: S,
) -> (mean: S)
    requires
        from < to <= data@.len(),
    ensures
        is_mean(math, data@.subrange(from as int, to as int), silence, mean),
{
    let ghost samples = data@.subrange(from as int, to as int);
    let mut total: S = silence;
    let ghost mut sums: Seq<S> = seq![silence];
    let mut i: usize = from;
    while i < to
        invariant
            from <= i <= to <= data@.len(),
            samples == data@.subrange(from as int, to as int),
            adds_up(math, silence, samples.take(i - from), sums),
            sums.last() == total,
        decreases to - i,
    {
        total = math.plus(total, data[i]);
        proof {
            let before = sums;
            sums = sums.push(total);
            let more = samples.take(i - from + 1);
            assert forall|j: int| 0 <= j < more.len() implies call_ensures(
                M::plus,
                (math, sums[j], #[trigger] more[j]),
                sums[j + 1],
            ) by {
                if j < i - from {
                    assert(more[j] == samples.take(i - from)[j]);
                    assert(sums[j] == before[j] && sums[j + 1] == before[j + 1]);
                }
            }
        }
        i = i + 1;
    }
    assert(samples.take(i - from) =~= samples);
    math.divided(total, to - from)
}

/// The mean of all channels. Samples that make no whole frame go.
pub fn average_channels<S: Copy, M: SampleMath<S>>(
    math: &M,
    data: &[S],
    width: usize,
    silence: S,
) -> (mono: Vec<S>)
    requires
        width > 0,
    ensures
        averages_frames(math, data@, width as int, silence, mono@),
{
    let frames: usize = data.len() / width;
    let mut mono: Vec<S> = Vec::new();
    let mut f: usize = 0;
    while f < frames
        invariant
            width > 0,
            f <= frames,
            frames == data@.len() as int / width as int,
            data@.len() <= usize::MAX,
            mono@.len() == f,
            forall|g: int|
                0 <= g < f ==> is_mean(
                    math,
                    data@.subrange(g * width, g * width + width),
                    silence,
                    #[trigger] mono@[g],
                ),
        decreases frames - f,
    {
        assert(0 <= f * width && f * width + width <= data@.len()) by (nonlinear_arith)
            requires
                f + 1 <= frames,
                frames == data@.len() as int / width as int,
                width > 0,
        ;
        let from: usize = f * width;
        mono.push(mean_of(math, data, from, from + width, silence));
        f = f + 1;
    }
    mono
}

/// `after` is `before` with `added` played over its beginning.
pub open spec fn is_added<S: Copy, M: SampleMath<S>>(
    math: &M,
    before: Seq<S>,
    added: Seq<S>,
    after: Seq<S>,
) -> bool {
    &&& after.len() == before.len()
    &&& forall|i: int|
        0 <= i < added.len() ==> call_ensures(
            M::plus,
            (math, before[i], added[i]),
            #[trigger] after[i],
        )
    &&& forall|i: int| added.len() <= i < after.len() ==> #[trigger] after[i] == before[i]
}

/// Plays samples over the beginning of an output.
pub fn add_samples<S: Copy, M: SampleMath<S>>(math: &M, output: &mut Vec<S>, added: &Vec<S>)
    requires
        added@.len() <= old(output)@.len(),
    ensures
        is_added(math, old(output)@, added@, final(output)@),
{
    let mut i: usize = 0;
    while i < added.len()
        invariant
            i <= added@.len() <= output@.len(),
            output@.len() == old(output)@.len(),
            forall|j: int|
                0 <= j < i ==> call_ensures(
                    M::plus,
                    (math, old(output)@[j], added@[j]),
                    #[trigger] output@[j],
                ),
            forall|j: int| i <= j < output@.len() ==> #[trigger] output@[j] == old(output)@[j],
        decreases added@.len() - i,
    {
        let sample = math.plus(output[i], added[i]);
        output.set(i, sample);
        i = i + 1;
    }
}

/// A frame that is neither faded nor blended comes through untouched, whatever the arithmetic.
pub proof fn law_plain_frames_pass_through<S: Copy, M: SampleMath<S>>(
    math: &M,
    plan: MixPlan,
    decoded: Seq<S>,
    mixed: Seq<S>,
)
    requires
        plan.fade_in == 0,
        !(plan.layout is Average),
        follows_plan(math, plan, decoded, Seq::empty(), mixed),
    ensures
        mixed == match plan.layout {
            Layout::Duplicate => crate::samples::doubled(decoded),
            _ => decoded,
        },
{
    let (risen, frame) = choose|risen: Seq<S>, frame: Seq<S>|
        #![trigger rises(math, decoded, risen, plan.fade_in as int), is_laid_out(math, risen, frame, plan.layout)]
        {
            &&& rises(math, decoded, risen, plan.fade_in as int)
            &&& is_laid_out(math, risen, frame, plan.layout)
            &&& is_blended(math, Seq::empty(), frame, mixed)
        };
    assert(risen =~= decoded);
    assert(mixed =~= frame);
}

} // verus!
