//! The level of microphone frames: how loud one is, whether it holds voice, and the gain that
//! evens levels out. How levels and gains are computed with is left to the caller; what depends on
//! what is settled here.

use vstd::prelude::*;

verus! {

/// The arithmetic of levels and gains.
pub trait LevelMath<S, P> {
    /// The largest deflection of a frame.
    fn peak(&self, frame: &Vec<S>) -> P;

    /// The mean level of a frame.
    fn level(&self, frame: &Vec<S>) -> P;

    /// Whether a mean level is that of voice.
    fn is_voice(&self, level: P) -> bool;

    /// Whether a deflection is large enough to go by.
    fn is_audible(&self, peak: P) -> bool;

    /// The gain that brings a deflection to where it should be.
    fn wanted_gain(&self, peak: P) -> P;

    /// Whether a gain is below another.
    fn is_below(&self, gain: P, other: P) -> bool;

    /// A gain on its way down to another.
    fn lowered(&self, gain: P, wanted: P) -> P;

    /// A gain on its way up to another.
    fn raised(&self, gain: P, wanted: P) -> P;

    /// A sample with a gain applied.
    fn amplified(&self, sample: S, gain: P) -> S;

    /// A deflection with a gain applied.
    fn amplified_peak(&self, peak: P, gain: P) -> P;
}

/// What was measured of a frame.
pub struct Level<P> {
    /// The largest deflection, after any gain.
    pub volume: P,
    /// The gain from here on.
    pub gain: P,
    pub voiced: bool,
}

/// The gain moves towards the one that is wanted, by one way down and by another up.
pub open spec fn moves_to<S, P: Copy, M: LevelMath<S, P>>(
    math: &M,
    peak: P,
    before: P,
    after: P,
    wanted: P,
    below: bool,
) -> bool {
    &&& call_ensures(M::wanted_gain, (math, peak), wanted)
    &&& call_ensures(M::is_below, (math, wanted, before), below)
    &&& if below {
        call_ensures(M::lowered, (math, before, wanted), after)
    } else {
        call_ensures(M::raised, (math, before, wanted), after)
    }
}

/// The gain after a frame: only one that holds voice and can be heard moves it, so that noise is
/// not raised.
pub open spec fn is_gain<S, P: Copy, M: LevelMath<S, P>>(
    math: &M,
    peak: P,
    heard: bool,
    before: P,
    after: P,
) -> bool {
    if heard {
        exists|wanted: P, below: bool| moves_to::<S, P, M>(math, peak, before, after, wanted, below)
    } else {
        after == before
    }
}

/// `after` is `before` with a gain applied.
pub open spec fn is_amplified<S: Copy, P: Copy, M: LevelMath<S, P>>(
    math: &M,
    before: Seq<S>,
    gain: P,
    after: Seq<S>,
) -> bool {
    &&& after.len() == before.len()
    &&& forall|i: int|
        0 <= i < before.len() ==> call_ensures(
            M::amplified,
            (math, before[i], gain),
            #[trigger] after[i],
        )
}

/// A frame was evened out: the gain moves first, and is then applied to the frame.
pub open spec fn is_evened<S: Copy, P: Copy, M: LevelMath<S, P>>(
    math: &M,
    peak: P,
    audible: bool,
    gain: P,
    before: Seq<S>,
    after: Seq<S>,
    level: Level<P>,
) -> bool {
    &&& call_ensures(M::is_audible, (math, peak), audible)
    &&& is_gain::<S, P, M>(math, peak, audible && level.voiced, gain, level.gain)
    &&& is_amplified(math, before, level.gain, after)
    &&& call_ensures(M::amplified_peak, (math, peak, level.gain), level.volume)
}

/// A frame of this deflection and mean level was measured, and evened out if that was wanted.
/// Whether it holds voice goes by its level before.
pub open spec fn measures<S: Copy, P: Copy, M: LevelMath<S, P>>(
    math: &M,
    frame: Vec<S>,
    gain: P,
    normalize: bool,
    after: Seq<S>,
    level: Level<P>,
    peak: P,
    loudness: P,
) -> bool {
    &&& call_ensures(M::peak, (math, &frame), peak)
    &&& call_ensures(M::level, (math, &frame), loudness)
    &&& call_ensures(M::is_voice, (math, loudness), level.voiced)
    &&& if normalize {
        exists|audible: bool|
            is_evened(math, peak, audible, gain, frame@, after, level)
    } else {
        &&& after == frame@
        &&& level.gain == gain
        &&& level.volume == peak
    }
}

/// A frame was measured, and evened out if that was wanted.
pub open spec fn is_measured<S: Copy, P: Copy, M: LevelMath<S, P>>(
    math: &M,
    frame: Vec<S>,
    gain: P,
    normalize: bool,
    after: Seq<S>,
    level: Level<P>,
) -> bool {
    exists|peak: P, loudness: P|
        measures(math, frame, gain, normalize, after, level, peak, loudness)
}

/// The gain after a frame.
fn follow<S, P: Copy, M: LevelMath<S, P>>(math: &M, peak: P, heard: bool, gain: P) -> (after: P)
    ensures
        is_gain::<S, P, M>(math, peak, heard, gain, after),
{
    if !heard {
        return gain;
    }
    let wanted = math.wanted_gain(peak);
    let below = math.is_below(wanted, gain);
    let after = if below {
        math.lowered(gain, wanted)
    } else {
        math.raised(gain, wanted)
    };
    assert(moves_to::<S, P, M>(math, peak, gain, after, wanted, below));
    after
}

/// Applies a gain to a frame.
fn amplify<S: Copy, P: Copy, M: LevelMath<S, P>>(math: &M, frame: &Vec<S>, gain: P) -> (after: Vec<
    S,
>)
    ensures
        is_amplified(math, frame@, gain, after@),
{
    let mut after: Vec<S> = Vec::new();
    let mut i: usize = 0;
    while i < frame.len()
        invariant
            i <= frame@.len(),
            after@.len() == i,
            forall|j: int|
                0 <= j < i ==> call_ensures(
                    M::amplified,
                    (math, frame@[j], gain),
                    #[trigger] after@[j],
                ),
        decreases frame@.len() - i,
    {
        let sample = math.amplified(frame[i], gain);
        after.push(sample);
        i = i + 1;
    }
    after
}

/// Measures a frame, and evens its level out if that is wanted.
pub fn measure<S: Copy, P: Copy, M: LevelMath<S, P>>(
    math: &M,
    frame: Vec<S>,
    gain: P,
    normalize: bool,
) -> (result: (Vec<S>, Level<P>))
    ensures
        is_measured(math, frame, gain, normalize, result.0@, result.1),
{
    let peak = math.peak(&frame);
    let loudness = math.level(&frame);
    let voiced = math.is_voice(loudness);
    if !normalize {
        let level = Level { volume: peak, gain, voiced };
        assert(measures(math, frame, gain, normalize, frame@, level, peak, loudness));
        return (frame, level);
    }
    let audible = math.is_audible(peak);
    let moved = follow(math, peak, audible && voiced, gain);
    let after = amplify(math, &frame, moved);
    let level = Level { volume: math.amplified_peak(peak, moved), gain: moved, voiced };
    assert(is_evened(math, peak, audible, gain, frame@, after@, level));
    assert(measures(math, frame, gain, normalize, after@, level, peak, loudness));
    (after, level)
}

/// Noise is not raised: a frame without voice leaves the gain as it is.
pub proof fn law_noise_moves_no_gain<S: Copy, P: Copy, M: LevelMath<S, P>>(
    math: &M,
    frame: Vec<S>,
    gain: P,
    normalize: bool,
    after: Seq<S>,
    level: Level<P>,
)
    requires
        is_measured(math, frame, gain, normalize, after, level),
        !level.voiced,
    ensures
        level.gain == gain,
{
}

/// Without evening out, a frame stays as it is, and so does the gain.
pub proof fn law_plain_frames_stay<S: Copy, P: Copy, M: LevelMath<S, P>>(
    math: &M,
    frame: Vec<S>,
    gain: P,
    after: Seq<S>,
    level: Level<P>,
)
    requires
        is_measured(math, frame, gain, false, after, level),
    ensures
        after == frame@,
        level.gain == gain,
{
}

} // verus!
