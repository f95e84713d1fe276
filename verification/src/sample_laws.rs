//! What holds of channels that are laid out anew, of blocks that are cleaned, and of levels.

use crate::blocks::{BlockFilter, EchoCanceller};
use crate::level::{Level, LevelMath};
use crate::mix::SampleMath;
use crate::types::Channels;
use vstd::prelude::*;

verus! {

/// A mono signal goes to both ears, sample by sample.
pub proof fn law_both_ears_hear_the_same<S>(mono: Seq<S>, i: int)
    requires
        0 <= i < mono.len(),
    ensures
        ({
            let stereo = crate::samples::doubled(mono);
            &&& stereo.len() == mono.len() + mono.len()
            &&& stereo[2 * i] == mono[i]
            &&& stereo[2 * i + 1] == mono[i]
        }),
{
}

/// Of a signal with many channels the first two go to the ears, left and right; a single one goes
/// to both.
pub proof fn law_the_first_two_channels_are_heard<S>(data: Seq<S>, width: int, f: int)
    requires
        0 < width,
        0 <= f,
        f * width + width <= data.len(),
    ensures
        ({
            let stereo = crate::samples::first_two(data, width);
            &&& stereo.len() == 2 * (data.len() as int / width)
            &&& 2 * f + 1 < stereo.len()
            &&& stereo[2 * f] == data[f * width]
            &&& width > 1 ==> stereo[2 * f + 1] == data[f * width + 1]
            &&& width == 1 ==> stereo[2 * f + 1] == data[f]
        }),
{
    assert(f < data.len() as int / width) by (nonlinear_arith)
        requires
            0 < width,
            0 <= f,
            f * width + width <= data.len(),
    ;
    assert((2 * f) / 2 == f && (2 * f + 1) / 2 == f);
    if width == 1 {
        assert(f * width == f) by (nonlinear_arith)
            requires
                width == 1,
        ;
    }
}

/// On a device of many channels, left and right go to the first two, and the others are silent.
pub proof fn law_other_speakers_are_silent<S>(
    stereo: Seq<S>,
    width: int,
    silence: S,
    f: int,
    c: int,
)
    requires
        2 <= width,
        0 <= f,
        2 * f + 1 < stereo.len(),
        0 <= c < width,
    ensures
        ({
            let data = crate::samples::spread(stereo, width, silence);
            &&& data.len() == stereo.len() as int / 2 * width
            &&& 0 <= f * width + c < data.len()
            &&& c == 0 ==> data[f * width + c] == stereo[2 * f]
            &&& c == 1 ==> data[f * width + c] == stereo[2 * f + 1]
            &&& c > 1 ==> data[f * width + c] == silence
        }),
{
    let n = stereo.len() as int / 2;
    assert(0 <= f * width && f * width + width <= n * width) by (nonlinear_arith)
        requires
            0 <= f < n,
            2 <= width,
    ;
    vstd::arithmetic::div_mod::lemma_fundamental_div_mod_converse(f * width + c, width, f, c);
}

/// A block that is put back goes to all channels, sample by sample; what makes no whole block stays
/// as it was.
pub proof fn law_blocks_go_to_all_channels<S>(
    frame: Seq<S>,
    channels: Channels,
    len: int,
    blocks: Seq<Vec<S>>,
    b: int,
    j: int,
)
    requires
        0 < len,
        0 <= b < blocks.len(),
        0 <= j < len,
        forall|c: int| 0 <= c < blocks.len() ==> (#[trigger] blocks[c])@.len() == len,
        blocks.len() * len * channels.width() <= frame.len(),
    ensures
        ({
            let whole = crate::blocks::with_blocks(frame, channels, len, blocks);
            let at = b * len + j;
            &&& whole.len() == frame.len()
            &&& channels is Mono ==> whole[at] == blocks[b]@[j]
            &&& channels is Stereo ==> whole[2 * at] == blocks[b]@[j] && whole[2 * at + 1]
                == blocks[b]@[j]
            &&& forall|i: int|
                blocks.len() * len * channels.width() <= i < frame.len() ==> #[trigger] whole[i]
                    == frame[i]
        }),
{
    let whole = crate::blocks::with_blocks(frame, channels, len, blocks);
    let at = b * len + j;
    let n = blocks.len() as int;
    assert(0 <= at < n * len) by (nonlinear_arith)
        requires
            at == b * len + j,
            0 <= b < n,
            0 <= j < len,
    ;
    if channels is Mono {
        assert(channels.width() == 1);
        assert(len * 1 == len && n * (len * 1) == n * len && n * len * 1 == n * len);
        vstd::arithmetic::div_mod::lemma_fundamental_div_mod_converse(at, len, b, j);
    } else {
        assert(channels.width() == 2);
        assert(n * (len * 2) == n * len * 2) by (nonlinear_arith);
        assert(2 * at == b * (len * 2) + 2 * j) by (nonlinear_arith)
            requires
                at == b * len + j,
        ;
        vstd::arithmetic::div_mod::lemma_fundamental_div_mod_converse(2 * at, len * 2, b, 2 * j);
        vstd::arithmetic::div_mod::lemma_fundamental_div_mod_converse(
            2 * at + 1,
            len * 2,
            b,
            2 * j + 1,
        );
    }
}

/// A block that is cut out holds the samples of its stretch of the frame, in order: those of the one
/// channel, or the mean of both. As many blocks are cut out as fit.
pub proof fn law_blocks_are_cut_in_order<S: Copy, M: SampleMath<S>>(
    math: &M,
    value: spec_fn(S) -> int,
    frame: Seq<S>,
    channels: Channels,
    len: int,
    blocks: Seq<Vec<S>>,
    b: int,
    j: int,
)
    requires
        crate::mix_laws::is_exact(math, value),
        0 < len,
        crate::blocks::are_blocks(math, frame, channels, len, blocks),
        0 <= b < blocks.len(),
        0 <= j < len,
    ensures
        ({
            let at = b * len + j;
            &&& blocks[b]@.len() == len
            &&& channels is Mono ==> blocks[b]@[j] == frame[at]
            &&& channels is Stereo ==> 2 * value(blocks[b]@[j]) == value(frame[2 * at]) + value(
                frame[2 * at + 1],
            )
            &&& blocks.len() * len * channels.width() <= frame.len()
            &&& (blocks.len() + 1) * len * channels.width() > frame.len()
        }),
{
    let width = channels.width();
    let span = len * width;
    let n = blocks.len() as int;
    let total = frame.len() as int;
    assert(n * span <= total && total < (n + 1) * span) by (nonlinear_arith)
        requires
            n == total / span,
            span > 0,
    ;
    assert(n * span == n * len * width && (n + 1) * span == (n + 1) * len * width)
        by (nonlinear_arith)
        requires
            span == len * width,
    ;
    assert(0 <= b * span && b * span + span <= n * span) by (nonlinear_arith)
        requires
            0 <= b < n,
            span > 0,
    ;
    let part = crate::blocks::part_of(frame, span, b);
    let _ = blocks[b];
    let at = b * len + j;
    if channels is Mono {
        assert(span == len);
        assert(part[j] == frame[b * span + j]);
    } else {
        assert(b * span == 2 * (b * len)) by (nonlinear_arith)
            requires
                span == len * 2,
        ;
        crate::mix_laws::law_two_channels_become_their_mean(math, value, part, blocks[b]@, j);
        assert(part[2 * j] == frame[b * span + 2 * j]);
        assert(part[2 * j + 1] == frame[b * span + 2 * j + 1]);
    }
}

/// What a filter makes of a block: its answer, if that is as long as the block, and else the block.
pub open spec fn answered<S>(answer: Seq<S>, block: Seq<S>) -> Seq<S> {
    if answer.len() == block.len() {
        answer
    } else {
        block
    }
}

/// Blocks go through a filter one by one and in order, each once, and come out as it answers.
pub proof fn law_blocks_are_filtered_in_order<S, F: BlockFilter<S>>(
    rule: spec_fn(F, Seq<S>) -> (F, Seq<S>),
    blocks: Seq<Vec<S>>,
    states: Seq<F>,
    outs: Seq<Vec<S>>,
    b: int,
)
    requires
        forall|f: F, block: &Vec<S>, g: F, answer: Vec<S>| #[trigger]
            call_ensures(F::filter, (f, block), (g, answer)) ==> rule(f, block@) == (g, answer@),
        crate::blocks::filters_all(blocks, states, outs),
        0 <= b < blocks.len(),
    ensures
        outs.len() == blocks.len(),
        states.len() == blocks.len() + 1,
        states[b + 1] == rule(states[b], blocks[b]@).0,
        outs[b]@ == answered(rule(states[b], blocks[b]@).1, blocks[b]@),
{
    let block = blocks[b];
    let out = outs[b];
    assert(crate::blocks::filters(states[b], states[b + 1], block, out));
    let answer = choose|answer: Vec<S>| #[trigger]
        call_ensures(F::filter, (states[b], &block), (states[b + 1], answer)) && out@
            == crate::blocks::fitting(answer@, block@);
    assert(call_ensures(F::filter, (states[b], &block), (states[b + 1], answer)));
}

/// Blocks go through an echo canceller one by one and in order, each with the block that was played
/// at its time, and come out as it answers; there are as many as of both.
pub proof fn law_echo_is_cancelled_in_order<S, F: EchoCanceller<S>>(
    rule: spec_fn(F, Seq<S>, Seq<S>) -> (F, Seq<S>),
    captures: Seq<Vec<S>>,
    renders: Seq<Vec<S>>,
    states: Seq<F>,
    outs: Seq<Vec<S>>,
    b: int,
)
    requires
        forall|f: F, capture: &Vec<S>, render: &Vec<S>, g: F, answer: Vec<S>| #[trigger]
            call_ensures(F::cancel, (f, capture, render), (g, answer)) ==> rule(
                f,
                capture@,
                render@,
            ) == (g, answer@),
        crate::blocks::cancels_all(captures, renders, states, outs),
        0 <= b < captures.len(),
        b < renders.len(),
    ensures
        outs.len() == captures.len() || outs.len() == renders.len(),
        outs.len() <= captures.len(),
        outs.len() <= renders.len(),
        states.len() == outs.len() + 1,
        states[b + 1] == rule(states[b], captures[b]@, renders[b]@).0,
        outs[b]@ == answered(rule(states[b], captures[b]@, renders[b]@).1, captures[b]@),
{
    let capture = captures[b];
    let render = renders[b];
    let out = outs[b];
    assert(crate::blocks::cancels(states[b], states[b + 1], capture, render, out));
    let answer = choose|answer: Vec<S>| #[trigger]
        call_ensures(F::cancel, (states[b], &capture, &render), (states[b + 1], answer)) && out@
            == crate::blocks::fitting(answer@, capture@);
    assert(call_ensures(F::cancel, (states[b], &capture, &render), (states[b + 1], answer)));
}

/// The arithmetic of levels, where it goes by the same rule every time.
#[verifier::reject_recursive_types(S)]
#[verifier::reject_recursive_types(P)]
pub struct LevelRules<S, P> {
    pub peak: spec_fn(Seq<S>) -> P,
    pub level: spec_fn(Seq<S>) -> P,
    pub is_voice: spec_fn(P) -> bool,
    pub is_audible: spec_fn(P) -> bool,
    pub wanted: spec_fn(P) -> P,
    pub is_below: spec_fn(P, P) -> bool,
    pub lowered: spec_fn(P, P) -> P,
    pub raised: spec_fn(P, P) -> P,
    pub amplified: spec_fn(S, P) -> S,
    pub amplified_peak: spec_fn(P, P) -> P,
}

/// The arithmetic goes by these rules.
pub open spec fn measures_by<S, P, M: LevelMath<S, P>>(math: &M, rules: LevelRules<S, P>) -> bool {
    &&& forall|frame: &Vec<S>, r: P| #[trigger]
        call_ensures(M::peak, (math, frame), r) ==> r == (rules.peak)(frame@)
    &&& forall|frame: &Vec<S>, r: P| #[trigger]
        call_ensures(M::level, (math, frame), r) ==> r == (rules.level)(frame@)
    &&& forall|level: P, r: bool| #[trigger]
        call_ensures(M::is_voice, (math, level), r) ==> r == (rules.is_voice)(level)
    &&& forall|peak: P, r: bool| #[trigger]
        call_ensures(M::is_audible, (math, peak), r) ==> r == (rules.is_audible)(peak)
    &&& forall|peak: P, r: P| #[trigger]
        call_ensures(M::wanted_gain, (math, peak), r) ==> r == (rules.wanted)(peak)
    &&& forall|a: P, b: P, r: bool| #[trigger]
        call_ensures(M::is_below, (math, a, b), r) ==> r == (rules.is_below)(a, b)
    &&& forall|gain: P, wanted: P, r: P| #[trigger]
        call_ensures(M::lowered, (math, gain, wanted), r) ==> r == (rules.lowered)(gain, wanted)
    &&& forall|gain: P, wanted: P, r: P| #[trigger]
        call_ensures(M::raised, (math, gain, wanted), r) ==> r == (rules.raised)(gain, wanted)
    &&& forall|sample: S, gain: P, r: S| #[trigger]
        call_ensures(M::amplified, (math, sample, gain), r) ==> r == (rules.amplified)(
            sample,
            gain,
        )
    &&& forall|peak: P, gain: P, r: P| #[trigger]
        call_ensures(M::amplified_peak, (math, peak, gain), r) ==> r == (rules.amplified_peak)(
            peak,
            gain,
        )
}

/// A frame holds voice by its mean level as it came. Where levels are evened out, a frame that holds
/// voice and can be heard first moves the gain: down where a lower one is wanted, and else up. Then
/// every sample is amplified by the gain, and so is the volume. Otherwise frame and gain stay, and
/// the volume is the largest deflection.
pub proof fn law_levels_are_measured_then_evened<S: Copy, P: Copy, M: LevelMath<S, P>>(
    math: &M,
    rules: LevelRules<S, P>,
    frame: Vec<S>,
    gain: P,
    normalize: bool,
    after: Seq<S>,
    level: Level<P>,
)
    requires
        measures_by(math, rules),
        crate::level::is_measured(math, frame, gain, normalize, after, level),
    ensures
        level.voiced == (rules.is_voice)((rules.level)(frame@)),
        ({
            let peak = (rules.peak)(frame@);
            let wanted = (rules.wanted)(peak);
            let moves = normalize && level.voiced && (rules.is_audible)(peak);
            &&& !moves ==> level.gain == gain
            &&& moves && (rules.is_below)(wanted, gain) ==> level.gain == (rules.lowered)(
                gain,
                wanted,
            )
            &&& moves && !(rules.is_below)(wanted, gain) ==> level.gain == (rules.raised)(
                gain,
                wanted,
            )
            &&& after.len() == frame@.len()
            &&& forall|i: int|
                0 <= i < after.len() ==> #[trigger] after[i] == if normalize {
                    (rules.amplified)(frame@[i], level.gain)
                } else {
                    frame@[i]
                }
            &&& level.volume == if normalize {
                (rules.amplified_peak)(peak, level.gain)
            } else {
                peak
            }
        }),
{
    let (peak, loudness) = choose|peak: P, loudness: P|
        crate::level::measures(math, frame, gain, normalize, after, level, peak, loudness);
    assert(call_ensures(M::peak, (math, &frame), peak));
    assert(call_ensures(M::level, (math, &frame), loudness));
    if normalize {
        let audible = choose|audible: bool|
            crate::level::is_evened(math, peak, audible, gain, frame@, after, level);
        if audible && level.voiced {
            let (wanted, below) = choose|wanted: P, below: bool|
                crate::level::moves_to::<S, P, M>(math, peak, gain, level.gain, wanted, below);
            assert(call_ensures(M::wanted_gain, (math, peak), wanted));
        }
    }
}

} // verus!
