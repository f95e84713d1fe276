//! Cutting a microphone frame into the blocks that echo cancellation and noise reduction work on,
//! and putting the blocks back.

use crate::mix::{average_pairs, SampleMath};
use crate::samples::append_samples;
use crate::types::Channels;
use vstd::prelude::*;
use vstd::slice::slice_subrange;

verus! {

/// `block` is one channel of `part`: the part itself, or the mean of left and right.
pub open spec fn is_mono<S: Copy, M: SampleMath<S>>(
    math: &M,
    part: Seq<S>,
    channels: Channels,
    block: Seq<S>,
) -> bool {
    match channels {
        Channels::Mono => block == part,
        Channels::Stereo => crate::mix::averages(math, part, block),
    }
}

/// The samples of a frame that a block stands for.
pub open spec fn part_of<S>(frame: Seq<S>, span: int, index: int) -> Seq<S> {
    frame.subrange(index * span, index * span + span)
}

/// `blocks` are the whole blocks of a frame, each of one channel.
pub open spec fn are_blocks<S: Copy, M: SampleMath<S>>(
    math: &M,
    frame: Seq<S>,
    channels: Channels,
    len: int,
    blocks: Seq<Vec<S>>,
) -> bool {
    &&& blocks.len() == frame.len() as int / (len * channels.width())
    &&& forall|b: int|
        0 <= b < blocks.len() ==> {
            &&& (#[trigger] blocks[b])@.len() == len
            &&& is_mono(math, part_of(frame, len * channels.width(), b), channels, blocks[b]@)
        }
}

/// A block ends before the frame does.
proof fn lemma_part_fits(frame: int, span: int, index: int, count: int)
    requires
        0 < span,
        0 <= index < count,
        count * span <= frame,
    ensures
        0 <= index * span,
        index * span + span <= count * span,
        index * span + span <= frame,
{
    assert(0 <= index * span && index * span + span <= count * span) by (nonlinear_arith)
        requires
            0 < span,
            0 <= index < count,
    ;
}

/// Cuts the whole blocks out of a frame, each brought to one channel. Samples that make no whole
/// block are left out.
pub fn mono_blocks<S: Copy, M: SampleMath<S>>(
    math: &M,
    frame: &[S],
    channels: Channels,
    len: usize,
) -> (blocks: Vec<Vec<S>>)
    requires
        0 < len <= usize::MAX / 2,
    ensures
        are_blocks(math, frame@, channels, len as int, blocks@),
{
    let span: usize = len * channels.count();
    let total: usize = frame.len();
    let count: usize = total / span;
    assert(count * span <= total) by (nonlinear_arith)
        requires
            count == total / span,
            span > 0,
    ;
    let mut blocks: Vec<Vec<S>> = Vec::new();
    let mut b: usize = 0;
    while b < count
        invariant
            0 < len <= usize::MAX / 2,
            span == len * channels.width(),
            total == frame@.len(),
            count == total as int / span as int,
            count * span <= total,
            b <= count,
            blocks@.len() == b,
            forall|c: int|
                0 <= c < b ==> {
                    &&& (#[trigger] blocks@[c])@.len() == len
                    &&& is_mono(math, part_of(frame@, span as int, c), channels, blocks@[c]@)
                },
        decreases count - b,
    {
        proof {
            lemma_part_fits(total as int, span as int, b as int, count as int);
        }
        let start: usize = b * span;
        let part = slice_subrange(frame, start, start + span);
        let block: Vec<S> = match channels {
            Channels::Mono => {
                let mut copy: Vec<S> = Vec::new();
                append_samples(&mut copy, part);
                assert(copy@ =~= part@);
                copy
            },
            Channels::Stereo => average_pairs(math, part),
        };
        blocks.push(block);
        b = b + 1;
    }
    blocks
}

/// A frame whose beginning is made of blocks, each sample going to all channels.
pub open spec fn with_blocks<S>(
    frame: Seq<S>,
    channels: Channels,
    len: int,
    blocks: Seq<Vec<S>>,
) -> Seq<S> {
    let width = channels.width();
    let span = len * width;
    Seq::new(
        frame.len(),
        |i: int|
            if i < blocks.len() * span {
                blocks[i / span]@[i % span / width]
            } else {
                frame[i]
            },
    )
}

/// Puts blocks of one channel back into a frame.
pub fn put_blocks<S: Copy>(
    frame: &mut Vec<S>,
    channels: Channels,
    len: usize,
    blocks: &Vec<Vec<S>>,
)
    requires
        0 < len <= usize::MAX / 2,
        blocks@.len() * (len * channels.width()) <= old(frame)@.len(),
        forall|b: int| 0 <= b < blocks@.len() ==> (#[trigger] blocks@[b])@.len() == len,
    ensures
        final(frame)@ == with_blocks(old(frame)@, channels, len as int, blocks@),
{
    let width: usize = channels.count();
    let span: usize = len * width;
    let total: usize = frame.len();
    let count: usize = blocks.len();
    let ghost goal = with_blocks(old(frame)@, channels, len as int, blocks@);
    let mut b: usize = 0;
    while b < count
        invariant
            0 < len <= usize::MAX / 2,
            width == channels.width(),
            span == len * width,
            total == frame@.len() == old(frame)@.len(),
            count == blocks@.len(),
            count * span <= total,
            b <= count,
            goal == with_blocks(old(frame)@, channels, len as int, blocks@),
            forall|c: int| 0 <= c < count ==> (#[trigger] blocks@[c])@.len() == len,
            forall|i: int| 0 <= i < b * span ==> #[trigger] frame@[i] == goal[i],
            forall|i: int| b * span <= i < total ==> #[trigger] frame@[i] == old(frame)@[i],
        decreases count - b,
    {
        proof {
            lemma_part_fits(total as int, span as int, b as int, count as int);
        }
        let start: usize = b * span;
        let mut k: usize = 0;
        while k < span
            invariant
                0 < len <= usize::MAX / 2,
                width == channels.width(),
                span == len * width,
                total == frame@.len() == old(frame)@.len(),
                count == blocks@.len(),
                b < count,
                start == b * span,
                start + span <= total,
                start + span <= count * span,
                k <= span,
                goal == with_blocks(old(frame)@, channels, len as int, blocks@),
                forall|c: int| 0 <= c < count ==> (#[trigger] blocks@[c])@.len() == len,
                forall|i: int| 0 <= i < start + k ==> #[trigger] frame@[i] == goal[i],
                forall|i: int| start + k <= i < total ==> #[trigger] frame@[i] == old(frame)@[i],
            decreases span - k,
        {
            let i: usize = start + k;
            assert(k / width < len) by (nonlinear_arith)
                requires
                    k < span,
                    span == len * width,
                    width > 0,
            ;
            let sample = blocks[b][k / width];
            proof {
                vstd::arithmetic::div_mod::lemma_fundamental_div_mod_converse(
                    i as int,
                    span as int,
                    b as int,
                    k as int,
                );
                assert(goal[i as int] == sample);
            }
            frame.set(i, sample);
            k = k + 1;
        }
        assert((b + 1) * span == b * span + span) by (nonlinear_arith);
        b = b + 1;
    }
    assert(frame@ =~= goal);
}

/// A filter of blocks of one channel.
pub trait BlockFilter<S>: Sized {
    /// Cleans a block. The result is the filter as it is afterwards, and the clean block.
    fn filter(self, block: &Vec<S>) -> (Self, Vec<S>);
}

/// A canceller of echo in blocks of one channel.
pub trait EchoCanceller<S>: Sized {
    /// Takes what was played out of what was recorded. The result is the canceller as it is
    /// afterwards, and the block without echo.
    fn cancel(self, capture: &Vec<S>, render: &Vec<S>) -> (Self, Vec<S>);
}

/// What is taken of an answer: a block of another length counts as no change.
pub open spec fn fitting<S>(answer: Seq<S>, block: Seq<S>) -> Seq<S> {
    if answer.len() == block.len() {
        answer
    } else {
        block
    }
}

/// A filter was handed a block, became another, and gave this for it.
pub open spec fn filters<S, F: BlockFilter<S>>(
    before: F,
    after: F,
    block: Vec<S>,
    out: Vec<S>,
) -> bool {
    exists|answer: Vec<S>| #[trigger]
        call_ensures(F::filter, (before, &block), (after, answer)) && out@ == fitting(
            answer@,
            block@,
        )
}

/// A canceller was handed a block with what was played, became another, and gave this for it.
pub open spec fn cancels<S, F: EchoCanceller<S>>(
    before: F,
    after: F,
    capture: Vec<S>,
    render: Vec<S>,
    out: Vec<S>,
) -> bool {
    exists|answer: Vec<S>| #[trigger]
        call_ensures(F::cancel, (before, &capture, &render), (after, answer)) && out@ == fitting(
            answer@,
            capture@,
        )
}

/// A filter, in the states given, was handed every block in order.
pub open spec fn filters_all<S, F: BlockFilter<S>>(
    blocks: Seq<Vec<S>>,
    states: Seq<F>,
    outs: Seq<Vec<S>>,
) -> bool {
    &&& states.len() == blocks.len() + 1
    &&& outs.len() == blocks.len()
    &&& forall|b: int|
        0 <= b < blocks.len() ==> filters(states[b], states[b + 1], #[trigger] blocks[b], outs[b])
}

/// A canceller, in the states given, was handed every block that there is something played for,
/// in order.
pub open spec fn cancels_all<S, F: EchoCanceller<S>>(
    captures: Seq<Vec<S>>,
    renders: Seq<Vec<S>>,
    states: Seq<F>,
    outs: Seq<Vec<S>>,
) -> bool {
    &&& states.len() == outs.len() + 1
    &&& outs.len() == crate::peer_model::min_of(captures.len() as int, renders.len() as int)
    &&& forall|b: int|
        0 <= b < outs.len() ==> cancels(
            states[b],
            states[b + 1],
            captures[b],
            renders[b],
            #[trigger] outs[b],
        )
}

/// A frame was filtered block by block.
pub open spec fn is_filtered<S: Copy, F: BlockFilter<S>, M: SampleMath<S>>(
    math: &M,
    before: Seq<S>,
    after: Seq<S>,
    channels: Channels,
    len: int,
    start: F,
    end: F,
) -> bool {
    exists|blocks: Seq<Vec<S>>, states: Seq<F>, outs: Seq<Vec<S>>| #[trigger]
        filters_all(blocks, states, outs) && {
            &&& are_blocks(math, before, channels, len, blocks)
            &&& states[0] == start
            &&& states.last() == end
            &&& after == with_blocks(before, channels, len, outs)
        }
}

/// What was played, in stereo, was taken out of a frame block by block.
pub open spec fn is_cancelled<S: Copy, F: EchoCanceller<S>, M: SampleMath<S>>(
    math: &M,
    before: Seq<S>,
    after: Seq<S>,
    render: Seq<S>,
    channels: Channels,
    len: int,
    start: F,
    end: F,
) -> bool {
    exists|
        captures: Seq<Vec<S>>,
        renders: Seq<Vec<S>>,
        states: Seq<F>,
        outs: Seq<Vec<S>>,
    | #[trigger]
        cancels_all(captures, renders, states, outs) && {
            &&& are_blocks(math, before, channels, len, captures)
            &&& are_blocks(math, render, Channels::Stereo, len, renders)
            &&& states[0] == start
            &&& states.last() == end
            &&& after == with_blocks(before, channels, len, outs)
        }
}

/// The answer to a block, or a copy of the block where the answer has another length.
fn fit<S: Copy>(answer: Vec<S>, block: &Vec<S>) -> (out: Vec<S>)
    ensures
        out@ == fitting(answer@, block@),
{
    if answer.len() == block.len() {
        answer
    } else {
        let mut copy: Vec<S> = Vec::new();
        append_samples(&mut copy, block.as_slice());
        assert(copy@ =~= block@);
        copy
    }
}

/// Blocks fit back into the frame that they were cut from.
proof fn lemma_blocks_fit(frame: int, span: int, count: int)
    requires
        0 < span,
        0 <= frame,
        0 <= count <= frame / span,
    ensures
        count * span <= frame,
{
    assert(count * span <= frame) by (nonlinear_arith)
        requires
            0 < span,
            0 <= frame,
            0 <= count <= frame / span,
    ;
}

/// Filters a frame block by block, each brought to one channel and back. Samples that make no
/// whole block stay as they are.
pub fn filter_frame<S: Copy, F: BlockFilter<S>, M: SampleMath<S>>(
    filter: F,
    math: &M,
    frame: &mut Vec<S>,
    channels: Channels,
    len: usize,
) -> (end: F)
    requires
        0 < len <= usize::MAX / 2,
    ensures
        is_filtered(math, old(frame)@, final(frame)@, channels, len as int, filter, end),
{
    let blocks: Vec<Vec<S>> = mono_blocks(math, frame.as_slice(), channels, len);
    let ghost mut states: Seq<F> = seq![filter];
    let mut current: F = filter;
    let mut outs: Vec<Vec<S>> = Vec::new();
    let mut b: usize = 0;
    while b < blocks.len()
        invariant
            b <= blocks@.len(),
            outs@.len() == b,
            states.len() == b + 1,
            states[0] == filter,
            states.last() == current,
            forall|c: int| 0 <= c < blocks@.len() ==> (#[trigger] blocks@[c])@.len() == len,
            forall|c: int| 0 <= c < b ==> (#[trigger] outs@[c])@.len() == len,
            forall|c: int|
                0 <= c < b ==> filters(states[c], states[c + 1], #[trigger] blocks@[c], outs@[c]),
        decreases blocks@.len() - b,
    {
        let ghost before = current;
        let (next, answer) = current.filter(&blocks[b]);
        assert(call_ensures(F::filter, (before, &blocks@[b as int]), (next, answer)));
        let out = fit(answer, &blocks[b]);
        assert(filters(before, next, blocks@[b as int], out));
        outs.push(out);
        proof {
            states = states.push(next);
        }
        current = next;
        b = b + 1;
    }
    assert(filters_all(blocks@, states, outs@));
    proof {
        lemma_blocks_fit(
            frame@.len() as int,
            len * channels.width(),
            blocks@.len() as int,
        );
    }
    put_blocks(frame, channels, len, &outs);
    current
}

/// Takes what was played, in stereo, out of a frame block by block, as far as there is both.
pub fn cancel_frame<S: Copy, F: EchoCanceller<S>, M: SampleMath<S>>(
    canceller: F,
    math: &M,
    frame: &mut Vec<S>,
    render: &[S],
    channels: Channels,
    len: usize,
) -> (end: F)
    requires
        0 < len <= usize::MAX / 2,
    ensures
        is_cancelled(
            math,
            old(frame)@,
            final(frame)@,
            render@,
            channels,
            len as int,
            canceller,
            end,
        ),
{
    let captures: Vec<Vec<S>> = mono_blocks(math, frame.as_slice(), channels, len);
    let renders: Vec<Vec<S>> = mono_blocks(math, render, Channels::Stereo, len);
    let ghost mut states: Seq<F> = seq![canceller];
    let mut current: F = canceller;
    let mut outs: Vec<Vec<S>> = Vec::new();
    let mut b: usize = 0;
    while b < captures.len() && b < renders.len()
        invariant
            b <= captures@.len(),
            b <= renders@.len(),
            outs@.len() == b,
            states.len() == b + 1,
            states[0] == canceller,
            states.last() == current,
            forall|c: int| 0 <= c < captures@.len() ==> (#[trigger] captures@[c])@.len() == len,
            forall|c: int| 0 <= c < b ==> (#[trigger] outs@[c])@.len() == len,
            forall|c: int|
                0 <= c < b ==> cancels(
                    states[c],
                    states[c + 1],
                    captures@[c],
                    renders@[c],
                    #[trigger] outs@[c],
                ),
        decreases captures@.len() - b,
    {
        let ghost before = current;
        let (next, answer) = current.cancel(&captures[b], &renders[b]);
        assert(call_ensures(
            F::cancel,
            (before, &captures@[b as int], &renders@[b as int]),
            (next, answer),
        ));
        let out = fit(answer, &captures[b]);
        assert(cancels(before, next, captures@[b as int], renders@[b as int], out));
        outs.push(out);
        proof {
            states = states.push(next);
        }
        current = next;
        b = b + 1;
    }
    assert(cancels_all(captures@, renders@, states, outs@));
    proof {
        lemma_blocks_fit(frame@.len() as int, len * channels.width(), outs@.len() as int);
    }
    put_blocks(frame, channels, len, &outs);
    current
}

/// A frame of one channel that is cut into blocks and put together again is the same frame.
pub proof fn law_blocks_go_back<S: Copy, M: SampleMath<S>>(
    math: &M,
    frame: Seq<S>,
    len: int,
    blocks: Seq<Vec<S>>,
)
    requires
        len > 0,
        are_blocks(math, frame, Channels::Mono, len, blocks),
    ensures
        with_blocks(frame, Channels::Mono, len, blocks) == frame,
{
    let whole = with_blocks(frame, Channels::Mono, len, blocks);
    assert(Channels::Mono.width() == 1);
    assert(len * Channels::Mono.width() == len);
    assert(blocks.len() * len <= frame.len()) by (nonlinear_arith)
        requires
            blocks.len() == frame.len() as int / len,
            len > 0,
    ;
    assert forall|i: int| 0 <= i < frame.len() implies whole[i] == frame[i] by {
        if i < blocks.len() * len {
            let b = i / len;
            vstd::arithmetic::div_mod::lemma_fundamental_div_mod(i, len);
            assert(0 <= b < blocks.len()) by (nonlinear_arith)
                requires
                    0 <= i < blocks.len() * len,
                    b == i / len,
                    len > 0,
            ;
            assert(0 <= i % len < len) by (nonlinear_arith)
                requires
                    len > 0,
            ;
            lemma_part_fits(frame.len() as int, len, b, blocks.len() as int);
            assert(blocks[b]@ == part_of(frame, len, b));
            assert(b * len + i % len == i) by (nonlinear_arith)
                requires
                    i == len * b + i % len,
            ;
            assert(part_of(frame, len, b)[i % len] == frame[i]);
        }
    }
    assert(whole =~= frame);
}

} // verus!
