//! Moving interleaved samples about, whatever a sample is.

use vstd::prelude::*;

verus! {

/// Appends a copy of `data` to `out`.
pub fn append_samples<S: Copy>(out: &mut Vec<S>, data: &[S])
    ensures
        final(out)@ == old(out)@ + data@,
{
    let mut i: usize = 0;
    while i < data.len()
        invariant
            i <= data@.len(),
            out@ == old(out)@ + data@.take(i as int),
        decreases data@.len() - i,
    {
        out.push(data[i]);
        assert(data@.take(i + 1) =~= data@.take(i as int).push(data@[i as int]));
        i = i + 1;
    }
    assert(data@.take(i as int) =~= data@);
}

/// Appends `count` samples of the given value.
pub fn pad<S: Copy>(out: &mut Vec<S>, value: S, count: usize)
    ensures
        final(out)@ == old(out)@ + Seq::new(count as nat, |i: int| value),
{
    let mut n: usize = 0;
    while n < count
        invariant
            n <= count,
            out@ == old(out)@ + Seq::new(n as nat, |i: int| value),
        decreases count - n,
    {
        out.push(value);
        n = n + 1;
        assert(out@ =~= old(out)@ + Seq::new(n as nat, |i: int| value));
    }
}

/// Takes the first `count` samples out of `buffer`.
pub fn take_front<S>(buffer: &mut Vec<S>, count: usize) -> (front: Vec<S>)
    requires
        count <= old(buffer)@.len(),
    ensures
        front@ == old(buffer)@.take(count as int),
        final(buffer)@ == old(buffer)@.skip(count as int),
{
    let mut rest = buffer.split_off(count);
    std::mem::swap(buffer, &mut rest);
    assert(rest@ =~= old(buffer)@.take(count as int));
    assert(buffer@ =~= old(buffer)@.skip(count as int));
    rest
}

/// Each sample of a mono signal twice, once for either ear.
pub open spec fn doubled<S>(mono: Seq<S>) -> Seq<S> {
    Seq::new(2 * mono.len(), |i: int| mono[i / 2])
}

pub fn duplicate_channels<S: Copy>(mono: &[S]) -> (stereo: Vec<S>)
    ensures
        stereo@ == doubled(mono@),
{
    let mut stereo: Vec<S> = Vec::new();
    let mut i: usize = 0;
    while i < mono.len()
        invariant
            i <= mono@.len(),
            stereo@ == doubled(mono@.take(i as int)),
        decreases mono@.len() - i,
    {
        stereo.push(mono[i]);
        stereo.push(mono[i]);
        i = i + 1;
        assert(stereo@ =~= doubled(mono@.take(i as int)));
    }
    assert(mono@.take(i as int) =~= mono@);
    stereo
}

/// The first two channels of the whole frames in `data`, which has `width` channels a frame. A
/// signal of one channel serves as both.
pub open spec fn first_two<S>(data: Seq<S>, width: int) -> Seq<S>
    recommends
        width > 0,
{
    Seq::new(
        (2 * (data.len() / width as nat)) as nat,
        |i: int|
            data[(i / 2) * width + if i % 2 < width {
                i % 2
            } else {
                0
            }],
    )
}

pub fn first_two_channels<S: Copy>(data: &[S], width: usize) -> (stereo: Vec<S>)
    requires
        width > 0,
    ensures
        stereo@ == first_two(data@, width as int),
{
    let frames: usize = data.len() / width;
    let right: usize = if width > 1 {
        1
    } else {
        0
    };
    let mut stereo: Vec<S> = Vec::new();
    let mut f: usize = 0;
    while f < frames
        invariant
            width > 0,
            frames == data@.len() / width as nat,
            data@.len() <= usize::MAX,
            right == if width > 1 {
                1int
            } else {
                0
            },
            f <= frames,
            stereo@.len() == 2 * f,
            forall|i: int| 0 <= i < stereo@.len() ==> stereo@[i] == first_two(data@, width as int)[i],
        decreases frames - f,
    {
        assert(0 <= f * width && f * width + width <= data@.len()) by (nonlinear_arith)
            requires
                f + 1 <= frames,
                frames == data@.len() as int / width as int,
                width > 0,
        ;
        let ghost before = stereo@;
        stereo.push(data[f * width]);
        stereo.push(data[f * width + right]);
        assert forall|i: int| 0 <= i < stereo@.len() implies stereo@[i] == first_two(
            data@,
            width as int,
        )[i] by {
            if i < before.len() {
                assert(stereo@[i] == before[i]);
            }
        }
        f = f + 1;
    }
    assert(stereo@ =~= first_two(data@, width as int));
    stereo
}

/// A stereo signal laid out for a device of `width` channels: left, right, then silence.
pub open spec fn spread<S>(stereo: Seq<S>, width: int, silence: S) -> Seq<S>
    recommends
        width >= 2,
{
    Seq::new(
        (stereo.len() / 2 * width) as nat,
        |i: int|
            if i % width < 2 {
                stereo[i / width * 2 + i % width]
            } else {
                silence
            },
    )
}

pub fn spread_stereo<S: Copy>(stereo: &[S], width: usize, silence: S) -> (data: Vec<S>)
    requires
        width >= 2,
        stereo@.len() / 2 * width <= usize::MAX,
    ensures
        data@ == spread(stereo@, width as int, silence),
{
    let frames: usize = stereo.len() / 2;
    let mut data: Vec<S> = Vec::new();
    let mut f: usize = 0;
    while f < frames
        invariant
            width >= 2,
            frames == stereo@.len() / 2,
            stereo@.len() <= usize::MAX,
            frames * width <= usize::MAX,
            f <= frames,
            data@.len() == f * width,
            forall|i: int|
                0 <= i < data@.len() ==> data@[i] == spread(stereo@, width as int, silence)[i],
        decreases frames - f,
    {
        assert(f * width + width <= frames * width) by (nonlinear_arith)
            requires
                f + 1 <= frames,
        ;
        let mut c: usize = 0;
        while c < width
            invariant
                width >= 2,
                frames == stereo@.len() / 2,
                stereo@.len() <= usize::MAX,
                f < frames,
                f * width + width <= frames * width <= usize::MAX,
                c <= width,
                data@.len() == f * width + c,
                forall|i: int|
                    0 <= i < data@.len() ==> data@[i] == spread(stereo@, width as int, silence)[i],
            decreases width - c,
        {
            let ghost before = data@;
            if c < 2 {
                data.push(stereo[f * 2 + c]);
            } else {
                data.push(silence);
            }
            proof {
                vstd::arithmetic::div_mod::lemma_fundamental_div_mod_converse(
                    before.len() as int,
                    width as int,
                    f as int,
                    c as int,
                );
                assert forall|i: int| 0 <= i < data@.len() implies data@[i] == spread(
                    stereo@,
                    width as int,
                    silence,
                )[i] by {
                    if i < before.len() {
                        assert(data@[i] == before[i]);
                    }
                }
            }
            c = c + 1;
        }
        assert((f + 1) * width == f * width + width) by (nonlinear_arith);
        f = f + 1;
    }
    assert(data@ =~= spread(stereo@, width as int, silence));
    data
}

} // verus!
