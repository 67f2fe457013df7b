//! Channel layout conversions into the pipeline's interleaved stereo format
//! (left, right, left, right, ...). They move samples without looking at
//! them, so they are written for any copyable sample type.
use vstd::prelude::*;

verus! {

/// Left sample of frame `i` in a buffer of `channels` interleaved channels.
pub open spec fn frame_left<T>(src: Seq<T>, channels: int, i: int) -> T {
    src[i * channels]
}

/// Right sample of frame `i`: the second channel, or the first one again when
/// the source is mono.
pub open spec fn frame_right<T>(src: Seq<T>, channels: int, i: int) -> T {
    if channels >= 2 { src[i * channels + 1] } else { src[i * channels] }
}

/// The smaller of two integers.
pub open spec fn smaller(a: int, b: int) -> int {
    if a <= b { a } else { b }
}

/// The stereo frame at position `i` of an interleaved buffer.
pub open spec fn frame_at<T>(out: Seq<T>, i: int) -> (T, T) {
    (out[2 * i], out[2 * i + 1])
}

/// `out` holds, at its front, `n` stereo frames whose left and right samples
/// are given by `left` and `right`, and is otherwise `before`.
pub open spec fn holds_stereo<T>(
    out: Seq<T>,
    before: Seq<T>,
    n: int,
    left: spec_fn(int) -> T,
    right: spec_fn(int) -> T,
) -> bool {
    &&& out.len() == before.len()
    &&& forall|i: int| 0 <= i < n ==> #[trigger] frame_at(out, i) == (left(i), right(i))
    &&& forall|k: int| 2 * n <= k < out.len() ==> out[k] == before[k]
}

pub(crate) proof fn lemma_frame_in_bounds(i: int, channels: int, usable: int, len: int)
    requires
        0 <= i < usable,
        channels >= 1,
        usable == len / channels,
        len >= 0,
    ensures
        0 <= i * channels,
        i * channels + channels <= len,
{
    assert(0 <= i * channels) by (nonlinear_arith)
        requires
            0 <= i,
            channels >= 1,
    ;
    assert(i * channels + channels <= usable * channels) by (nonlinear_arith)
        requires
            i + 1 <= usable,
            channels >= 1,
    ;
    vstd::arithmetic::div_mod::lemma_fundamental_div_mod(len, channels);
    assert(usable * channels == channels * (len / channels)) by (nonlinear_arith)
        requires
            usable == len / channels,
    ;
}

/// `s` extended with copies of `fill` up to length `n` (unchanged when it is
/// already that long).
pub open spec fn grown<T>(s: Seq<T>, n: int, fill: T) -> Seq<T> {
    if s.len() < n {
        s + Seq::new((n - s.len()) as nat, |_k: int| fill)
    } else {
        s
    }
}

/// Grows `buf` to at least `n` samples with copies of `fill`; never shrinks it.
pub fn ensure_capacity<T: Copy>(buf: &mut Vec<T>, n: usize, fill: T)
    ensures
        final(buf)@ == grown(old(buf)@, n as int, fill),
{
    let ghost start = buf@;
    while buf.len() < n
        invariant
            start.len() <= buf@.len(),
            buf@.len() <= (if start.len() < n { n as int } else { start.len() as int }),
            forall|k: int| 0 <= k < start.len() ==> buf@[k] == start[k],
            forall|k: int| start.len() <= k < buf@.len() ==> buf@[k] == fill,
        decreases n - buf.len(),
    {
        buf.push(fill);
    }
    assert(buf@ =~= grown(start, n as int, fill));
}

/// Duplicates a mono source into both channels. Writes the first
/// `min(src.len(), frame_count)` frames and returns that count.
pub fn fill_mono<T: Copy>(out: &mut Vec<T>, src: &[T], frame_count: usize) -> (n: usize)
    requires
        2 * smaller(src@.len() as int, frame_count as int) <= old(out)@.len(),
    ensures
        n == smaller(src@.len() as int, frame_count as int),
        holds_stereo(final(out)@, old(out)@, n as int, |i: int| src@[i], |i: int| src@[i]),
{
    let n = if src.len() < frame_count { src.len() } else { frame_count };
    let ghost before = out@;
    let mut i: usize = 0;
    while i < n
        invariant
            n <= src@.len(),
            2 * n <= out.len(),
            i <= n,
            holds_stereo(out@, before, i as int, |i: int| src@[i], |i: int| src@[i]),
        decreases n - i,
    {
        let s = src[i];
        let ghost prev = out@;
        out[2 * i] = s;
        out[2 * i + 1] = s;
        proof {
            assert forall|j: int| 0 <= j < i + 1 implies #[trigger] frame_at(out@, j) == (src@[j], src@[j]) by {
                if j < i {
                    assert(frame_at(prev, j) == (src@[j], src@[j]));
                }
            }
        }
        i = i + 1;
    }
    n
}

/// Number of whole frames in `len` samples of `channels` interleaved channels;
/// a count of zero channels is read as one.
pub open spec fn whole_frames(len: int, channels: int) -> int {
    if channels <= 0 { len } else { len / channels }
}

/// Takes the first two channels of an interleaved source with `channels`
/// channels (a mono source feeds both). Writes the first
/// `min(whole_frames(src.len(), channels), frame_count)` frames and returns
/// that count. With zero channels every frame repeats the first sample.
pub fn fill_interleaved<T: Copy>(out: &mut Vec<T>, src: &[T], channels: usize, frame_count: usize) -> (n: usize)
    requires
        2 * smaller(whole_frames(src@.len() as int, channels as int), frame_count as int) <= old(out)@.len(),
    ensures
        n == smaller(whole_frames(src@.len() as int, channels as int), frame_count as int),
        holds_stereo(
            final(out)@,
            old(out)@,
            n as int,
            |i: int| frame_left(src@, channels as int, i),
            |i: int| frame_right(src@, channels as int, i),
        ),
{
    let step: usize = if channels == 0 { 1 } else { channels };
    let usable: usize = src.len() / step;
    let n = if usable < frame_count { usable } else { frame_count };
    let ghost before = out@;
    let mut i: usize = 0;
    while i < n
        invariant
            step == (if channels == 0 { 1 } else { channels }),
            usable == (src@.len() as int) / (step as int),
            n <= usable,
            2 * n <= out.len(),
            i <= n,
            holds_stereo(
                out@,
                before,
                i as int,
                |i: int| frame_left(src@, channels as int, i),
                |i: int| frame_right(src@, channels as int, i),
            ),
        decreases n - i,
    {
        proof {
            lemma_frame_in_bounds(i as int, step as int, usable as int, src@.len() as int);
            assert(src@.len() == src.len());
        }
        let base: usize = if channels == 0 { 0 } else { i * channels };
        assert(base == (i as int) * (channels as int)) by (nonlinear_arith)
            requires
                channels == 0 ==> base == 0,
                channels != 0 ==> base == (i as int) * (channels as int),
        ;
        let l = src[base];
        let r = if channels >= 2 { src[base + 1] } else { l };
        let ghost prev = out@;
        out[2 * i] = l;
        out[2 * i + 1] = r;
        proof {
            assert forall|j: int| 0 <= j < i + 1 implies #[trigger] frame_at(out@, j)
                == (frame_left(src@, channels as int, j), frame_right(src@, channels as int, j)) by {
                if j < i {
                    assert(frame_at(prev, j) == (frame_left(src@, channels as int, j), frame_right(src@, channels as int, j)));
                }
            }
        }
        i = i + 1;
    }
    n
}

/// Interleaves two planar channels. Writes the first
/// `min(left.len(), right.len(), frame_count)` frames and returns that count.
pub fn fill_planar<T: Copy>(out: &mut Vec<T>, left: &[T], right: &[T], frame_count: usize) -> (n: usize)
    requires
        2 * smaller(smaller(left@.len() as int, right@.len() as int), frame_count as int) <= old(out)@.len(),
    ensures
        n == smaller(smaller(left@.len() as int, right@.len() as int), frame_count as int),
        holds_stereo(final(out)@, old(out)@, n as int, |i: int| left@[i], |i: int| right@[i]),
{
    let lr = if left.len() <= right.len() { left.len() } else { right.len() };
    let n = if lr <= frame_count { lr } else { frame_count };
    let ghost before = out@;
    let mut i: usize = 0;
    while i < n
        invariant
            n <= left@.len(),
            n <= right@.len(),
            2 * n <= out.len(),
            i <= n,
            holds_stereo(out@, before, i as int, |i: int| left@[i], |i: int| right@[i]),
        decreases n - i,
    {
        let ghost prev = out@;
        out[2 * i] = left[i];
        out[2 * i + 1] = right[i];
        proof {
            assert forall|j: int| 0 <= j < i + 1 implies #[trigger] frame_at(out@, j) == (left@[j], right@[j]) by {
                if j < i {
                    assert(frame_at(prev, j) == (left@[j], right@[j]));
                }
            }
        }
        i = i + 1;
    }
    n
}

} // verus!

verus! {

/// Stereo input is copied as it is: when `n` frames of a two-channel source
/// are written, the first `2 * n` samples written are the source's first
/// `2 * n` samples, in order, and the rest of the buffer is as it was.
pub proof fn law_stereo_source_is_copied<T>(out: Seq<T>, before: Seq<T>, src: Seq<T>, n: int)
    requires
        0 <= n,
        2 * n <= src.len(),
        2 * n <= before.len(),
        holds_stereo(out, before, n, |i: int| frame_left(src, 2, i), |i: int| frame_right(src, 2, i)),
    ensures
        out.take(2 * n) == src.take(2 * n),
        out.skip(2 * n) == before.skip(2 * n),
{
    assert forall|k: int| 0 <= k < 2 * n implies out[k] == src[k] by {
        let i = k / 2;
        assert(frame_at(out, i) == (frame_left(src, 2, i), frame_right(src, 2, i)));
        assert(i * 2 == 2 * i);
    }
    assert(out.take(2 * n) =~= src.take(2 * n));
    assert(out.skip(2 * n) =~= before.skip(2 * n));
}

/// A source with more than two channels gives the first two channels of
/// each frame, and a mono source gives its one sample to both sides.
pub proof fn law_frames_take_the_first_two_channels<T>(src: Seq<T>, channels: int, i: int)
    ensures
        channels >= 2 ==> frame_left(src, channels, i) == src[i * channels]
            && frame_right(src, channels, i) == src[i * channels + 1],
        channels == 1 ==> frame_left(src, channels, i) == src[i] && frame_right(src, channels, i) == src[i],
{
    assert(channels == 1 ==> i * channels == i) by (nonlinear_arith);
}

/// The number of whole frames in a buffer: as many as fit completely, the
/// remainder being fewer samples than one frame; with no channel count every
/// sample is a frame.
pub proof fn law_whole_frames_fit(len: int, channels: int)
    requires
        0 <= len,
    ensures
        channels >= 1 ==> 0 <= whole_frames(len, channels) && whole_frames(len, channels) * channels <= len
            && len < (whole_frames(len, channels) + 1) * channels,
        channels <= 0 ==> whole_frames(len, channels) == len,
{
    if channels >= 1 {
        vstd::arithmetic::div_mod::lemma_fundamental_div_mod(len, channels);
        vstd::arithmetic::div_mod::lemma_div_pos_is_pos(len, channels);
        let q = len / channels;
        let r = len % channels;
        assert(q * channels == channels * q) by (nonlinear_arith);
        assert((q + 1) * channels == q * channels + channels) by (nonlinear_arith);
    }
}

/// Growing a buffer keeps what it held, pads with the fill value up to the
/// wanted length and never shrinks it.
pub proof fn law_growing_keeps_contents<T>(s: Seq<T>, n: int, fill: T)
    ensures
        grown(s, n, fill).len() == (if s.len() < n { n } else { s.len() as int }),
        grown(s, n, fill).take(s.len() as int) == s,
        forall|k: int| s.len() <= k < grown(s, n, fill).len() ==> #[trigger] grown(s, n, fill)[k] == fill,
{
    assert(grown(s, n, fill).take(s.len() as int) =~= s);
}

} // verus!
