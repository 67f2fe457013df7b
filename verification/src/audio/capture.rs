//! Layout decisions for audio delivered by the screen-capture service.
//!
//! The service hands over 32-bit float PCM either as one buffer (mono, or
//! interleaved with several channels) or as one buffer per channel. Each
//! delivery is converted into interleaved stereo in a reusable scratch buffer
//! before it goes to the system-audio ring.
use vstd::prelude::*;
use crate::audio::layout::{ensure_capacity, fill_mono, fill_interleaved, fill_planar,
    grown, holds_stereo, smaller, frame_left, frame_right, frame_at};

verus! {

/// Channel count of a single buffer, with a reported zero read as one.
pub open spec fn effective_channels(reported: u32) -> int {
    if reported == 0 { 1 } else { reported as int }
}

/// What the scratch buffer holds after a delivery, starting from `base` (the
/// scratch grown to hold the delivery), and how many samples are valid.
pub open spec fn capture_result<T>(
    out: Seq<T>,
    base: Seq<T>,
    valid: int,
    frame_count: int,
    buffer_count: int,
    first: Option<&[T]>,
    first_channels: u32,
    second: Option<&[T]>,
) -> bool {
    if buffer_count == 1 {
        match first {
            None => out == base && valid == 0,
            Some(src) => {
                let channels = effective_channels(first_channels);
                if channels == 1 {
                    let n = smaller(src@.len() as int, frame_count);
                    valid == 2 * n && holds_stereo(out, base, n, |i: int| src@[i], |i: int| src@[i])
                } else {
                    let n = smaller(src@.len() as int / channels, frame_count);
                    valid == 2 * n && holds_stereo(
                        out,
                        base,
                        n,
                        |i: int| frame_left(src@, channels, i),
                        |i: int| frame_right(src@, channels, i),
                    )
                }
            },
        }
    } else {
        match (first, second) {
            (Some(l), Some(r)) => {
                let n = smaller(smaller(l@.len() as int, r@.len() as int), frame_count);
                valid == 2 * n && holds_stereo(out, base, n, |i: int| l@[i], |i: int| r@[i])
            },
            _ => out == base && valid == 0,
        }
    }
}

/// Converts one delivery of `frame_count` frames into interleaved stereo at
/// the front of `scratch` and returns how many samples of it are valid.
///
/// With a single buffer (`first`, reporting `first_channels` channels) the
/// buffer is read as mono or as interleaved channels; with several buffers the
/// first two are read as left and right. An empty delivery leaves `scratch`
/// untouched; otherwise `scratch` is first grown (never shrunk) to hold
/// `frame_count` stereo frames, padding with `fill`.
pub fn fill_from_capture<T: Copy>(
    scratch: &mut Vec<T>,
    frame_count: usize,
    buffer_count: usize,
    first: Option<&[T]>,
    first_channels: u32,
    second: Option<&[T]>,
    fill: T,
) -> (valid: usize)
    requires
        frame_count <= usize::MAX / 2,
    ensures
        (frame_count == 0 || buffer_count == 0) ==> valid == 0 && final(scratch)@ == old(scratch)@,
        (frame_count > 0 && buffer_count > 0) ==> capture_result(
            final(scratch)@,
            grown(old(scratch)@, 2 * frame_count, fill),
            valid as int,
            frame_count as int,
            buffer_count as int,
            first,
            first_channels,
            second,
        ),
{
    if frame_count == 0 || buffer_count == 0 {
        return 0;
    }
    ensure_capacity(scratch, frame_count * 2, fill);
    let written = if buffer_count == 1 {
        match first {
            None => { return 0; },
            Some(src) => {
                let channels = if first_channels == 0 { 1 } else { first_channels };
                if channels == 1 {
                    fill_mono(scratch, src, frame_count)
                } else {
                    fill_interleaved(scratch, src, channels as usize, frame_count)
                }
            },
        }
    } else {
        match (first, second) {
            (Some(l), Some(r)) => fill_planar(scratch, l, r, frame_count),
            _ => 0,
        }
    };
    written * 2
}

} // verus!

verus! {

/// A delivery writes only whole stereo frames, at most `frame_count` of
/// them, at the front of the scratch buffer; the rest of it is left as it
/// was.
pub proof fn law_capture_writes_only_the_delivery<T>(
    out: Seq<T>,
    base: Seq<T>,
    valid: int,
    frame_count: int,
    buffer_count: int,
    first: Option<&[T]>,
    first_channels: u32,
    second: Option<&[T]>,
)
    requires
        0 <= frame_count,
        capture_result(out, base, valid, frame_count, buffer_count, first, first_channels, second),
    ensures
        out.len() == base.len(),
        valid % 2 == 0,
        0 <= valid <= 2 * frame_count,
        forall|k: int| valid <= k < out.len() ==> #[trigger] out[k] == base[k],
{
    if buffer_count == 1 {
        if let Some(src) = first {
            let c = effective_channels(first_channels);
            if c != 1 {
                crate::audio::layout::law_whole_frames_fit(src@.len() as int, c);
                assert(src@.len() as int / c == crate::audio::layout::whole_frames(src@.len() as int, c));
            }
        }
    }
}

/// One buffer of two interleaved channels is copied as it is, as many
/// whole frames as it holds up to `frame_count`.
pub proof fn law_capture_copies_a_stereo_buffer<T>(
    out: Seq<T>,
    base: Seq<T>,
    valid: int,
    frame_count: int,
    src: &[T],
    second: Option<&[T]>,
)
    requires
        0 <= frame_count,
        2 * frame_count <= base.len(),
        capture_result(out, base, valid, frame_count, 1, Some(src), 2, second),
    ensures
        valid == 2 * smaller(src@.len() as int / 2, frame_count),
        out.take(valid) == src@.take(valid),
        out.skip(valid) == base.skip(valid),
{
    let n = smaller(src@.len() as int / 2, frame_count);
    assert(holds_stereo(out, base, n, |i: int| frame_left(src@, 2, i), |i: int| frame_right(src@, 2, i)));
    crate::audio::layout::law_stereo_source_is_copied(out, base, src@, n);
}

/// One mono buffer feeds both sides of each frame (a reported channel count
/// of zero is read as one).
pub proof fn law_capture_doubles_a_mono_buffer<T>(
    out: Seq<T>,
    base: Seq<T>,
    valid: int,
    frame_count: int,
    src: &[T],
    first_channels: u32,
    second: Option<&[T]>,
)
    requires
        first_channels <= 1,
        capture_result(out, base, valid, frame_count, 1, Some(src), first_channels, second),
    ensures
        valid == 2 * smaller(src@.len() as int, frame_count),
        forall|i: int| 0 <= i < valid / 2 ==> #[trigger] frame_at(out, i) == (src@[i], src@[i]),
{
}

/// Two or more buffers give the left side from the first and the right side
/// from the second, as many frames as the shorter holds up to `frame_count`.
pub proof fn law_capture_pairs_planar_buffers<T>(
    out: Seq<T>,
    base: Seq<T>,
    valid: int,
    frame_count: int,
    buffer_count: int,
    left: &[T],
    first_channels: u32,
    right: &[T],
)
    requires
        buffer_count >= 2,
        capture_result(out, base, valid, frame_count, buffer_count, Some(left), first_channels, Some(right)),
    ensures
        valid == 2 * smaller(smaller(left@.len() as int, right@.len() as int), frame_count),
        forall|i: int| 0 <= i < valid / 2 ==> #[trigger] frame_at(out, i) == (left@[i], right@[i]),
{
}

} // verus!
