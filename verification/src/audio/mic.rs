//! Microphone side of the pipeline: buffer sizing and the conversion of the
//! device's native channel layout into the pipeline's stereo format, either
//! directly or through per-channel carries that feed the resampler.
use vstd::prelude::*;
use crate::audio::types::PIPELINE_SAMPLE_RATE;
use crate::audio::layout::{ensure_capacity, fill_interleaved, fill_planar, grown, holds_stereo,
    frame_left, frame_right};

verus! {

/// Frames per resampler block (about 21 ms at 48 kHz).
pub const RESAMPLER_CHUNK: usize = 1024;

/// Initial length of the interleaved scratch buffer.
pub const INTERLEAVED_SCRATCH_LEN: usize = 4096 * 2;

/// Initial length of the scratch buffer for integer-to-float conversion.
pub const FORMAT_SCRATCH_LEN: usize = 4096 * 4;

/// Native sample format of a microphone stream, as far as the pipeline tells
/// formats apart.
#[derive(Clone, Copy, Debug, PartialEq, Eq)]
pub enum MicSampleFormat {
    F32,
    I16,
    U16,
    Other,
}

/// How a microphone callback hands its samples to the pipeline.
#[derive(Clone, Copy, Debug, PartialEq, Eq)]
pub enum MicFeed {
    /// Float samples go in as they are.
    Float,
    /// 16-bit integer samples are converted to float first.
    Integer,
}

/// The feed for a stream of the given format; other formats than 32-bit
/// float and 16-bit integers are not supported.
pub fn mic_feed(format: MicSampleFormat) -> (r: Option<MicFeed>)
    ensures
        r == (match format {
            MicSampleFormat::F32 => Some(MicFeed::Float),
            MicSampleFormat::I16 => Some(MicFeed::Integer),
            MicSampleFormat::U16 => Some(MicFeed::Integer),
            MicSampleFormat::Other => None,
        }),
{
    match format {
        MicSampleFormat::F32 => Some(MicFeed::Float),
        MicSampleFormat::I16 => Some(MicFeed::Integer),
        MicSampleFormat::U16 => Some(MicFeed::Integer),
        MicSampleFormat::Other => None,
    }
}

/// A device running at another rate than the pipeline needs a resampler.
pub fn needs_resampler(input_rate: u32) -> (r: bool)
    ensures
        r == (input_rate != PIPELINE_SAMPLE_RATE),
{
    input_rate != PIPELINE_SAMPLE_RATE
}

/// Capacity reserved for each channel's carry: two resampler inputs, or
/// nothing without a resampler.
pub fn carry_capacity(resampler_input_max: Option<usize>) -> (r: usize)
    requires
        resampler_input_max matches Some(m) ==> m <= usize::MAX / 2,
    ensures
        r == (match resampler_input_max {
            Some(m) => 2 * m,
            None => 0,
        }),
{
    match resampler_input_max {
        Some(m) => m * 2,
        None => 0,
    }
}

/// Frames in a block of `samples` interleaved samples of `channels` channels.
pub open spec fn block_frames(samples: int, channels: int) -> int {
    samples / channels
}

/// The frames of a block are the whole frames it holds: they fit in the
/// block and what is left over is less than one frame.
pub proof fn law_block_frames_are_whole_frames(samples: int, channels: int)
    requires
        0 <= samples,
        1 <= channels,
    ensures
        0 <= block_frames(samples, channels),
        block_frames(samples, channels) * channels <= samples < (block_frames(samples, channels) + 1) * channels,
{
    vstd::arithmetic::div_mod::lemma_fundamental_div_mod(samples, channels);
    vstd::arithmetic::div_mod::lemma_div_pos_is_pos(samples, channels);
    let q = samples / channels;
    assert(q * channels == channels * q) by (nonlinear_arith);
    assert((q + 1) * channels == q * channels + channels) by (nonlinear_arith);
}

/// Pass-through path: writes the block's frames as stereo at the front of
/// `interleaved` (grown with `fill` when too short) and returns how many
/// samples are valid, two per frame.
pub fn stereo_from_block<T: Copy>(interleaved: &mut Vec<T>, data: &[T], channels: usize, fill: T) -> (valid: usize)
    requires
        channels >= 1,
        data@.len() <= usize::MAX / 2,
    ensures
        valid == 2 * block_frames(data@.len() as int, channels as int),
        holds_stereo(
            final(interleaved)@,
            grown(old(interleaved)@, valid as int, fill),
            block_frames(data@.len() as int, channels as int),
            |i: int| frame_left(data@, channels as int, i),
            |i: int| frame_right(data@, channels as int, i),
        ),
{
    let frames = data.len() / channels;
    let need = frames * 2;
    ensure_capacity(interleaved, need, fill);
    fill_interleaved(interleaved, data, channels, frames);
    need
}

/// Resampling path: appends each frame's left and right samples to the
/// per-channel carries.
pub fn append_to_carries<T: Copy>(carry_l: &mut Vec<T>, carry_r: &mut Vec<T>, data: &[T], channels: usize)
    requires
        channels >= 1,
    ensures
        final(carry_l)@ == old(carry_l)@ + Seq::new(
            block_frames(data@.len() as int, channels as int) as nat,
            |i: int| frame_left(data@, channels as int, i),
        ),
        final(carry_r)@ == old(carry_r)@ + Seq::new(
            block_frames(data@.len() as int, channels as int) as nat,
            |i: int| frame_right(data@, channels as int, i),
        ),
{
    let frames = data.len() / channels;
    let ghost l0 = carry_l@;
    let ghost r0 = carry_r@;
    let mut f: usize = 0;
    while f < frames
        invariant
            channels >= 1,
            frames == (data@.len() as int) / (channels as int),
            f <= frames,
            carry_l@ == l0 + Seq::new(f as nat, |i: int| frame_left(data@, channels as int, i)),
            carry_r@ == r0 + Seq::new(f as nat, |i: int| frame_right(data@, channels as int, i)),
        decreases frames - f,
    {
        proof {
            crate::audio::layout::lemma_frame_in_bounds(f as int, channels as int, frames as int, data@.len() as int);
            assert(data@.len() == data.len());
        }
        let base = f * channels;
        let l = data[base];
        let r = if channels >= 2 { data[base + 1] } else { l };
        carry_l.push(l);
        carry_r.push(r);
        f = f + 1;
        assert(carry_l@ =~= l0 + Seq::new(f as nat, |i: int| frame_left(data@, channels as int, i)));
        assert(carry_r@ =~= r0 + Seq::new(f as nat, |i: int| frame_right(data@, channels as int, i)));
    }
}

/// Moves the first `needed` samples of `carry` into the front of `block`.
pub fn take_block<T: Copy>(carry: &mut Vec<T>, block: &mut Vec<T>, needed: usize)
    requires
        needed <= old(carry)@.len(),
        needed <= old(block)@.len(),
    ensures
        final(carry)@ == old(carry)@.skip(needed as int),
        final(block)@ == old(carry)@.take(needed as int) + old(block)@.skip(needed as int),
{
    let ghost b0 = block@;
    let mut i: usize = 0;
    while i < needed
        invariant
            needed <= carry@.len(),
            block@.len() == b0.len(),
            needed <= b0.len(),
            i <= needed,
            forall|k: int| 0 <= k < i ==> block@[k] == carry@[k],
            forall|k: int| i <= k < b0.len() ==> block@[k] == b0[k],
        decreases needed - i,
    {
        block[i] = carry[i];
        i = i + 1;
    }
    assert(block@ =~= carry@.take(needed as int) + b0.skip(needed as int));
    let mut rest: Vec<T> = Vec::new();
    let mut j: usize = needed;
    while j < carry.len()
        invariant
            needed <= j <= carry@.len(),
            rest@ == carry@.subrange(needed as int, j as int),
        decreases carry.len() - j,
    {
        rest.push(carry[j]);
        j = j + 1;
        assert(rest@ =~= carry@.subrange(needed as int, j as int));
    }
    assert(rest@ =~= carry@.skip(needed as int));
    *carry = rest;
}

/// Interleaves `frames` resampled frames from the two channel outputs into
/// the front of `interleaved` (grown with `fill` when too short) and returns
/// how many samples are valid.
pub fn interleave_resampled<T: Copy>(interleaved: &mut Vec<T>, left: &[T], right: &[T], frames: usize, fill: T) -> (valid: usize)
    requires
        frames <= left@.len(),
        frames <= right@.len(),
        frames <= usize::MAX / 2,
    ensures
        valid == 2 * frames,
        holds_stereo(final(interleaved)@, grown(old(interleaved)@, valid as int, fill), frames as int,
            |i: int| left@[i], |i: int| right@[i]),
{
    let need = frames * 2;
    ensure_capacity(interleaved, need, fill);
    fill_planar(interleaved, left, right, frames);
    need
}

} // verus!
