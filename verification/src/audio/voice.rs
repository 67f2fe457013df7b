//! Bookkeeping of the voice-isolation stage.
//!
//! The denoiser works on blocks of `FRAME` samples per channel. Incoming
//! stereo frames are carried per channel until a whole block is available;
//! denoised samples wait in an output queue until a caller has room for them.
//! `VoiceQueue` tracks how many frames sit in the carry and in the queue and
//! decides, for each call, how many blocks are denoised and how many frames
//! are handed back. The stage holds back exactly one block: once `FRAME`
//! frames have gone in, every call hands back as many frames as it was given,
//! delayed by `FRAME` frames (10 ms).
use vstd::prelude::*;

verus! {

/// Samples per channel in one denoiser block (10 ms at 48 kHz).
pub const FRAME: usize = 480;

/// Initial capacity of the per-channel carry and queue buffers (80 ms).
pub const QUEUE_CAP: usize = FRAME * 8;

/// Frames in a buffer of interleaved stereo samples.
pub open spec fn stereo_frames(samples: int) -> int {
    samples / 2
}

/// Blocks the denoiser can run once `frames` more frames join a carry of
/// `carried` frames.
pub open spec fn blocks_ready(carried: int, frames: int) -> int {
    (carried + frames) / (FRAME as int)
}

/// Frames left in the carry after those blocks are taken out.
pub open spec fn carry_after(carried: int, frames: int) -> int {
    (carried + frames) % (FRAME as int)
}

/// Denoised frames available once those blocks are appended to a queue of
/// `queued` frames.
pub open spec fn frames_ready(carried: int, queued: int, frames: int) -> int {
    queued + (FRAME as int) * blocks_ready(carried, frames)
}

/// Frames handed back to a caller that passed `frames` frames: whatever
/// exceeds one block of backlog.
pub open spec fn frames_emitted(carried: int, queued: int, frames: int) -> int {
    let backlog = carried + queued + frames;
    if backlog > FRAME { backlog - FRAME } else { 0 }
}

/// Frames left in the output queue after the call.
pub open spec fn queue_after(carried: int, queued: int, frames: int) -> int {
    frames_ready(carried, queued, frames) - frames_emitted(carried, queued, frames)
}

/// What one call of the voice-isolation stage does.
#[derive(Clone, Copy, Debug, PartialEq, Eq)]
pub struct VoicePlan {
    /// Stereo frames taken from the caller's buffer into the carry.
    pub frames: usize,
    /// Blocks of `FRAME` samples per channel to run through the denoiser.
    pub blocks: usize,
    /// Denoised frames to write back to the front of the caller's buffer.
    pub emitted: usize,
}

impl VoicePlan {
    /// Interleaved samples now valid in the caller's buffer.
    pub fn samples_out(&self) -> (r: usize)
        requires
            2 * self.emitted <= usize::MAX,
        ensures
            r == 2 * self.emitted,
    {
        2 * self.emitted
    }
}

/// Per-channel fill levels of the carry and of the output queue.
pub struct VoiceQueue {
    carried: usize,
    queued: usize,
}

impl VoiceQueue {
    #[verifier::type_invariant]
    spec fn backlog_at_most_one_block(self) -> bool {
        self.carried < FRAME && self.carried + self.queued <= FRAME
    }

    /// Frames waiting in the carry for a whole block.
    pub closed spec fn carried(self) -> int {
        self.carried as int
    }

    /// Denoised frames waiting to be handed back.
    pub closed spec fn queued(self) -> int {
        self.queued as int
    }

    /// An empty carry and queue.
    pub fn new() -> (q: VoiceQueue)
        ensures
            q.carried() == 0,
            q.queued() == 0,
    {
        VoiceQueue { carried: 0, queued: 0 }
    }

    /// Frames waiting in the carry.
    pub fn carried_frames(&self) -> (r: usize)
        ensures
            r == self.carried(),
    {
        self.carried
    }

    /// Frames waiting in the output queue.
    pub fn queued_frames(&self) -> (r: usize)
        ensures
            r == self.queued(),
    {
        self.queued
    }

    /// The carry holds less than a block, and carry and queue together at
    /// most one block.
    pub fn backlog_is_bounded(&self)
        ensures
            0 <= self.carried() < FRAME,
            0 <= self.queued(),
            self.carried() + self.queued() <= FRAME,
    {
        proof {
            use_type_invariant(self);
        }
    }

    /// Plans one call on a buffer of `samples` interleaved stereo samples and
    /// updates the fill levels accordingly. A buffer without a whole frame
    /// changes nothing.
    pub fn plan(&mut self, samples: usize) -> (p: VoicePlan)
        ensures
            p.frames == stereo_frames(samples as int),
            p.frames == 0 ==> p.blocks == 0 && p.emitted == 0 && final(self).carried() == old(self).carried()
                && final(self).queued() == old(self).queued(),
            p.frames > 0 ==> {
                &&& p.blocks == blocks_ready(old(self).carried(), p.frames as int)
                &&& p.emitted == frames_emitted(old(self).carried(), old(self).queued(), p.frames as int)
                &&& final(self).carried() == carry_after(old(self).carried(), p.frames as int)
                &&& final(self).queued() == queue_after(old(self).carried(), old(self).queued(), p.frames as int)
            },
    {
        proof {
            use_type_invariant(&*self);
        }
        let frames = samples / 2;
        if frames == 0 {
            return VoicePlan { frames: 0, blocks: 0, emitted: 0 };
        }
        let total = self.carried + frames;
        let blocks = total / FRAME;
        let carry = total % FRAME;
        assert(FRAME * blocks + carry == total);
        let ready = self.queued + FRAME * blocks;
        let backlog = self.carried + self.queued + frames;
        let emitted = if backlog > FRAME { backlog - FRAME } else { 0 };
        *self = VoiceQueue { carried: carry, queued: ready - emitted };
        VoicePlan { frames, blocks, emitted }
    }

    /// Forgets everything carried and queued.
    pub fn reset(&mut self)
        ensures
            final(self).carried() == 0,
            final(self).queued() == 0,
    {
        *self = VoiceQueue::new();
    }
}

} // verus!

verus! {

proof fn lemma_block_split(carried: int, frames: int)
    requires
        0 <= carried,
        0 <= frames,
    ensures
        (FRAME as int) * blocks_ready(carried, frames) + carry_after(carried, frames) == carried + frames,
        0 <= carry_after(carried, frames) < FRAME,
        0 <= blocks_ready(carried, frames),
{
    vstd::arithmetic::div_mod::lemma_fundamental_div_mod(carried + frames, FRAME as int);
}

/// Fill levels that a queue can be in: the carry below a block, carry and
/// queue together at most a block.
pub open spec fn valid_levels(carried: int, queued: int) -> bool {
    0 <= carried < FRAME && 0 <= queued && carried + queued <= FRAME
}

/// Nothing is lost or made up: what was carried and queued plus what comes in
/// equals what goes out plus what stays carried and queued.
pub proof fn law_voice_conserves_frames(carried: int, queued: int, frames: int)
    requires
        valid_levels(carried, queued),
        0 <= frames,
    ensures
        carry_after(carried, frames) + queue_after(carried, queued, frames) + frames_emitted(carried, queued, frames)
            == carried + queued + frames,
        valid_levels(carry_after(carried, frames), queue_after(carried, queued, frames)),
{
    lemma_block_split(carried, frames);
}

/// The stage holds back exactly one block once it has seen one: after a call
/// the carry and queue hold what was held plus what came in, up to `FRAME`
/// frames.
pub proof fn law_voice_latency_is_one_block(carried: int, queued: int, frames: int)
    requires
        valid_levels(carried, queued),
        0 <= frames,
    ensures
        carry_after(carried, frames) + queue_after(carried, queued, frames)
            == (if carried + queued + frames <= FRAME { carried + queued + frames } else { FRAME as int }),
{
    lemma_block_split(carried, frames);
}

/// A call hands back at most as many frames as it was given.
pub proof fn law_voice_emits_at_most_input(carried: int, queued: int, frames: int)
    requires
        valid_levels(carried, queued),
        0 <= frames,
    ensures
        0 <= frames_emitted(carried, queued, frames) <= frames,
        frames_emitted(carried, queued, frames) <= frames_ready(carried, queued, frames),
{
    lemma_block_split(carried, frames);
}

/// After warm-up (a whole block held back) every call hands back as many
/// frames as it was given, and a whole block stays held back.
pub proof fn law_voice_settled_output_equals_input(carried: int, queued: int, frames: int)
    requires
        valid_levels(carried, queued),
        carried + queued == FRAME,
        0 <= frames,
    ensures
        frames_emitted(carried, queued, frames) == frames,
        carry_after(carried, frames) + queue_after(carried, queued, frames) == FRAME,
{
    lemma_block_split(carried, frames);
}

/// Fill levels and frames handed back in total after feeding the frame
/// counts `calls`, one call each, to an empty queue.
pub open spec fn after_calls(calls: Seq<int>) -> (int, int, int)
    decreases calls.len(),
{
    if calls.len() == 0 {
        (0, 0, 0)
    } else {
        let (c, q, out) = after_calls(calls.drop_last());
        let f = calls.last();
        (carry_after(c, f), queue_after(c, q, f), out + frames_emitted(c, q, f))
    }
}

/// Frames fed in by the calls `calls`.
pub open spec fn frames_in(calls: Seq<int>) -> int
    decreases calls.len(),
{
    if calls.len() == 0 { 0 } else { frames_in(calls.drop_last()) + calls.last() }
}

/// Over any sequence of calls since the queue was created or reset, the
/// frames handed back in total are those fed in less one block (none before
/// a block has gone in), and a call hands back exactly the increase of that
/// total: the output lags the input by `FRAME` frames and never runs ahead.
pub proof fn law_voice_total_output(calls: Seq<int>)
    requires
        forall|i: int| 0 <= i < calls.len() ==> calls[i] >= 0,
    ensures
        valid_levels(after_calls(calls).0, after_calls(calls).1),
        after_calls(calls).2 == (if frames_in(calls) <= FRAME { 0 } else { frames_in(calls) - FRAME }),
        after_calls(calls).0 + after_calls(calls).1 == frames_in(calls) - after_calls(calls).2,
        calls.len() > 0 ==> {
            let (c, q, _out) = after_calls(calls.drop_last());
            frames_emitted(c, q, calls.last()) == after_calls(calls).2 - after_calls(calls.drop_last()).2
        },
    decreases calls.len(),
{
    if calls.len() > 0 {
        let rest = calls.drop_last();
        assert forall|i: int| 0 <= i < rest.len() implies rest[i] >= 0 by {
            assert(rest[i] == calls[i]);
        }
        law_voice_total_output(rest);
        let (c, q, _out) = after_calls(rest);
        assert(calls.last() == calls[calls.len() - 1]);
        law_voice_conserves_frames(c, q, calls.last());
        law_voice_latency_is_one_block(c, q, calls.last());
    }
}

} // verus!
