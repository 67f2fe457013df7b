//! Sample bookkeeping of the output callback: how much is pulled from each
//! source ring for one output buffer, and when an underrun is counted.
//! Gains, summing, soft clipping and level metering act on the float samples
//! and happen around these functions.
use vstd::prelude::*;
use crate::audio::ring::{pull_into, readable_slots, SampleConsumer};

verus! {

/// How many samples each source contributes to one output buffer.
#[derive(Clone, Copy, Debug, PartialEq, Eq)]
pub struct PullPlan {
    pub mic_take: usize,
    pub system_take: usize,
    /// Neither source had anything: the output buffer is silence.
    pub underrun: bool,
}

/// The plan for an output buffer of `requested` samples when the rings hold
/// `mic_available` and `system_available` samples: each source gives what it
/// has, up to the request.
pub open spec fn pull_plan_spec(requested: int, mic_available: int, system_available: int) -> PullPlan {
    let mic_take = if mic_available <= requested { mic_available } else { requested };
    let system_take = if system_available <= requested { system_available } else { requested };
    PullPlan { mic_take: mic_take as usize, system_take: system_take as usize, underrun: mic_take == 0 && system_take == 0 }
}

/// Plans the pull for an output buffer of `requested` samples.
pub fn plan_pull(requested: usize, mic_available: usize, system_available: usize) -> (p: PullPlan)
    ensures
        p == pull_plan_spec(requested as int, mic_available as int, system_available as int),
{
    let mic_take = if mic_available <= requested { mic_available } else { requested };
    let system_take = if system_available <= requested { system_available } else { requested };
    PullPlan { mic_take, system_take, underrun: mic_take == 0 && system_take == 0 }
}

/// Each source gives what its ring holds, up to the request: no more than
/// either, and all of one of them. An underrun is flagged exactly when
/// neither source gives a sample, which for a non-empty request is exactly
/// when both rings are empty; a source that gives anything rules it out.
pub proof fn law_pull_gives_what_is_there_and_underruns_only_on_silence(
    requested: usize,
    mic_available: usize,
    system_available: usize,
)
    ensures
        pull_plan_spec(requested as int, mic_available as int, system_available as int).mic_take <= requested,
        pull_plan_spec(requested as int, mic_available as int, system_available as int).mic_take <= mic_available,
        pull_plan_spec(requested as int, mic_available as int, system_available as int).mic_take == requested
            || pull_plan_spec(requested as int, mic_available as int, system_available as int).mic_take == mic_available,
        pull_plan_spec(requested as int, mic_available as int, system_available as int).system_take <= requested,
        pull_plan_spec(requested as int, mic_available as int, system_available as int).system_take <= system_available,
        pull_plan_spec(requested as int, mic_available as int, system_available as int).system_take == requested
            || pull_plan_spec(requested as int, mic_available as int, system_available as int).system_take
            == system_available,
        pull_plan_spec(requested as int, mic_available as int, system_available as int).underrun <==> (
            pull_plan_spec(requested as int, mic_available as int, system_available as int).mic_take == 0
            && pull_plan_spec(requested as int, mic_available as int, system_available as int).system_take == 0),
        requested > 0 ==> (pull_plan_spec(requested as int, mic_available as int, system_available as int).underrun
            <==> (mic_available == 0 && system_available == 0)),
        pull_plan_spec(requested as int, mic_available as int, system_available as int).system_take > 0
            ==> !pull_plan_spec(requested as int, mic_available as int, system_available as int).underrun,
        pull_plan_spec(requested as int, mic_available as int, system_available as int).mic_take > 0
            ==> !pull_plan_spec(requested as int, mic_available as int, system_available as int).underrun,
{
}

/// `n` copies of `zero`: silence.
pub open spec fn silence<T>(n: int, zero: T) -> Seq<T> {
    Seq::new(n as nat, |_k: int| zero)
}

/// Prepares a scratch buffer for an output buffer of `n` samples: `n`
/// samples of silence.
pub fn prepare_scratch<T: Copy>(buf: &mut Vec<T>, n: usize, zero: T)
    ensures
        final(buf)@ == silence(n as int, zero),
{
    buf.truncate(n);
    let mut i: usize = 0;
    while i < buf.len()
        invariant
            buf@.len() <= n,
            i <= buf@.len(),
            forall|k: int| 0 <= k < i ==> buf@[k] == zero,
        decreases buf.len() - i,
    {
        buf[i] = zero;
        i = i + 1;
    }
    while buf.len() < n
        invariant
            buf@.len() <= n,
            forall|k: int| 0 <= k < buf@.len() ==> buf@[k] == zero,
        decreases n - buf.len(),
    {
        buf.push(zero);
    }
    assert(buf@ =~= silence(n as int, zero));
}

/// What one source gave an output buffer of `n` samples: the scratch buffer
/// holds the next `take` samples taken from its ring, in order, followed by
/// silence.
pub open spec fn pulled_then_silence<T>(
    taken_before: Seq<T>,
    taken_after: Seq<T>,
    scratch: Seq<T>,
    n: int,
    take: int,
    zero: T,
) -> bool {
    &&& scratch.len() == n
    &&& taken_after == taken_before + scratch.take(take)
    &&& scratch.skip(take) == silence(n - take, zero)
}

/// What a source gave one output buffer: the samples newly taken from its
/// ring, in order, at the front, and `zero` everywhere after them; the
/// earlier history of the ring is untouched.
pub proof fn law_pulled_samples_then_zeros<T>(
    taken_before: Seq<T>,
    taken_after: Seq<T>,
    scratch: Seq<T>,
    n: int,
    take: int,
    zero: T,
)
    requires
        0 <= take <= n,
        pulled_then_silence(taken_before, taken_after, scratch, n, take, zero),
    ensures
        scratch.len() == n,
        taken_after.len() == taken_before.len() + take,
        taken_after.take(taken_before.len() as int) == taken_before,
        forall|k: int| 0 <= k < take ==> #[trigger] scratch[k] == taken_after[taken_before.len() + k],
        forall|k: int| take <= k < n ==> #[trigger] scratch[k] == zero,
{
    assert(taken_after.take(taken_before.len() as int) =~= taken_before);
    assert forall|k: int| take <= k < n implies #[trigger] scratch[k] == zero by {
        assert(scratch[k] == scratch.skip(take)[k - take]);
    }
}

/// Prepares both scratch buffers for an output buffer of `n` samples and
/// pulls from each ring what it holds, up to `n` samples, into the front of
/// its scratch buffer; the rest is silence. Each ring is asked how many
/// samples it holds and gives that many, at most `n`: the plan is the one
/// for the counts the rings reported, and a source that gives fewer than `n`
/// gave all it reported, leaving none known in its ring. Returns the plan
/// that was carried out. For an empty output buffer nothing
/// happens: the rings and the scratch buffers are left as they were.
pub fn pull_sources<T: Copy>(
    mic: &mut SampleConsumer<T>,
    system: &mut SampleConsumer<T>,
    scratch_mic: &mut Vec<T>,
    scratch_system: &mut Vec<T>,
    n: usize,
    zero: T,
) -> (p: PullPlan)
    ensures
        n == 0 ==> p == (PullPlan { mic_take: 0, system_take: 0, underrun: false })
            && final(scratch_mic)@ == old(scratch_mic)@ && final(scratch_system)@ == old(scratch_system)@
            && *final(mic) == *old(mic) && *final(system) == *old(system),
        final(mic).capacity() == old(mic).capacity(),
        final(system).capacity() == old(system).capacity(),
        n > 0 ==> {
            &&& p == pull_plan_spec(n as int, final(mic).reported_filled() as int, final(system).reported_filled() as int)
            &&& p.mic_take < n ==> final(mic).filled_at_least() == 0
            &&& p.system_take < n ==> final(system).filled_at_least() == 0
            &&& pulled_then_silence(old(mic).taken(), final(mic).taken(), final(scratch_mic)@, n as int, p.mic_take as int, zero)
            &&& pulled_then_silence(old(system).taken(), final(system).taken(), final(scratch_system)@, n as int, p.system_take as int, zero)
        },
{
    if n == 0 {
        return PullPlan { mic_take: 0, system_take: 0, underrun: false };
    }
    prepare_scratch(scratch_mic, n, zero);
    prepare_scratch(scratch_system, n, zero);
    let mic_available = readable_slots(mic);
    let system_available = readable_slots(system);
    let plan = plan_pull(n, mic_available, system_available);
    let ghost m0 = scratch_mic@;
    let ghost s0 = scratch_system@;
    if plan.mic_take > 0 {
        pull_into(mic, scratch_mic, plan.mic_take);
    }
    if plan.system_take > 0 {
        pull_into(system, scratch_system, plan.system_take);
    }
    assert(scratch_mic@.take(0) =~= Seq::<T>::empty());
    assert(scratch_system@.take(0) =~= Seq::<T>::empty());
    assert(m0.skip(plan.mic_take as int) =~= silence(n - plan.mic_take, zero));
    assert(s0.skip(plan.system_take as int) =~= silence(n - plan.system_take, zero));
    plan
}

} // verus!
