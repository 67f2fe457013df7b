//! Non-blocking transfers through the single-producer single-consumer sample
//! rings that connect the capture callbacks with the output callback.
//!
//! The other side of a ring runs concurrently, so how many slots are free or
//! filled is known only at the moment of asking; these functions never wait.
use vstd::prelude::*;
use rtrb::{Consumer, Producer, RingBuffer};
use rtrb::chunks::{ChunkError, ReadChunk, WriteChunkUninit};

verus! {

#[verifier::external_type_specification]
#[verifier::external_body]
#[verifier::reject_recursive_types(T)]
pub struct ExProducer<T>(Producer<T>);

#[verifier::external_type_specification]
#[verifier::external_body]
#[verifier::reject_recursive_types(T)]
pub struct ExConsumer<T>(Consumer<T>);

#[verifier::external_type_specification]
#[verifier::external_body]
#[verifier::reject_recursive_types(T)]
pub struct ExWriteChunkUninit<'a, T>(WriteChunkUninit<'a, T>);

#[verifier::external_type_specification]
#[verifier::external_body]
#[verifier::reject_recursive_types(T)]
pub struct ExReadChunk<'a, T>(ReadChunk<'a, T>);

/// The sending end of a sample ring, with the ring's capacity, the samples
/// published through it since the ring was made, a number of slots known to
/// be free (only the consumer frees slots, so this stays true until this end
/// writes), and the free count the ring reported when it last refused a
/// reservation (zero before any refusal).
#[verifier::reject_recursive_types(T)]
pub struct SampleProducer<T> {
    producer: Producer<T>,
    capacity: Ghost<nat>,
    published: Ghost<Seq<T>>,
    free_at_least: Ghost<nat>,
    reported_free: Ghost<nat>,
}

impl<T> SampleProducer<T> {
    /// Number of slots of the ring.
    pub closed spec fn capacity(&self) -> nat {
        self.capacity@
    }

    /// Every sample published through this end, oldest first.
    pub closed spec fn published(&self) -> Seq<T> {
        self.published@
    }

    /// Slots known to be free.
    pub closed spec fn free_at_least(&self) -> nat {
        self.free_at_least@
    }

    /// Free slots the ring reported when it last refused a reservation.
    pub closed spec fn reported_free(&self) -> nat {
        self.reported_free@
    }
}

/// The receiving end of a sample ring, with the ring's capacity and the
/// samples handed out through it since the ring was made. Every block handed out is given back to the producer
/// as soon as it is read, so these are the samples taken out of the ring.
/// It also keeps a number of samples known to be in the ring (only the
/// producer adds samples, so this stays true until this end reads), and the
/// filled count the ring last reported (zero before any report).
#[verifier::reject_recursive_types(T)]
pub struct SampleConsumer<T> {
    consumer: Consumer<T>,
    capacity: Ghost<nat>,
    taken: Ghost<Seq<T>>,
    filled_at_least: Ghost<nat>,
    reported_filled: Ghost<nat>,
}

impl<T> SampleConsumer<T> {
    /// Number of slots of the ring.
    pub closed spec fn capacity(&self) -> nat {
        self.capacity@
    }

    /// Every sample handed out through this end, oldest first.
    pub closed spec fn taken(&self) -> Seq<T> {
        self.taken@
    }

    /// Samples known to be in the ring.
    pub closed spec fn filled_at_least(&self) -> nat {
        self.filled_at_least@
    }

    /// Filled count the ring last reported, when asked or when it refused a
    /// read.
    pub closed spec fn reported_filled(&self) -> nat {
        self.reported_filled@
    }
}

/// The two ends of a new, empty ring of `capacity` slots: every slot free.
pub open spec fn fresh_ring<T>(ends: (SampleProducer<T>, SampleConsumer<T>), capacity: nat) -> bool {
    &&& ends.0.capacity() == capacity
    &&& ends.0.published() == Seq::<T>::empty()
    &&& ends.0.free_at_least() == capacity
    &&& ends.0.reported_free() == 0
    &&& ends.1.capacity() == capacity
    &&& ends.1.taken() == Seq::<T>::empty()
    &&& ends.1.filled_at_least() == 0
    &&& ends.1.reported_filled() == 0
}

/// Calls `RingBuffer::new`: a new empty ring of `capacity` slots, as its two
/// ends. It panics when twice the capacity overflows `usize`, and the slot
/// storage may not exceed `isize::MAX` bytes.
#[verifier::external_body]
fn new_ring<T>(capacity: usize) -> (ends: (SampleProducer<T>, SampleConsumer<T>))
    requires
        capacity <= usize::MAX / 2,
        capacity * vstd::layout::size_of::<T>() <= isize::MAX,
    ensures
        fresh_ring(ends, capacity as nat),
{
    let (producer, consumer) = RingBuffer::<T>::new(capacity);
    let cap = Ghost(capacity as nat);
    (
        SampleProducer { producer, capacity: cap, published: Ghost(Seq::empty()), free_at_least: cap, reported_free: Ghost(0) },
        SampleConsumer { consumer, capacity: cap, taken: Ghost(Seq::empty()), filled_at_least: Ghost(0),
            reported_filled: Ghost(0) },
    )
}

/// Makes a sample ring of `capacity` slots and returns its two ends: nothing
/// is in it and every slot is free.
pub fn sample_ring<T>(capacity: usize) -> (ends: (SampleProducer<T>, SampleConsumer<T>))
    requires
        capacity <= usize::MAX / 2,
        capacity * vstd::layout::size_of::<T>() <= isize::MAX,
    ensures
        fresh_ring(ends, capacity as nat),
{
    new_ring(capacity)
}

/// Slots reserved for writing: how many, and the samples published through
/// them, which `fill_reservation` fixes.
#[verifier::reject_recursive_types(T)]
pub struct Reservation<'a, T> {
    chunk: WriteChunkUninit<'a, T>,
    len: usize,
    committed: Ghost<Seq<T>>,
}

impl<'a, T> Reservation<'a, T> {
    /// Number of reserved slots.
    pub closed spec fn slots(&self) -> usize {
        self.len
    }

    /// Samples published through the reserved slots.
    pub closed spec fn committed(&self) -> Seq<T> {
        self.committed@
    }
}

/// Filled slots taken for reading: how many, and the samples they hold.
#[verifier::reject_recursive_types(T)]
pub struct ReadBlock<'a, T> {
    chunk: ReadChunk<'a, T>,
    len: usize,
    contents: Ghost<Seq<T>>,
}

impl<'a, T> ReadBlock<'a, T> {
    /// Number of slots taken.
    pub closed spec fn slots(&self) -> usize {
        self.len
    }

    /// The samples in the taken slots, oldest first.
    pub closed spec fn contents(&self) -> Seq<T> {
        self.contents@
    }
}

/// Calls `Producer::write_chunk_uninit`: reserves `n` slots, or reports how
/// many were free when fewer than `n` were. The free count never exceeds the
/// capacity, and free slots only grow until this end writes, so `n` slots
/// known to be free are always granted and the count reported is at least
/// the known one. A refusal publishes nothing and records the free count; a
/// reservation publishes exactly what is later moved into it and uses up `n`
/// of the known free slots.
#[verifier::external_body]
fn reserve_slots<'a, T>(ring: &'a mut SampleProducer<T>, n: usize) -> (r: Result<Reservation<'a, T>, usize>)
    ensures
        n <= old(ring).free_at_least() ==> r is Ok,
        n > old(ring).capacity() ==> r is Err,
        final(ring).capacity() == old(ring).capacity(),
        match r {
            Ok(res) => {
                &&& res.slots() == n
                &&& final(ring).published() == old(ring).published() + res.committed()
                &&& final(ring).free_at_least() == (if n <= old(ring).free_at_least() {
                    (old(ring).free_at_least() - n) as nat
                } else {
                    0
                })
                &&& final(ring).reported_free() == old(ring).reported_free()
            },
            Err(free) => {
                &&& free < n
                &&& old(ring).free_at_least() <= free <= old(ring).capacity()
                &&& final(ring).published() == old(ring).published()
                &&& final(ring).free_at_least() == free
                &&& final(ring).reported_free() == free
            },
        },
{
    match ring.producer.write_chunk_uninit(n) {
        Ok(chunk) => Ok(Reservation { chunk, len: n, committed: Ghost(Seq::empty()) }),
        Err(ChunkError::TooFewSlots(free)) => Err(free),
    }
}

/// Calls `WriteChunkUninit::fill_from_iter` with the samples in order: moves
/// samples into the reserved slots until they are full, publishes them to the
/// consumer and returns how many were written.
#[verifier::external_body]
fn fill_reservation<T: Copy>(reservation: Reservation<'_, T>, samples: &[T]) -> (written: usize)
    requires
        reservation.slots() <= samples@.len(),
    ensures
        written == reservation.slots(),
        reservation.committed() == samples@.take(written as int),
{
    reservation.chunk.fill_from_iter(samples.iter().copied())
}

/// Calls `Consumer::read_chunk`: hands out `n` filled slots holding the next
/// `n` samples of the ring, or reports how many were filled when fewer than
/// `n` were. The filled count never exceeds the capacity, and filled slots
/// only grow until this end reads, so a request for no more than the samples
/// known to be there is always granted. A refusal hands out nothing and
/// records the filled count.
#[verifier::external_body]
fn take_slots<'a, T>(ring: &'a mut SampleConsumer<T>, n: usize) -> (r: Result<ReadBlock<'a, T>, usize>)
    ensures
        n <= old(ring).filled_at_least() ==> r is Ok,
        final(ring).capacity() == old(ring).capacity(),
        match r {
            Ok(block) => {
                &&& block.slots() == n
                &&& block.contents().len() == n
                &&& final(ring).taken() == old(ring).taken() + block.contents()
                &&& final(ring).filled_at_least() == (if n <= old(ring).filled_at_least() {
                    (old(ring).filled_at_least() - n) as nat
                } else {
                    0
                })
                &&& final(ring).reported_filled() == old(ring).reported_filled()
            },
            Err(filled) => filled < n && old(ring).filled_at_least() <= filled <= old(ring).capacity()
                && final(ring).taken() == old(ring).taken() && final(ring).filled_at_least() == filled
                && final(ring).reported_filled() == filled,
        },
{
    match ring.consumer.read_chunk(n) {
        Ok(chunk) => Ok(ReadBlock { chunk, len: n, contents: Ghost(Seq::empty()) }),
        Err(ChunkError::TooFewSlots(filled)) => Err(filled),
    }
}

/// Calls `ReadChunk::as_slices`: the taken samples, oldest first, as two
/// slices.
#[verifier::external_body]
fn block_slices<'b, T>(block: &'b ReadBlock<'_, T>) -> (r: (&'b [T], &'b [T]))
    ensures
        r.0@ + r.1@ == block.contents(),
{
    block.chunk.as_slices()
}

/// Calls `ReadChunk::commit_all`: gives the taken slots back to the producer,
/// so that the block's samples leave the ring.
#[verifier::external_body]
fn release_block<T>(block: ReadBlock<'_, T>) {
    block.chunk.commit_all()
}

/// Calls `Consumer::slots`: how many samples can be read at this moment,
/// which from then on are known to be in the ring. The producer runs
/// concurrently, so the count is whatever the ring reports, between the
/// samples already known to be there and the capacity.
#[verifier::external_body]
pub(crate) fn readable_slots<T>(ring: &mut SampleConsumer<T>) -> (r: usize)
    ensures
        old(ring).filled_at_least() <= r <= old(ring).capacity(),
        final(ring).capacity() == old(ring).capacity(),
        final(ring).taken() == old(ring).taken(),
        final(ring).filled_at_least() == r,
        final(ring).reported_filled() == r,
{
    ring.consumer.slots()
}

/// Second attempt after the ring refused to take all samples and reported
/// `free` free slots: publishes the first `free` samples when there is room
/// for any, and returns how many were published.
pub fn push_into_free_slots<T: Copy>(producer: &mut SampleProducer<T>, samples: &[T], free: usize) -> (written: usize)
    requires
        free < samples@.len(),
    ensures
        free == 0 ==> written == 0,
        free <= old(producer).free_at_least() ==> written == free && final(producer).reported_free()
            == old(producer).reported_free() && final(producer).free_at_least() == old(producer).free_at_least() - free,
        written == free || written == 0,
        final(producer).capacity() == old(producer).capacity(),
        final(producer).published() == old(producer).published() + samples@.take(written as int),
{
    if free == 0 {
        assert(samples@.take(0) =~= Seq::<T>::empty());
        assert(old(producer).published() + samples@.take(0) =~= old(producer).published());
        return 0;
    }
    match reserve_slots(producer, free) {
        Ok(part) => fill_reservation(part, samples),
        Err(_) => {
            assert(old(producer).published() + samples@.take(0) =~= old(producer).published());
            0
        },
    }
}

/// Pushes as many of `samples` as fit, in order, and returns how many were
/// written; the rest is dropped. Never blocks. All of them are written when
/// the ring has room for all; otherwise as many as it reported free, which
/// is at least the number of slots known to be free and at most the
/// capacity. Slots known to be free are used up by what was written.
pub fn push_or_drop<T: Copy>(producer: &mut SampleProducer<T>, samples: &[T]) -> (written: usize)
    ensures
        written <= samples@.len(),
        samples@.len() == 0 ==> written == 0,
        samples@.len() <= old(producer).free_at_least() ==> written == samples@.len(),
        samples@.len() > old(producer).capacity() ==> written < samples@.len(),
        written < samples@.len() ==> written == final(producer).reported_free()
            && old(producer).free_at_least() <= written <= old(producer).capacity(),
        final(producer).free_at_least() == (if written <= old(producer).free_at_least() {
            (old(producer).free_at_least() - written) as nat
        } else {
            0
        }),
        final(producer).capacity() == old(producer).capacity(),
        final(producer).published() == old(producer).published() + samples@.take(written as int),
{
    if samples.len() == 0 {
        assert(old(producer).published() + samples@.take(0) =~= old(producer).published());
        return 0;
    }
    match reserve_slots(producer, samples.len()) {
        Ok(all) => fill_reservation(all, samples),
        Err(free) => push_into_free_slots(producer, samples, free),
    }
}

/// Copies `first` then `second` to the front of `scratch`.
pub fn copy_two_slices<T: Copy>(scratch: &mut Vec<T>, first: &[T], second: &[T])
    requires
        first@.len() + second@.len() <= old(scratch)@.len(),
    ensures
        final(scratch)@ == first@ + second@ + old(scratch)@.skip((first@.len() + second@.len()) as int),
{
    let ghost s0 = scratch@;
    let mut i: usize = 0;
    while i < first.len()
        invariant
            first@.len() + second@.len() <= s0.len(),
            scratch@.len() == s0.len(),
            i <= first@.len(),
            forall|k: int| 0 <= k < i ==> scratch@[k] == first@[k],
            forall|k: int| i <= k < s0.len() ==> scratch@[k] == s0[k],
        decreases first.len() - i,
    {
        scratch[i] = first[i];
        i = i + 1;
    }
    let mut j: usize = 0;
    while j < second.len()
        invariant
            first@.len() + second@.len() <= s0.len(),
            scratch@.len() == s0.len(),
            scratch.len() == s0.len(),
            j <= second@.len(),
            forall|k: int| 0 <= k < first@.len() ==> scratch@[k] == first@[k],
            forall|k: int| 0 <= k < j ==> scratch@[first@.len() + k] == second@[k],
            forall|k: int| first@.len() + j <= k < s0.len() ==> scratch@[k] == s0[k],
        decreases second.len() - j,
    {
        scratch[first.len() + j] = second[j];
        j = j + 1;
    }
    assert(scratch@ =~= first@ + second@ + s0.skip((first@.len() + second@.len()) as int));
}

/// Takes the next `n` samples of the ring, in order, into the front of
/// `scratch` when that many are available, and returns whether it did; taking
/// no more than the samples known to be in the ring always succeeds. The rest of `scratch` is left as it was; when
/// nothing is taken, neither `scratch` nor the ring changes.
pub fn pull_into<T: Copy>(consumer: &mut SampleConsumer<T>, scratch: &mut Vec<T>, n: usize) -> (pulled: bool)
    requires
        n <= old(scratch)@.len(),
    ensures
        n <= old(consumer).filled_at_least() ==> pulled
            && final(consumer).filled_at_least() == old(consumer).filled_at_least() - n,
        pulled ==> final(consumer).reported_filled() == old(consumer).reported_filled(),
        final(consumer).capacity() == old(consumer).capacity(),
        final(scratch)@.len() == old(scratch)@.len(),
        pulled ==> final(consumer).taken() == old(consumer).taken() + final(scratch)@.take(n as int),
        pulled ==> final(scratch)@.skip(n as int) == old(scratch)@.skip(n as int),
        !pulled ==> final(scratch)@ == old(scratch)@ && final(consumer).taken() == old(consumer).taken(),
{
    match take_slots(consumer, n) {
        Ok(block) => {
            let (a, b) = block_slices(&block);
            copy_two_slices(scratch, a, b);
            release_block(block);
            assert(scratch@.take(n as int) =~= a@ + b@);
            true
        },
        Err(_) => false,
    }
}

} // verus!
