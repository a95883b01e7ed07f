//! Single-producer, single-consumer ring for interleaved audio frames.
//!
//! This is the only contact point between the capture callback and a
//! destination callback. Both run on separate real-time threads driven by
//! different hardware clocks, so the crossing must never allocate, lock, or
//! call into the operating system.
//!
//! The ring counts frames (one sample per channel) rather than samples, so a
//! frame can never be torn in half. Samples travel as 32-bit words: the bit
//! pattern of each normalised float, carried unchanged from end to end.
//!
//! The storage is `rtrb`'s lock-free ring. Each end is described by the
//! sequence of samples it has handed over (the writer) or taken out (the
//! reader); the ring itself connects the two.

use vstd::prelude::*;
use rtrb::{Consumer, Producer, RingBuffer};
use rtrb::chunks::ChunkError;

verus! {

#[verifier::external_type_specification]
#[verifier::external_body]
#[verifier::reject_recursive_types(T)]
pub struct ExProducer<T>(Producer<T>);

#[verifier::external_type_specification]
#[verifier::external_body]
#[verifier::reject_recursive_types(T)]
pub struct ExConsumer<T>(Consumer<T>);

#[verifier::external_type_specification]
#[verifier::external_body]
pub struct ExChunkError(ChunkError);

/// Every sample a producer has committed to its ring, oldest first.
pub uninterp spec fn pushed_samples(producer: Producer<u32>) -> Seq<u32>;

/// Capacity, in samples, of the ring a producer writes into.
pub uninterp spec fn producer_capacity(producer: Producer<u32>) -> nat;

/// Every sample a consumer has taken out of its ring, oldest first.
pub uninterp spec fn popped_samples(consumer: Consumer<u32>) -> Seq<u32>;

/// Capacity, in samples, of the ring a consumer reads from.
pub uninterp spec fn consumer_capacity(consumer: Consumer<u32>) -> nat;

/// The samples that pass through the ring a producer writes into, over the
/// ring's whole life, by position. Their order is fixed by the order of the
/// pushes; only when each one goes through varies.
pub uninterp spec fn producer_stream(producer: Producer<u32>) -> Map<int, u32>;

/// The samples that pass through the ring a consumer reads from, over the
/// ring's whole life, by position.
pub uninterp spec fn consumer_stream(consumer: Consumer<u32>) -> Map<int, u32>;

/// A history runs along a stream: its samples are the stream's first ones,
/// in order.
pub open spec fn runs_along(history: Seq<u32>, stream: Map<int, u32>) -> bool {
    forall|i: int| 0 <= i < history.len() ==> stream.dom().contains(i) && stream[i] == #[trigger] history[i]
}

/// `RingBuffer::new`: a fresh ring of `capacity` samples, both ends at the
/// start of an empty history, both on the one stream of the shared buffer. rtrb panics when `capacity` does not fit twice
/// in a `usize` or its storage exceeds `isize::MAX` bytes; `requires` keeps
/// those inputs out.
#[verifier::external_body]
fn new_ring(capacity: usize) -> (ends: (Producer<u32>, Consumer<u32>))
    requires
        capacity * 8 <= isize::MAX,
    ensures
        pushed_samples(ends.0) == Seq::<u32>::empty(),
        popped_samples(ends.1) == Seq::<u32>::empty(),
        producer_capacity(ends.0) == capacity,
        consumer_capacity(ends.1) == capacity,
        producer_stream(ends.0) == consumer_stream(ends.1),
{
    RingBuffer::new(capacity)
}

/// `Producer::slots`: free slots right now, the capacity less what was pushed
/// and not yet popped. The consumer may free more at any moment, so what is
/// stated is what holds whatever it did: at most the capacity, and at least
/// the capacity less everything this producer ever pushed.
#[verifier::external_body]
fn producer_slots(producer: &Producer<u32>) -> (slots: usize)
    ensures
        slots <= producer_capacity(*producer),
        slots + pushed_samples(*producer).len() >= producer_capacity(*producer),
{
    producer.slots()
}

/// `Consumer::slots`: samples readable right now. The producer may add more at
/// any moment, so only the bound by the capacity is stated.
#[verifier::external_body]
fn consumer_slots(consumer: &Consumer<u32>) -> (slots: usize)
    ensures
        slots <= consumer_capacity(*consumer),
{
    consumer.slots()
}

/// `Producer::push_entire_slice`: copies all of `samples` into the ring and
/// commits them, or, when fewer slots are free, copies nothing and fails.
/// Free slots never drop below the capacity less everything pushed so far,
/// so it only fails when `samples` would overrun that. Whatever it does, the
/// samples pushed so far are the first ones of the ring's stream, which a push
/// only extends.
#[verifier::external_body]
fn push_entire(producer: &mut Producer<u32>, samples: &[u32]) -> (result: Result<(), ChunkError>)
    ensures
        producer_capacity(*final(producer)) == producer_capacity(*old(producer)),
        producer_stream(*final(producer)) == producer_stream(*old(producer)),
        runs_along(pushed_samples(*final(producer)), producer_stream(*final(producer))),
        result is Err ==> samples@.len() + pushed_samples(*old(producer)).len() > producer_capacity(*old(producer)),
        result is Ok ==> pushed_samples(*final(producer)) == pushed_samples(*old(producer)) + samples@,
        result is Err ==> pushed_samples(*final(producer)) == pushed_samples(*old(producer)),
{
    producer.push_entire_slice(samples)
}

/// `Consumer::pop_entire_slice` on the first `count` slots of `out`: fills
/// them with the oldest readable samples, or, when fewer are readable, copies
/// nothing and fails. The rest of `out` is not touched. The samples popped so
/// far are the first ones of the ring's stream: the buffer hands samples out
/// in the order they were pushed.
#[verifier::external_body]
fn pop_entire(consumer: &mut Consumer<u32>, out: &mut [u32], count: usize) -> (result: Result<(), ChunkError>)
    requires
        count <= old(out)@.len(),
    ensures
        consumer_capacity(*final(consumer)) == consumer_capacity(*old(consumer)),
        consumer_stream(*final(consumer)) == consumer_stream(*old(consumer)),
        runs_along(popped_samples(*final(consumer)), consumer_stream(*final(consumer))),
        final(out)@.len() == old(out)@.len(),
        final(out)@.subrange(count as int, final(out)@.len() as int)
            == old(out)@.subrange(count as int, old(out)@.len() as int),
        result is Ok ==> popped_samples(*final(consumer))
            == popped_samples(*old(consumer)) + final(out)@.subrange(0, count as int),
        result is Err ==> popped_samples(*final(consumer)) == popped_samples(*old(consumer))
            && final(out)@ == old(out)@,
{
    consumer.pop_entire_slice(&mut out[..count])
}

/// `Consumer::read_chunk` followed by `ReadChunk::commit_all`: releases the
/// `count` oldest readable samples without copying them, or, when fewer are
/// readable, releases nothing and fails. The samples released so far are the
/// first ones of the ring's stream.
#[verifier::external_body]
fn discard(consumer: &mut Consumer<u32>, count: usize) -> (result: Result<(), ChunkError>)
    ensures
        consumer_capacity(*final(consumer)) == consumer_capacity(*old(consumer)),
        consumer_stream(*final(consumer)) == consumer_stream(*old(consumer)),
        runs_along(popped_samples(*final(consumer)), consumer_stream(*final(consumer))),
        result is Ok ==> popped_samples(*final(consumer)).len() == popped_samples(*old(consumer)).len() + count
            && popped_samples(*final(consumer)).subrange(0, popped_samples(*old(consumer)).len() as int)
                == popped_samples(*old(consumer)),
        result is Err ==> popped_samples(*final(consumer)) == popped_samples(*old(consumer)),
{
    match consumer.read_chunk(count) {
        Ok(chunk) => {
            chunk.commit_all();
            Ok(())
        },
        Err(error) => Err(error),
    }
}

/// `Producer::is_abandoned`: whether the consumer is gone. It can become true
/// at any moment, so nothing is stated.
#[verifier::external_body]
fn producer_abandoned(producer: &Producer<u32>) -> bool {
    producer.is_abandoned()
}

/// `Consumer::is_abandoned`: whether the producer is gone. It can become true
/// at any moment, so nothing is stated.
#[verifier::external_body]
fn consumer_abandoned(consumer: &Consumer<u32>) -> bool {
    consumer.is_abandoned()
}

/// Largest multiple of `step` not above `n`.
pub open spec fn round_down(n: int, step: int) -> int {
    n - n % step
}

/// Write end, owned by the capture callback.
pub struct RingWriter {
    inner: Producer<u32>,
    channels: usize,
}

/// Read end, owned by the render callback.
pub struct RingReader {
    inner: Consumer<u32>,
    channels: usize,
}

impl RingWriter {
    /// Channels per frame.
    pub closed spec fn spec_channels(&self) -> nat {
        self.channels as nat
    }

    /// Samples this writer has committed to the ring, oldest first.
    pub closed spec fn written(&self) -> Seq<u32> {
        pushed_samples(self.inner)
    }

    /// Capacity of the ring, in samples.
    pub closed spec fn capacity(&self) -> nat {
        producer_capacity(self.inner)
    }

    /// The samples that pass through the ring, by position.
    pub closed spec fn stream(&self) -> Map<int, u32> {
        producer_stream(self.inner)
    }

    /// At least one channel, and what was written runs along the stream.
    pub open spec fn wf(&self) -> bool {
        &&& self.spec_channels() > 0
        &&& runs_along(self.written(), self.stream())
    }
}

impl RingReader {
    /// Channels per frame.
    pub closed spec fn spec_channels(&self) -> nat {
        self.channels as nat
    }

    /// Samples this reader has taken out of the ring, oldest first.
    pub closed spec fn taken(&self) -> Seq<u32> {
        popped_samples(self.inner)
    }

    /// Capacity of the ring, in samples.
    pub closed spec fn capacity(&self) -> nat {
        consumer_capacity(self.inner)
    }

    /// The samples that pass through the ring, by position.
    pub closed spec fn stream(&self) -> Map<int, u32> {
        consumer_stream(self.inner)
    }

    /// At least one channel, and what was taken runs along the stream.
    pub open spec fn wf(&self) -> bool {
        &&& self.spec_channels() > 0
        &&& runs_along(self.taken(), self.stream())
    }
}

/// Creates a ring holding `capacity_frames` frames of `channels` channels.
///
/// Zero channels or a zero capacity is a programming error; `requires` keeps
/// them out, together with a storage size the ring itself would refuse.
pub fn ring(channels: usize, capacity_frames: usize) -> (ends: (RingWriter, RingReader))
    requires
        channels > 0,
        capacity_frames > 0,
        channels * capacity_frames * 8 <= isize::MAX,
    ensures
        ends.0.wf(),
        ends.1.wf(),
        ends.0.spec_channels() == channels,
        ends.1.spec_channels() == channels,
        ends.0.capacity() == channels * capacity_frames,
        ends.1.capacity() == channels * capacity_frames,
        ends.0.written() == Seq::<u32>::empty(),
        ends.1.taken() == Seq::<u32>::empty(),
        ends.0.stream() == ends.1.stream(),
{
    let (producer, consumer) = new_ring(channels * capacity_frames);
    (RingWriter { inner: producer, channels }, RingReader { inner: consumer, channels })
}

/// Samples a write takes from `offered` samples when `room` slots are free:
/// all of them when they fit, else as many whole frames as the room holds.
pub open spec fn accept_count(offered: int, room: int, channels: int) -> int {
    let whole = round_down(room, channels);
    if offered < whole {
        offered
    } else {
        whole
    }
}

/// What a write of `offered` samples may have taken, `written` samples having
/// gone through the writer before, into a ring of `capacity`: what
/// [`accept_count`] gives for the free room measured at the call, which is
/// never below the capacity less what was written; or nothing, where pushing
/// that much would have overrun even that lower bound.
pub open spec fn write_took(accepted: int, offered: int, written: int, capacity: int, channels: int) -> bool {
    exists|room: int|
        #![trigger accept_count(offered, room, channels)]
        {
            &&& 0 <= room <= capacity
            &&& room + written >= capacity
            &&& (accepted == accept_count(offered, room, channels) || (accepted == 0 && accept_count(
                offered,
                room,
                channels,
            ) + written > capacity))
        }
}

/// Samples a read takes into a buffer of `room` samples when `readable`
/// samples wait: as many whole frames as both allow.
pub open spec fn take_count(room: int, readable: int, channels: int) -> int {
    round_down(if room < readable { room } else { readable }, channels)
}

/// What a read into a buffer of `room` samples may have taken from a ring of
/// `capacity`: what [`take_count`] gives for the readable count measured at
/// the call.
pub open spec fn read_took(taken: int, room: int, capacity: int, channels: int) -> bool {
    exists|readable: int|
        #![trigger take_count(room, readable, channels)]
        0 <= readable <= capacity && taken == take_count(room, readable, channels)
}

/// What discarding `wanted` samples from a ring of `capacity` may have let go:
/// as many as were readable when measured, up to `wanted`.
pub open spec fn discard_took(discarded: int, wanted: int, capacity: int) -> bool {
    exists|readable: int|
        #![trigger min_of(wanted, readable)]
        0 <= readable <= capacity && discarded == min_of(wanted, readable)
}

pub open spec fn min_of(a: int, b: int) -> int {
    if a < b {
        a
    } else {
        b
    }
}

/// Whole frames in `slots` samples.
pub open spec fn frames_of(slots: int, channels: int) -> int {
    slots / channels
}

/// What a count of whole frames may be for a ring of `capacity`, from the
/// slot count measured at the call.
pub open spec fn counted(frames: int, capacity: int, channels: int) -> bool {
    exists|slots: int| #![trigger frames_of(slots, channels)] 0 <= slots <= capacity && frames == frames_of(slots, channels)
}

/// What a count of free whole frames may be, `written` samples having gone
/// through the writer: free slots never drop below the capacity less that.
pub open spec fn counted_room(frames: int, written: int, capacity: int, channels: int) -> bool {
    exists|slots: int|
        #![trigger frames_of(slots, channels)]
        0 <= slots <= capacity && slots + written >= capacity && frames == frames_of(slots, channels)
}

/// Samples a write takes from `offered` samples when `room` slots are free.
pub fn samples_to_accept(offered: usize, room: usize, channels: usize) -> (accepted: usize)
    requires
        channels > 0,
    ensures
        accepted == accept_count(offered as int, room as int, channels as int),
        accepted <= offered,
        accepted <= room,
        (offered as int) % (channels as int) == 0 ==> (accepted as int) % (channels as int) == 0,
{
    proof {
        lemma_remainder_within(room as int, channels as int);
        if (offered as int) % (channels as int) == 0 {
            lemma_round_down_multiple(offered as int, room as int, channels as int);
        }
    }
    let whole = room - room % channels;
    if offered < whole {
        offered
    } else {
        whole
    }
}

/// Samples a read takes into a buffer of `room` samples when `readable`
/// samples wait.
pub fn samples_to_take(room: usize, readable: usize, channels: usize) -> (taken: usize)
    requires
        channels > 0,
    ensures
        taken == take_count(room as int, readable as int, channels as int),
        taken <= room,
        taken <= readable,
        (taken as int) % (channels as int) == 0,
{
    let available = if room < readable { room } else { readable };
    proof {
        lemma_remainder_within(available as int, channels as int);
        lemma_multiple_quotient(available as int, channels as int);
    }
    available - available % channels
}

/// Samples a discard lets go of when `wanted` are asked for and `readable`
/// wait: never more than either, and all of one of them, so whenever both
/// are non-zero something goes.
pub fn samples_to_discard(wanted: usize, readable: usize) -> (discarded: usize)
    ensures
        discarded <= wanted,
        discarded <= readable,
        discarded == wanted || discarded == readable,
{
    if wanted < readable {
        wanted
    } else {
        readable
    }
}

/// Whole frames in `slots` samples.
pub fn frames_in(slots: usize, channels: usize) -> (frames: usize)
    requires
        channels > 0,
    ensures
        frames == frames_of(slots as int, channels as int),
{
    slots / channels
}

impl RingWriter {
    /// Writes as many whole frames as the ring can take, returning the number
    /// of frames dropped for lack of room.
    ///
    /// Dropping rather than overwriting is deliberate: only the consumer moves
    /// the read position, and a producer that overwrote history would break the
    /// single-producer invariant. Sustained overflow is the drift corrector's
    /// job to absorb, not this function's.
    ///
    /// The accepted samples are the leading part of `interleaved`, as many
    /// whole frames as fitted in the room measured at the call
    /// ([`write_took`]); they are appended to what this writer has written,
    /// and the remaining frames are counted as rejected.
    pub fn write(&mut self, interleaved: &[u32]) -> (rejected: usize)
        requires
            old(self).wf(),
        ensures
            final(self).wf(),
            final(self).spec_channels() == old(self).spec_channels(),
            final(self).capacity() == old(self).capacity(),
            final(self).stream() == old(self).stream(),
            exists|accepted: int|
                #![trigger interleaved@.subrange(0, accepted)]
                {
                    &&& 0 <= accepted <= interleaved@.len()
                    &&& accepted <= old(self).capacity()
                    &&& (interleaved@.len() as int) % (old(self).spec_channels() as int) == 0
                        ==> accepted % (old(self).spec_channels() as int) == 0
                    &&& rejected == (interleaved@.len() - accepted) / (old(self).spec_channels() as int)
                    &&& final(self).written() == old(self).written() + interleaved@.subrange(0, accepted)
                    &&& write_took(
                        accepted,
                        interleaved@.len() as int,
                        old(self).written().len() as int,
                        old(self).capacity() as int,
                        old(self).spec_channels() as int,
                    )
                },
    {
        let channels = self.channels;
        let room = producer_slots(&self.inner);
        let accepted = samples_to_accept(interleaved.len(), room, channels);
        let rejected = (interleaved.len() - accepted) / channels;
        let ghost offered = interleaved@.len() as int;
        let ghost written = self.written().len() as int;
        let ghost capacity = self.capacity() as int;
        proof {
            assert(accept_count(offered, room as int, channels as int) == accepted);
            assert(write_took(accepted as int, offered, written, capacity, channels as int));
        }

        if accepted == 0 {
            assert(interleaved@.subrange(0, 0) =~= Seq::<u32>::empty());
            assert(self.written() + interleaved@.subrange(0, 0) =~= self.written());
            return rejected;
        }

        let chunk = &interleaved[0..accepted];
        match push_entire(&mut self.inner, chunk) {
            Ok(()) => rejected,
            Err(_) => {
                // The room was measured just before and only this end fills
                // the ring, so this cannot happen; if it did, nothing went in.
                proof {
                    assert(accept_count(offered, room as int, channels as int) + written > capacity);
                    assert(write_took(0, offered, written, capacity, channels as int));
                }
                assert(interleaved@.subrange(0, 0) =~= Seq::<u32>::empty());
                assert(self.written() + interleaved@.subrange(0, 0) =~= self.written());
                interleaved.len() / channels
            },
        }
    }

    /// Frames the ring can still accept, as measured now: the free slots in
    /// whole frames, the free slots being never below the capacity less what
    /// this writer has written.
    pub fn free_frames(&self) -> (frames: usize)
        requires
            self.wf(),
        ensures
            frames * self.spec_channels() <= self.capacity(),
            counted_room(frames as int, self.written().len() as int, self.capacity() as int, self.spec_channels() as int),
    {
        let slots = producer_slots(&self.inner);
        proof {
            lemma_quotient_times_divisor(slots as int, self.channels as int);
        }
        let frames = frames_in(slots, self.channels);
        proof {
            assert(frames_of(slots as int, self.channels as int) == frames);
        }
        frames
    }

    /// True once the consumer is gone: the matching destination has died.
    pub fn is_abandoned(&self) -> bool {
        producer_abandoned(&self.inner)
    }

    /// Channels per frame.
    pub fn channels(&self) -> (channels: usize)
        ensures
            channels == self.spec_channels(),
    {
        self.channels
    }
}

impl RingReader {
    /// Fills the head of `out` with whatever whole frames are available and
    /// returns the number of frames read. The rest of `out` is left untouched:
    /// how to cover a shortfall is the caller's decision.
    ///
    /// As many whole frames are read as both `out` and the readable samples
    /// measured at the call allow ([`read_took`]); the frames read are exactly
    /// the samples appended to what this reader has taken.
    pub fn read(&mut self, out: &mut [u32]) -> (frames: usize)
        requires
            old(self).wf(),
        ensures
            final(self).wf(),
            final(self).spec_channels() == old(self).spec_channels(),
            final(self).capacity() == old(self).capacity(),
            final(self).stream() == old(self).stream(),
            final(out)@.len() == old(out)@.len(),
            frames * old(self).spec_channels() <= old(out)@.len(),
            frames * old(self).spec_channels() <= old(self).capacity(),
            read_took(
                frames * old(self).spec_channels(),
                old(out)@.len() as int,
                old(self).capacity() as int,
                old(self).spec_channels() as int,
            ),
            final(self).taken() == old(self).taken()
                + final(out)@.subrange(0, frames * old(self).spec_channels()),
            final(out)@.subrange(frames * old(self).spec_channels(), final(out)@.len() as int)
                == old(out)@.subrange(frames * old(self).spec_channels(), old(out)@.len() as int),
    {
        let channels = self.channels;
        let readable = consumer_slots(&self.inner);
        let taken = samples_to_take(out.len(), readable, channels);
        proof {
            lemma_quotient_times_divisor(taken as int, channels as int);
            vstd::arithmetic::div_mod::lemma_fundamental_div_mod(taken as int, channels as int);
            vstd::arithmetic::mul::lemma_mul_is_commutative(taken as int / channels as int, channels as int);
            assert((taken / channels) * channels == taken);
            assert(take_count(out@.len() as int, readable as int, channels as int) == taken);
        }
        if taken == 0 {
            assert(out@.subrange(0, 0) =~= Seq::<u32>::empty());
            assert(self.taken() + out@.subrange(0, 0) =~= self.taken());
            assert(out@.subrange(0, out@.len() as int) =~= out@);
            return 0;
        }

        match pop_entire(&mut self.inner, out, taken) {
            Ok(()) => taken / channels,
            Err(_) => {
                // Only this end drains the ring, so what was measured readable
                // stays readable; if it did not, nothing was read.
                proof {
                    lemma_remainder_within(0, channels as int);
                    assert(take_count(old(out)@.len() as int, 0, channels as int) == 0);
                }
                assert(out@.subrange(0, 0) =~= Seq::<u32>::empty());
                assert(self.taken() + out@.subrange(0, 0) =~= self.taken());
                assert(out@.subrange(0, out@.len() as int) =~= out@);
                0
            },
        }
    }

    /// Discards the `frames` oldest frames, or all that are readable when
    /// fewer are, and returns how many frames went. Used to recover in one
    /// step from a backlog too large for continuous correction to absorb.
    ///
    /// The samples let go are as many as were readable when measured, up to
    /// `frames` whole frames ([`discard_took`]).
    pub fn drop_frames(&mut self, frames: usize) -> (dropped: usize)
        requires
            old(self).wf(),
            frames * old(self).spec_channels() <= usize::MAX,
        ensures
            final(self).wf(),
            final(self).spec_channels() == old(self).spec_channels(),
            final(self).capacity() == old(self).capacity(),
            final(self).stream() == old(self).stream(),
            dropped <= frames,
            exists|discarded: int|
                #![trigger discard_took(discarded, frames * old(self).spec_channels(), old(self).capacity() as int)]
                {
                    &&& discard_took(discarded, frames * old(self).spec_channels(), old(self).capacity() as int)
                    &&& dropped == discarded / (old(self).spec_channels() as int)
                    &&& final(self).taken().len() == old(self).taken().len() + discarded
                },
            old(self).taken().len() + dropped * old(self).spec_channels() <= final(self).taken().len(),
            final(self).taken().len() < old(self).taken().len() + (dropped + 1) * old(self).spec_channels(),
            final(self).taken().subrange(0, old(self).taken().len() as int) == old(self).taken(),
    {
        let channels = self.channels;
        let wanted = frames * channels;
        let readable = consumer_slots(&self.inner);
        let discarded = samples_to_discard(wanted, readable);
        let ghost capacity = self.capacity() as int;
        if discarded == 0 {
            proof {
                assert(channels > 0);
                assert((0int + 1) * (channels as int) == channels as int);
                assert(min_of(wanted as int, readable as int) == 0);
                assert(discard_took(0, wanted as int, capacity));
            }
            assert(self.taken().subrange(0, self.taken().len() as int) =~= self.taken());
            return 0;
        }
        match discard(&mut self.inner, discarded) {
            Ok(()) => {
                proof {
                    assert(min_of(wanted as int, readable as int) == discarded);
                    assert(discard_took(discarded as int, wanted as int, capacity));
                    lemma_quotient_times_divisor(discarded as int, channels as int);
                    if discarded == wanted {
                        lemma_exact_quotient(frames as int, channels as int);
                    } else {
                        lemma_quotient_bound(discarded as int, wanted as int, frames as int, channels as int);
                    }
                }
                discarded / channels
            },
            Err(_) => {
                proof {
                    assert(channels > 0);
                    assert((0int + 1) * (channels as int) == channels as int);
                    assert(min_of(wanted as int, 0) == 0);
                    assert(discard_took(0, wanted as int, capacity));
                }
                assert(self.taken().subrange(0, self.taken().len() as int) =~= self.taken());
                0
            },
        }
    }

    /// Frames waiting to be played, as measured now: the readable slots in
    /// whole frames. This is the quantity the drift corrector regulates.
    pub fn filled_frames(&self) -> (frames: usize)
        requires
            self.wf(),
        ensures
            frames * self.spec_channels() <= self.capacity(),
            counted(frames as int, self.capacity() as int, self.spec_channels() as int),
    {
        let slots = consumer_slots(&self.inner);
        proof {
            lemma_quotient_times_divisor(slots as int, self.channels as int);
        }
        let frames = frames_in(slots, self.channels);
        proof {
            assert(frames_of(slots as int, self.channels as int) == frames);
        }
        frames
    }

    /// True once the producer is gone: the source has died.
    pub fn is_abandoned(&self) -> bool {
        consumer_abandoned(&self.inner)
    }

    /// Channels per frame.
    pub fn channels(&self) -> (channels: usize)
        ensures
            channels == self.spec_channels(),
    {
        self.channels
    }
}

/// What a reader takes is what its writer put in, in order, across
/// wrap-around: wherever both histories reach, they agree. The two ends of
/// one ring share its stream.
pub proof fn lemma_reader_follows_writer(writer: RingWriter, reader: RingReader)
    requires
        writer.wf(),
        reader.wf(),
        writer.stream() == reader.stream(),
    ensures
        forall|i: int|
            0 <= i < reader.taken().len() && i < writer.written().len() ==> #[trigger] reader.taken()[i]
                == writer.written()[i],
{
    assert forall|i: int|
        0 <= i < reader.taken().len() && i < writer.written().len() implies #[trigger] reader.taken()[i]
        == writer.written()[i] by {
        assert(reader.stream()[i] == reader.taken()[i]);
        assert(writer.stream()[i] == writer.written()[i]);
    }
}

proof fn lemma_quotient_times_divisor(n: int, d: int)
    requires
        n >= 0,
        d > 0,
    ensures
        (n / d) * d <= n,
        n < (n / d + 1) * d,
        (n / d) >= 0,
{
    vstd::arithmetic::div_mod::lemma_fundamental_div_mod(n, d);
    vstd::arithmetic::div_mod::lemma_mod_bound(n, d);
    vstd::arithmetic::div_mod::lemma_div_pos_is_pos(n, d);
    vstd::arithmetic::mul::lemma_mul_is_commutative(n / d, d);
    vstd::arithmetic::mul::lemma_mul_is_distributive_add_other_way(d, n / d, 1);
}

proof fn lemma_remainder_within(n: int, d: int)
    requires
        n >= 0,
        d > 0,
    ensures
        0 <= n % d <= n,
{
    lemma_quotient_times_divisor(n, d);
    vstd::arithmetic::div_mod::lemma_fundamental_div_mod(n, d);
    vstd::arithmetic::mul::lemma_mul_is_commutative(n / d, d);
    vstd::arithmetic::mul::lemma_mul_nonnegative(n / d, d);
}

proof fn lemma_multiple_quotient(n: int, d: int)
    requires
        n >= 0,
        d > 0,
    ensures
        (n - n % d) % d == 0,
        (n - n % d) / d == n / d,
        (n - n % d) / d * d == n - n % d,
{
    vstd::arithmetic::div_mod::lemma_fundamental_div_mod(n, d);
    vstd::arithmetic::mul::lemma_mul_is_commutative(n / d, d);
    vstd::arithmetic::div_mod::lemma_mod_multiples_basic(n / d, d);
    vstd::arithmetic::div_mod::lemma_div_multiples_vanish(n / d, d);
}

proof fn lemma_round_down_multiple(len: int, room: int, d: int)
    requires
        len >= 0,
        room >= 0,
        d > 0,
        len % d == 0,
    ensures
        (if len < room - room % d { len } else { room - room % d }) % d == 0,
{
    lemma_multiple_quotient(room, d);
}

proof fn lemma_exact_quotient(frames: int, d: int)
    requires
        frames >= 0,
        d > 0,
    ensures
        (frames * d) / d == frames,
        (frames * d) % d == 0,
{
    vstd::arithmetic::div_mod::lemma_div_multiples_vanish(frames, d);
    vstd::arithmetic::mul::lemma_mul_is_commutative(frames, d);
    vstd::arithmetic::div_mod::lemma_mod_multiples_basic(frames, d);
}

proof fn lemma_quotient_bound(dropped: int, wanted: int, frames: int, d: int)
    requires
        0 <= dropped <= wanted,
        wanted == frames * d,
        frames >= 0,
        d > 0,
    ensures
        dropped / d <= frames,
{
    vstd::arithmetic::div_mod::lemma_div_is_ordered(dropped, wanted, d);
    lemma_exact_quotient(frames, d);
}

} // verus!
