//! The ring buffer between the decoder and the audio stream.
//!
//! Samples are held as the bits of their 32-bit floating point value, so silence is the number
//! zero. One thread sends decoded samples, another receives them whenever the server asks for
//! audio. Neither end ever sees the other, so each contract speaks of what went through its own
//! end and of the one stream of samples that both ends belong to.
use ringbuf::traits::{Consumer, Observer, Producer, Split};
use ringbuf::{HeapCons, HeapProd, HeapRb};
use vstd::prelude::*;

verus! {

/// Samples that the ring buffer holds for each audio channel.
pub const SAMPLES_PER_CHANNEL: usize = 32768;

/// Bytes of one sample.
pub const SAMPLE_BYTES: u32 = 4;

/// A ring buffer of samples that has not been split into its two ends yet.
#[verifier::external_body]
pub struct SampleRing {
    inner: HeapRb<u32>,
}

/// The end of a ring buffer that samples are sent into.
#[verifier::external_body]
pub struct SampleProducer {
    inner: HeapProd<u32>,
}

/// The end of a ring buffer that samples are received from.
#[verifier::external_body]
pub struct SampleConsumer {
    inner: HeapCons<u32>,
}

/// The samples that an unsplit ring buffer holds, oldest first.
pub uninterp spec fn held(ring: SampleRing) -> Seq<u32>;

/// The most samples that a ring buffer can hold.
pub uninterp spec fn capacity(ring: SampleRing) -> nat;

/// The samples that went into the ring buffer through its producer so far, oldest first.
pub uninterp spec fn sent(producer: SampleProducer) -> Seq<u32>;

/// The free places that the producer can count on: those it saw when it last looked, less the
/// samples it has sent since.
pub uninterp spec fn room(producer: SampleProducer) -> nat;

/// The samples that go through the producer's ring buffer over its whole life, oldest first.
pub uninterp spec fn stream_in(producer: SampleProducer) -> Seq<u32>;

/// The samples that came out of the ring buffer through its consumer so far, oldest first.
pub uninterp spec fn received(consumer: SampleConsumer) -> Seq<u32>;

/// The samples that go through the consumer's ring buffer over its whole life, oldest first.
pub uninterp spec fn stream_out(consumer: SampleConsumer) -> Seq<u32>;

/// The samples that the consumer can count on: those it saw when it last looked and has not
/// received since.
pub uninterp spec fn ready(consumer: SampleConsumer) -> nat;

/// What every producer keeps: the samples it has sent begin the stream.
pub open spec fn producer_valid(producer: SampleProducer) -> bool {
    sent(producer).is_prefix_of(stream_in(producer))
}

/// What every consumer keeps: the samples it has received begin the stream, and those it can count
/// on come next in it.
pub open spec fn consumer_valid(consumer: SampleConsumer) -> bool {
    &&& received(consumer).is_prefix_of(stream_out(consumer))
    &&& received(consumer).len() + ready(consumer) <= stream_out(consumer).len()
}

/// Calls `ringbuf::HeapRb::new`, which makes an empty ring buffer with room for exactly
/// `places` samples. It panics where `places` is zero, or where that many samples are more bytes
/// than an allocation can hold.
#[verifier::external_body]
fn new_ring(places: usize) -> (ring: SampleRing)
    requires
        0 < places,
        SAMPLE_BYTES * places <= isize::MAX,
    ensures
        held(ring) == Seq::<u32>::empty(),
        capacity(ring) == places,
{
    SampleRing { inner: HeapRb::new(places) }
}

/// Calls `ringbuf::traits::Split::split`, which hands out the two ends of a ring buffer. What the
/// ring buffer holds counts as sent and not yet received, and the consumer has seen it.
#[verifier::external_body]
fn split(ring: SampleRing) -> (ends: (SampleProducer, SampleConsumer))
    ensures
        sent(ends.0) == held(ring),
        room(ends.0) == capacity(ring) - held(ring).len(),
        received(ends.1) == Seq::<u32>::empty(),
        ready(ends.1) == held(ring).len(),
        stream_in(ends.0) == stream_out(ends.1),
        producer_valid(ends.0),
{
    let (producer, consumer) = ring.inner.split();
    (SampleProducer { inner: producer }, SampleConsumer { inner: consumer })
}

/// Calls `ringbuf::traits::Observer::vacant_len`, which counts the free places. The consumer can
/// only add to them, so there are as many as the producer could count on before, or more, and it
/// can count on as many from then on. How many more there are depends on how far the consumer has
/// got, and nothing is said of that.
#[verifier::external_body]
fn vacant_len(producer: &mut SampleProducer) -> (count: usize)
    ensures
        room(*old(producer)) <= count,
        room(*final(producer)) == count,
        sent(*final(producer)) == sent(*old(producer)),
        stream_in(*final(producer)) == stream_in(*old(producer)),
{
    producer.inner.vacant_len()
}

/// Calls `ringbuf::traits::Producer::push_slice`, which appends the first items of a slice, as
/// many as there are free places for, and returns how many. Only a slice that has more items than
/// the free places that the producer can count on may be cut short, and then those are filled.
#[verifier::external_body]
fn push_slice(producer: &mut SampleProducer, samples: &[u32]) -> (count: usize)
    ensures
        count <= samples.len(),
        count == samples.len() || room(*old(producer)) <= count,
        sent(*final(producer)) == sent(*old(producer)) + samples@.take(count as int),
        count <= room(*old(producer)) ==> room(*final(producer)) == room(*old(producer)) - count,
        stream_in(*final(producer)) == stream_in(*old(producer)),
        producer_valid(*final(producer)),
{
    producer.inner.push_slice(samples)
}

/// Calls `ringbuf::traits::Consumer::pop_slice`, which moves the oldest items out of the ring
/// buffer into the front of a slice, and returns how many. It looks once, and the producer can only
/// have added to what the consumer saw before. It then fills the slice or takes every item that it
/// saw. How many more it sees than before depends on how far the producer has got, and nothing is
/// said of that.
#[verifier::external_body]
fn pop_slice(consumer: &mut SampleConsumer, buffer: &mut [u32]) -> (count: usize)
    ensures
        count <= old(buffer).len(),
        count == old(buffer).len() || ready(*final(consumer)) == 0,
        ready(*old(consumer)) <= ready(*final(consumer)) + count,
        final(buffer)@.len() == old(buffer)@.len(),
        final(buffer)@.skip(count as int) == old(buffer)@.skip(count as int),
        received(*final(consumer)) == received(*old(consumer)) + final(buffer)@.take(count as int),
        stream_out(*final(consumer)) == stream_out(*old(consumer)),
        consumer_valid(*final(consumer)),
{
    consumer.inner.pop_slice(buffer)
}

/// Makes the ring buffer for audio with `num_channels` channels and hands out its two ends.
pub fn sample_ring(num_channels: u32) -> (ends: (SampleProducer, SampleConsumer))
    requires
        0 < num_channels,
        SAMPLE_BYTES * SAMPLES_PER_CHANNEL * num_channels <= isize::MAX,
    ensures
        sent(ends.0) == Seq::<u32>::empty(),
        received(ends.1) == Seq::<u32>::empty(),
        room(ends.0) == SAMPLES_PER_CHANNEL * num_channels,
        ready(ends.1) == 0,
        stream_in(ends.0) == stream_out(ends.1),
        producer_valid(ends.0),
        consumer_valid(ends.1),
{
    assert(SAMPLE_BYTES * SAMPLES_PER_CHANNEL * num_channels == 131072 * num_channels);
    assert(num_channels as usize == num_channels);
    let ring = new_ring(SAMPLES_PER_CHANNEL * num_channels as usize);
    split(ring)
}

/// Where the sending of a packet has got to.
#[derive(Debug, Clone, Copy, PartialEq, Eq, Structural)]
pub enum Feed {
    /// Every sample of the packet has been sent.
    Done,
    /// The ring buffer is full. The samples from index `next` on are still to be sent, once the
    /// consumer has made room.
    Wait { next: usize },
}

/// How far sending gets from index `current` of a packet of `len` samples with `vacant` places
/// free: to the end of the packet, or until the places are used up.
pub fn next_sample_index(current: usize, vacant: usize, len: usize) -> (next: usize)
    requires
        current <= len,
    ensures
        next == if current + vacant <= len { current + vacant } else { len as int },
{
    if vacant < len - current {
        current + vacant
    } else {
        len
    }
}

/// Sends the samples of a packet from index `current` on, as many as there is room for.
pub fn push_available_samples(
    producer: &mut SampleProducer,
    samples: &[u32],
    current: usize,
) -> (feed: Feed)
    requires
        current <= samples.len(),
        producer_valid(*old(producer)),
    ensures
        producer_valid(*final(producer)),
        stream_in(*final(producer)) == stream_in(*old(producer)),
        samples.len() - current <= room(*old(producer)) ==> feed == Feed::Done,
        room(*old(producer)) <= room(*final(producer)) + (samples.len() - current),
        match feed {
            Feed::Done => sent(*final(producer)) == sent(*old(producer)) + samples@.skip(
                current as int,
            ),
            Feed::Wait { next } => {
                &&& current <= next < samples.len()
                &&& room(*old(producer)) <= next - current
                &&& sent(*final(producer)) == sent(*old(producer)) + samples@.subrange(
                    current as int,
                    next as int,
                )
                &&& room(*final(producer)) == 0
            },
        },
{
    if current == samples.len() {
        assert(samples@.skip(current as int) =~= Seq::<u32>::empty());
        return Feed::Done;
    }
    let vacant = vacant_len(producer);
    let next = next_sample_index(current, vacant, samples.len());
    let chunk = vstd::slice::slice_subrange(samples, current, next);
    let count = push_slice(producer, chunk);
    assert(chunk@.take(count as int) =~= chunk@);
    if next < samples.len() {
        Feed::Wait { next }
    } else {
        assert(samples@.subrange(current as int, next as int) =~= samples@.skip(current as int));
        Feed::Done
    }
}

/// Where the audio lies in a buffer of the server.
#[derive(Debug, Clone, Copy, PartialEq, Eq, Structural)]
pub struct Chunk {
    /// Index of the first byte.
    pub offset: u32,
    /// Bytes from one frame to the next.
    pub stride: i32,
    /// Number of bytes.
    pub size: u32,
}

/// Describes a buffer of `byte_len` bytes that is filled from its start with frames of
/// `num_channels` samples.
pub fn chunk_layout(byte_len: usize, num_channels: u32) -> (chunk: Chunk)
    requires
        SAMPLE_BYTES * num_channels <= u32::MAX,
    ensures
        chunk.offset == 0,
        chunk.stride == (SAMPLE_BYTES * num_channels) as i32,
        chunk.size == byte_len as u32,
{
    Chunk {
        offset: 0,
        stride: (SAMPLE_BYTES * num_channels) as i32,
        size: byte_len as u32,
    }
}

/// Pads a buffer with silence after the samples that were there for it. Returns whether playback
/// has come to its end, which is when not a single sample was there.
pub fn pad_with_silence(buffer: &mut [u32], read_samples: usize) -> (finished: bool)
    requires
        read_samples <= old(buffer)@.len(),
    ensures
        final(buffer)@ == old(buffer)@.take(read_samples as int) + Seq::new(
            (old(buffer)@.len() - read_samples) as nat,
            |i: int| 0u32,
        ),
        finished == (read_samples == 0),
{
    let len = buffer.len();
    let ghost filled = buffer@.take(read_samples as int);
    let mut index = read_samples;
    while index < len
        invariant
            read_samples <= index <= len,
            len == buffer@.len(),
            buffer@.take(read_samples as int) == filled,
            forall|i: int| read_samples <= i < index ==> buffer@[i] == 0,
        decreases len - index,
    {
        buffer[index] = 0;
        assert(buffer@.take(read_samples as int) =~= filled);
        index += 1;
    }
    assert(buffer@ =~= buffer@.take(read_samples as int) + buffer@.skip(read_samples as int));
    read_samples == 0
}

/// Whether a buffer begins with the samples that were received in between and is silent after
/// them. Playback has come to its end if there were none.
pub open spec fn fills(
    received_before: Seq<u32>,
    received_after: Seq<u32>,
    buffer: Seq<u32>,
    finished: bool,
) -> bool {
    let count = received_after.len() - received_before.len();
    &&& 0 <= count <= buffer.len()
    &&& received_after == received_before + buffer.take(count)
    &&& forall|i: int| count <= i < buffer.len() ==> buffer[i] == 0
    &&& finished == (count == 0)
}

/// Whether a consumer read as many samples as it could into the given number of places: it filled
/// them, or it took every sample that it saw, and it saw those that it could count on before.
pub open spec fn reads_all(before: SampleConsumer, after: SampleConsumer, places: nat) -> bool {
    let count = received(after).len() - received(before).len();
    &&& count == places || ready(after) == 0
    &&& ready(before) <= ready(after) + count
}

/// Fills a buffer with the next samples, as many as are there and fit, and pads it with silence.
/// Returns whether playback has come to its end, which is when not a single sample was there.
pub fn fill_buffer(consumer: &mut SampleConsumer, buffer: &mut [u32]) -> (finished: bool)
    requires
        consumer_valid(*old(consumer)),
    ensures
        consumer_valid(*final(consumer)),
        stream_out(*final(consumer)) == stream_out(*old(consumer)),
        final(buffer)@.len() == old(buffer)@.len(),
        fills(received(*old(consumer)), received(*final(consumer)), final(buffer)@, finished),
        reads_all(*old(consumer), *final(consumer), old(buffer)@.len()),
{
    let read_samples = pop_slice(consumer, buffer);
    let ghost popped = buffer@.take(read_samples as int);
    let finished = pad_with_silence(buffer, read_samples);
    assert(buffer@.take(read_samples as int) =~= popped);
    finished
}

/// The four bytes of a sample, least significant first.
pub open spec fn little_endian(sample: u32) -> Seq<u8> {
    seq![
        (sample & 0xff) as u8,
        ((sample >> 8) & 0xff) as u8,
        ((sample >> 16) & 0xff) as u8,
        ((sample >> 24) & 0xff) as u8,
    ]
}

/// Whether bytes are those of samples, each in the order that `bytes_of` puts them in.
pub open spec fn are_bytes_of(
    bytes: Seq<u8>,
    samples: Seq<u32>,
    bytes_of: spec_fn(u32) -> Seq<u8>,
) -> bool {
    &&& bytes.len() == SAMPLE_BYTES * samples.len()
    &&& forall|i: int|
        0 <= i < samples.len() ==> bytes.subrange(SAMPLE_BYTES * i, SAMPLE_BYTES * i + SAMPLE_BYTES)
            == bytes_of(#[trigger] samples[i])
}

/// Whether memory with the given bytes holds samples, on a machine of either byte order.
pub open spec fn holds_samples(bytes: Seq<u8>, samples: Seq<u32>) -> bool {
    ||| are_bytes_of(bytes, samples, |sample: u32| little_endian(sample))
    ||| are_bytes_of(bytes, samples, |sample: u32| little_endian(sample).reverse())
}

/// Calls `bytemuck::try_cast_slice_mut`, which lets bytes be used as samples in place. It fails
/// where the bytes are not a whole number of samples, and where they do not begin at an address
/// that is aligned for samples. Nothing is said of addresses.
#[verifier::external_body]
fn samples_in(bytes: &mut [u8]) -> (samples: Option<&mut [u32]>)
    ensures
        match samples {
            Some(samples) => {
                &&& holds_samples(old(bytes)@, samples@)
                &&& holds_samples(final(bytes)@, final(samples)@)
            },
            None => final(bytes)@ == old(bytes)@,
        },
{
    bytemuck::try_cast_slice_mut(bytes).ok()
}

/// Whether `bytemuck::try_cast_slice_mut`, when it is asked to use `bytes` as samples, can give
/// `cast`: the samples in them, or nothing where they cannot be used so.
pub closed spec fn casts_to(bytes: &mut [u8], cast: Option<&mut [u32]>) -> bool {
    call_ensures(samples_in, (bytes,), cast)
}

/// Calls a function value, so that a caller can say of what came back that it came from that
/// function.
fn apply<T, U, F: FnOnce(T) -> U>(argument: T, function: F) -> (result: U)
    requires
        call_requires(function, (argument,)),
    ensures
        call_ensures(function, (argument,), result),
{
    function(argument)
}

/// What was played into a buffer of the server.
#[derive(Debug, Clone, Copy, PartialEq, Eq, Structural)]
pub struct Played {
    /// Whether playback has come to its end.
    pub finished: bool,
    /// Where the audio lies in the buffer.
    pub chunk: Chunk,
}

/// Plays into a buffer of `byte_len` bytes, given the samples in it if it can hold samples: they
/// are filled with the next samples and padded with silence. Says where the audio lies in the
/// buffer, and fails if and only if the buffer cannot hold samples.
pub fn process_samples(
    consumer: &mut SampleConsumer,
    samples: Option<&mut [u32]>,
    byte_len: usize,
    num_channels: u32,
) -> (played: Option<Played>)
    requires
        consumer_valid(*old(consumer)),
        SAMPLE_BYTES * num_channels <= u32::MAX,
    ensures
        consumer_valid(*final(consumer)),
        stream_out(*final(consumer)) == stream_out(*old(consumer)),
        played is Some <==> samples is Some,
        match samples {
            Some(samples) => {
                &&& final(samples)@.len() == samples@.len()
                &&& fills(
                    received(*old(consumer)),
                    received(*final(consumer)),
                    final(samples)@,
                    played->0.finished,
                )
                &&& reads_all(*old(consumer), *final(consumer), samples@.len())
                &&& played->0.chunk.offset == 0
                &&& played->0.chunk.stride == (SAMPLE_BYTES * num_channels) as i32
                &&& played->0.chunk.size == byte_len as u32
            },
            None => *final(consumer) == *old(consumer),
        },
{
    match samples {
        Some(samples) => {
            let finished = fill_buffer(consumer, samples);
            Some(Played { finished, chunk: chunk_layout(byte_len, num_channels) })
        },
        None => None,
    }
}

/// Fills a buffer of the server with the next samples, pads it with silence, and says where the
/// audio lies in it. Fails if and only if the cast of the bytes to samples fails, and then leaves the
/// buffer as it is. The cast fails for bytes that are not a whole number of samples. Of the others,
/// it takes those that begin at an aligned address, and nothing is said of addresses.
pub fn process_buffer(consumer: &mut SampleConsumer, bytes: &mut [u8], num_channels: u32) -> (played:
    Option<Played>)
    requires
        consumer_valid(*old(consumer)),
        SAMPLE_BYTES * num_channels <= u32::MAX,
    ensures
        consumer_valid(*final(consumer)),
        stream_out(*final(consumer)) == stream_out(*old(consumer)),
        old(bytes)@.len() % SAMPLE_BYTES as nat != 0 ==> played is None,
        exists|cast: Option<&mut [u32]>| #[trigger]
            casts_to(bytes, cast) && match cast {
                Some(samples) => played is Some && holds_samples(final(bytes)@, final(samples)@)
                    && fills(
                    received(*old(consumer)),
                    received(*final(consumer)),
                    final(samples)@,
                    played->0.finished,
                ),
                None => played is None,
            },
        match played {
            Some(played) => {
                &&& final(bytes)@.len() == old(bytes)@.len()
                &&& exists|samples: Seq<u32>| #[trigger]
                    holds_samples(final(bytes)@, samples) && fills(
                        received(*old(consumer)),
                        received(*final(consumer)),
                        samples,
                        played.finished,
                    )
                &&& reads_all(
                    *old(consumer),
                    *final(consumer),
                    old(bytes)@.len() / SAMPLE_BYTES as nat,
                )
                &&& played.chunk.offset == 0
                &&& played.chunk.stride == (SAMPLE_BYTES * num_channels) as i32
                &&& played.chunk.size == old(bytes)@.len() as u32
            },
            None => *final(consumer) == *old(consumer) && final(bytes)@ == old(bytes)@,
        },
{
    let byte_len = bytes.len();
    let samples = apply(bytes, samples_in);
    assert(casts_to(bytes, samples));
    process_samples(consumer, samples, byte_len, num_channels)
}

/// Samples come out of the ring buffer in the order in which they went in: of any two ends of one
/// ring buffer, what one has received and what the other has sent agree as far as both reach.
pub proof fn law_received_in_order(producer: SampleProducer, consumer: SampleConsumer, i: int)
    requires
        producer_valid(producer),
        consumer_valid(consumer),
        stream_in(producer) == stream_out(consumer),
        0 <= i < sent(producer).len(),
        i < received(consumer).len(),
    ensures
        received(consumer)[i] == sent(producer)[i],
{
}

/// What is waiting is played: a buffer begins with the samples that the consumer could count on, in
/// their order and as many as fit, and those that did not fit stay for the next buffer. A buffer
/// with any places in it does not end playback while there are such samples, and where it does, the
/// consumer has played all that it saw.
pub proof fn law_waiting_samples_are_played(
    before: SampleConsumer,
    after: SampleConsumer,
    buffer: Seq<u32>,
    finished: bool,
)
    requires
        consumer_valid(before),
        consumer_valid(after),
        stream_out(after) == stream_out(before),
        fills(received(before), received(after), buffer, finished),
        reads_all(before, after, buffer.len()),
    ensures
        forall|i: int|
            0 <= i < buffer.len() && i < ready(before) ==> #[trigger] buffer[i] == stream_out(
                before,
            )[received(before).len() + i],
        ready(before) <= buffer.len() + ready(after),
        finished && buffer.len() > 0 ==> ready(before) == 0 && ready(after) == 0,
{
    let count = received(after).len() - received(before).len();
    assert forall|i: int| 0 <= i < buffer.len() && i < ready(before) implies #[trigger] buffer[i]
        == stream_out(before)[received(before).len() + i] by {
        assert(received(after)[received(before).len() + i] == buffer.take(count)[i]);
    }
}

/// What has been sent after rounds of sending a packet from index `from` on: each round but the
/// last stops at an index in `stops` and waits, and the last one gets to the end.
pub open spec fn sent_after_rounds(
    before: Seq<u32>,
    samples: Seq<u32>,
    from: int,
    stops: Seq<int>,
) -> Seq<u32>
    decreases stops.len(),
{
    if stops.len() == 0 {
        before + samples.skip(from)
    } else {
        sent_after_rounds(
            before + samples.subrange(from, stops[0]),
            samples,
            stops[0],
            stops.drop_first(),
        )
    }
}

/// However often the sending of a packet has to wait, and wherever it stops, every sample of the
/// packet is sent exactly once and in order.
pub proof fn law_packet_is_sent_whole(
    before: Seq<u32>,
    samples: Seq<u32>,
    from: int,
    stops: Seq<int>,
)
    requires
        0 <= from <= samples.len(),
        forall|i: int| 0 <= i < stops.len() ==> from <= #[trigger] stops[i] <= samples.len(),
        forall|i: int, j: int| 0 <= i < j < stops.len() ==> stops[i] <= stops[j],
    ensures
        sent_after_rounds(before, samples, from, stops) == before + samples.skip(from),
    decreases stops.len(),
{
    if stops.len() > 0 {
        let sent = before + samples.subrange(from, stops[0]);
        law_packet_is_sent_whole(sent, samples, stops[0], stops.drop_first());
        assert(sent + samples.skip(stops[0]) =~= before + samples.skip(from));
    }
}

/// A buffer that was filled holds the samples that came out of the ring buffer for it, in their
/// order, and zeros after them. A read that does not fill it has taken all that the consumer saw.
/// Playback has ended if and only if nothing came out.
pub proof fn law_buffer_is_samples_then_silence(
    before: SampleConsumer,
    after: SampleConsumer,
    buffer: Seq<u32>,
    finished: bool,
)
    requires
        fills(received(before), received(after), buffer, finished),
        reads_all(before, after, buffer.len()),
    ensures
        received(before).is_prefix_of(received(after)),
        received(after).len() <= received(before).len() + buffer.len(),
        received(after).len() < received(before).len() + buffer.len() ==> ready(after) == 0,
        forall|i: int|
            0 <= i < buffer.len() ==> #[trigger] buffer[i] == if received(before).len() + i
                < received(after).len() {
                received(after)[received(before).len() + i]
            } else {
                0u32
            },
        finished <==> received(after) == received(before),
{
    let count = received(after).len() - received(before).len();
    assert forall|i: int| 0 <= i < count implies #[trigger] buffer[i] == received(
        after,
    )[received(before).len() + i] by {
        assert(received(after)[received(before).len() + i] == buffer.take(count)[i]);
    }
    if count == 0 {
        assert(received(after) =~= received(before));
    }
}

/// Two buffers that are filled one after the other hold together what came out of the ring buffer in
/// between, and nothing that either holds is lost or held twice: the second goes on where the first
/// stopped.
pub proof fn law_next_buffer_goes_on(
    first: SampleConsumer,
    second: SampleConsumer,
    third: SampleConsumer,
    buffer: Seq<u32>,
    next_buffer: Seq<u32>,
    finished: bool,
    next_finished: bool,
)
    requires
        fills(received(first), received(second), buffer, finished),
        fills(received(second), received(third), next_buffer, next_finished),
    ensures
        received(third) == received(first) + buffer.take(
            received(second).len() - received(first).len(),
        ) + next_buffer.take(received(third).len() - received(second).len()),
{
}

/// Memory that holds samples has four bytes for each of them, which make up its value from the least
/// significant byte to the most significant, or the other way round on other machines. Silence is
/// zeros.
pub proof fn law_bytes_make_up_samples(bytes: Seq<u8>, samples: Seq<u32>)
    requires
        holds_samples(bytes, samples),
    ensures
        bytes.len() == 4 * samples.len(),
        (forall|i: int|
            0 <= i < samples.len() ==> bytes[4 * i] + 0x100 * bytes[4 * i + 1] + 0x1_0000 * bytes[4 * i
                + 2] + 0x100_0000 * bytes[4 * i + 3] == #[trigger] samples[i]) || (forall|i: int|
            0 <= i < samples.len() ==> bytes[4 * i + 3] + 0x100 * bytes[4 * i + 2] + 0x1_0000
                * bytes[4 * i + 1] + 0x100_0000 * bytes[4 * i] == #[trigger] samples[i]),
        forall|i: int|
            0 <= i < samples.len() && #[trigger] samples[i] == 0 ==> bytes[4 * i] == 0 && bytes[4 * i
                + 1] == 0 && bytes[4 * i + 2] == 0 && bytes[4 * i + 3] == 0,
{
    let forward = |sample: u32| little_endian(sample);
    let backward = |sample: u32| little_endian(sample).reverse();
    assert forall|i: int| 0 <= i < samples.len() implies ({
        let sample = #[trigger] samples[i];
        let four = little_endian(sample);
        four[0] + 0x100 * four[1] + 0x1_0000 * four[2] + 0x100_0000 * four[3] == sample
    }) by {
        lemma_little_endian(samples[i]);
    }
    if are_bytes_of(bytes, samples, forward) {
        assert forall|i: int| 0 <= i < samples.len() implies bytes[4 * i] + 0x100 * bytes[4 * i + 1]
            + 0x1_0000 * bytes[4 * i + 2] + 0x100_0000 * bytes[4 * i + 3] == #[trigger] samples[i] by {
            let four = bytes.subrange(4 * i, 4 * i + 4);
            assert(four == little_endian(samples[i]));
            assert(four[0] == bytes[4 * i] && four[1] == bytes[4 * i + 1] && four[2] == bytes[4 * i + 2]
                && four[3] == bytes[4 * i + 3]);
        }
    } else {
        assert(are_bytes_of(bytes, samples, backward));
        assert forall|i: int| 0 <= i < samples.len() implies bytes[4 * i + 3] + 0x100 * bytes[4 * i
            + 2] + 0x1_0000 * bytes[4 * i + 1] + 0x100_0000 * bytes[4 * i] == #[trigger] samples[i] by {
            let four = bytes.subrange(4 * i, 4 * i + 4);
            assert(four == little_endian(samples[i]).reverse());
            assert(four[0] == bytes[4 * i] && four[1] == bytes[4 * i + 1] && four[2] == bytes[4 * i + 2]
                && four[3] == bytes[4 * i + 3]);
        }
    }
}

proof fn lemma_little_endian(sample: u32)
    ensures
        ({
            let four = little_endian(sample);
            four[0] + 0x100 * four[1] + 0x1_0000 * four[2] + 0x100_0000 * four[3] == sample
        }),
{
    assert(((sample & 0xff) as u8) + 0x100 * (((sample >> 8) & 0xff) as u8) + 0x1_0000 * (((sample
        >> 16) & 0xff) as u8) + 0x100_0000 * (((sample >> 24) & 0xff) as u8) == sample) by (bit_vector);
}

/// What a cast can give is what the cast itself gives, and nothing else counts as one.
proof fn law_casts_are_those_of_the_cast(bytes: &mut [u8], cast: Option<&mut [u32]>)
    ensures
        casts_to(bytes, cast) <==> call_ensures(samples_in, (bytes,), cast),
{
}

/// Where bytes cannot be used as samples they stay as they are, and where they can, they are a whole
/// number of samples before and after.
pub proof fn law_cast_keeps_bytes(bytes: &mut [u8], cast: Option<&mut [u32]>)
    requires
        casts_to(bytes, cast),
    ensures
        match cast {
            Some(samples) => {
                &&& holds_samples(old(bytes)@, samples@)
                &&& holds_samples(final(bytes)@, final(samples)@)
            },
            None => final(bytes)@ == old(bytes)@,
        },
{
}

} // verus!
