//! The ring buffer between the audio driver and the analysis, which the `ringbuf` crate keeps.
//!
//! The two ends of a ring buffer live on different threads. Each end knows only what it last saw of
//! the other: the other end may have moved on, but it never takes back what it did. So the items
//! that a consumer has seen stay there until it takes them, and the room that a producer has seen
//! stays free until it fills it.
//!
//! What ties the two ends together is the stream of their ring buffer: all the items that are put
//! in over its whole life. What the producer has put in so far, and what the consumer has seen so
//! far, are both how that stream begins.

use ringbuf::traits::{Consumer as _, Observer as _, Producer as _, Split as _};
use ringbuf::{HeapCons, HeapProd, HeapRb};
use vstd::prelude::*;

verus! {

/// Sending side: pushes samples to the ringbuffer
#[verifier::external_body]
pub struct Producer(HeapProd<u32>);

/// Receiving side: pops samples from the ringbuffer
#[verifier::external_body]
pub struct Consumer(HeapCons<u32>);

/// The number of items that the ring buffer of this end can hold.
pub uninterp spec fn producer_capacity(producer: Producer) -> nat;

/// All that is put into the ring buffer of this end over its whole life, oldest first.
pub uninterp spec fn producer_stream(producer: Producer) -> Seq<u32>;

/// All that this end has put into its ring buffer so far, oldest first.
pub uninterp spec fn producer_sent(producer: Producer) -> Seq<u32>;

/// The free places that this end has seen and not filled.
pub uninterp spec fn producer_room(producer: Producer) -> nat;

/// The number of items that the ring buffer of this end can hold.
pub uninterp spec fn consumer_capacity(consumer: Consumer) -> nat;

/// All that is put into the ring buffer of this end over its whole life, oldest first.
pub uninterp spec fn consumer_stream(consumer: Consumer) -> Seq<u32>;

/// All that this end has taken off its ring buffer so far, oldest first.
pub uninterp spec fn consumer_taken(consumer: Consumer) -> Seq<u32>;

/// The items that this end has seen and not taken, oldest first.
pub uninterp spec fn consumer_items(consumer: Consumer) -> Seq<u32>;

/// All that this end has seen of its ring buffer so far, oldest first.
pub open spec fn consumer_seen(consumer: Consumer) -> Seq<u32> {
    consumer_taken(consumer) + consumer_items(consumer)
}

/// Whether an end is still that of the same ring buffer.
pub open spec fn is_same_producer(before: Producer, after: Producer) -> bool {
    producer_stream(after) == producer_stream(before) && producer_capacity(after)
        == producer_capacity(before)
}

/// Whether an end is still that of the same ring buffer.
pub open spec fn is_same_consumer(before: Consumer, after: Consumer) -> bool {
    consumer_stream(after) == consumer_stream(before) && consumer_capacity(after)
        == consumer_capacity(before)
}

/// Whether the two are the ends of a new ring buffer of `capacity`.
pub open spec fn are_new_ends(producer: Producer, consumer: Consumer, capacity: nat) -> bool {
    &&& producer_stream(producer) == consumer_stream(consumer)
    &&& producer_capacity(producer) == capacity
    &&& producer_room(producer) == capacity
    &&& producer_sent(producer) == Seq::<u32>::empty()
    &&& consumer_capacity(consumer) == capacity
    &&& consumer_taken(consumer) == Seq::<u32>::empty()
    &&& consumer_items(consumer) == Seq::<u32>::empty()
}

/// `ringbuf::HeapRb::new` and `split`: the two ends of an empty ring buffer. A capacity of zero, or
/// one whose memory cannot be asked for, panics.
#[verifier::external_body]
pub(crate) fn ring(capacity: usize) -> (ends: (Producer, Consumer))
    requires
        capacity > 0,
        4 * capacity <= isize::MAX,
    ensures
        are_new_ends(ends.0, ends.1, capacity as nat),
{
    let (tx, rx) = HeapRb::new(capacity).split();
    (Producer(tx), Consumer(rx))
}

impl Producer {
    /// `ringbuf::traits::Producer::push_slice`: puts in as many of `items`, from the first on, as
    /// there is room for, and returns how many.
    #[verifier::external_body]
    pub(crate) fn push_slice(&mut self, items: &[u32]) -> (n: usize)
        ensures
            n <= items@.len(),
            is_same_producer(*old(self), *final(self)),
            producer_sent(*final(self)) == producer_sent(*old(self)) + items@.take(n as int),
            producer_sent(*final(self)).is_prefix_of(producer_stream(*final(self))),
            producer_room(*old(self)) <= producer_room(*final(self)) + n <= producer_capacity(
                *old(self),
            ),
            n < items@.len() ==> producer_room(*final(self)) == 0,
    {
        self.0.push_slice(items)
    }
}

impl Consumer {
    /// `ringbuf::traits::Observer::occupied_len`: looks at what has arrived by now, and returns how
    /// many items there are to take.
    #[verifier::external_body]
    pub(crate) fn occupied_len(&mut self) -> (n: usize)
        ensures
            is_same_consumer(*old(self), *final(self)),
            consumer_taken(*final(self)) == consumer_taken(*old(self)),
            consumer_items(*old(self)).is_prefix_of(consumer_items(*final(self))),
            consumer_seen(*final(self)).is_prefix_of(consumer_stream(*final(self))),
            n == consumer_items(*final(self)).len(),
            n <= consumer_capacity(*old(self)),
    {
        self.0.occupied_len()
    }

    /// `ringbuf::traits::Consumer::pop_slice`: looks at what has arrived by now, moves the oldest
    /// items to the front of `items`, as many as there are and fit, and returns how many.
    #[verifier::external_body]
    pub(crate) fn pop_slice(&mut self, items: &mut [u32]) -> (n: usize)
        ensures
            n <= old(items)@.len(),
            final(items)@.len() == old(items)@.len(),
            final(items)@.skip(n as int) == old(items)@.skip(n as int),
            is_same_consumer(*old(self), *final(self)),
            consumer_taken(*final(self)) == consumer_taken(*old(self)) + final(items)@.take(
                n as int,
            ),
            consumer_seen(*old(self)).is_prefix_of(consumer_seen(*final(self))),
            consumer_seen(*final(self)).is_prefix_of(consumer_stream(*final(self))),
            n < old(items)@.len() ==> consumer_items(*final(self)).len() == 0,
            n + consumer_items(*final(self)).len() <= consumer_capacity(*old(self)),
    {
        self.0.pop_slice(items)
    }
}

/// What one end of a ring buffer sees is what the other end put in, in the same order, with nothing
/// lost on the way: as far as both have got, it is the same.
pub proof fn law_what_is_seen_was_sent(producer: Producer, consumer: Consumer)
    requires
        producer_stream(producer) == consumer_stream(consumer),
        producer_sent(producer).is_prefix_of(producer_stream(producer)),
        consumer_seen(consumer).is_prefix_of(consumer_stream(consumer)),
    ensures
        consumer_seen(consumer).is_prefix_of(producer_sent(producer)) || producer_sent(
            producer,
        ).is_prefix_of(consumer_seen(consumer)),
{
    let (sent, seen) = (producer_sent(producer), consumer_seen(consumer));
    let stream = producer_stream(producer);
    assert(sent == stream.take(sent.len() as int));
    assert(seen == stream.take(seen.len() as int));
    if seen.len() <= sent.len() {
        assert(seen == sent.take(seen.len() as int));
    } else {
        assert(sent == seen.take(sent.len() as int));
    }
}

} // verus!
