//! The lock-free ring buffer of the `ringbuf` crate, seen through the few
//! operations the channel needs. Everything in this file is taken on trust:
//! each wrapper states what `ringbuf`'s source shows of the call it makes.
use vstd::prelude::*;

verus! {

/// An owned, not yet split `ringbuf::HeapRb` of samples.
#[verifier::external_body]
pub struct SampleRing {
    rb: ringbuf::HeapRb<u32>,
}

/// The write half of a split `ringbuf::HeapRb`.
#[verifier::external_body]
pub struct ProducerHalf {
    p: ringbuf::HeapProducer<u32>,
}

/// The read half of a split `ringbuf::HeapRb`.
#[verifier::external_body]
pub struct ConsumerHalf {
    c: ringbuf::HeapConsumer<u32>,
}

/// The samples held by an unsplit ring, oldest first.
pub uninterp spec fn ring_items(r: SampleRing) -> Seq<u32>;

/// The capacity the ring was made with; it never changes.
pub uninterp spec fn ring_capacity(r: SampleRing) -> nat;

/// Relies on `ringbuf::HeapRb::try_new`: on success an empty ring of exactly
/// `capacity` slots; it fails only when the allocation fails.
#[verifier::external_body]
pub fn ring_try_new(capacity: usize) -> (r: Option<SampleRing>)
    requires
        capacity > 0,
    ensures
        r matches Some(ring) ==> ring_items(ring) == Seq::<u32>::empty()
            && ring_capacity(ring) == capacity as nat,
{
    ringbuf::HeapRb::<u32>::try_new(capacity).ok().map(|rb| SampleRing { rb })
}

/// Relies on `ringbuf::Rb::push`: appends the sample unless the ring is full,
/// in which case the ring is left alone and the sample is handed back.
#[verifier::external_body]
pub fn ring_push(ring: &mut SampleRing, s: u32) -> (r: Result<(), u32>)
    ensures
        ring_capacity(*final(ring)) == ring_capacity(*old(ring)),
        r is Ok <==> ring_items(*old(ring)).len() < ring_capacity(*old(ring)),
        r is Ok ==> ring_items(*final(ring)) == ring_items(*old(ring)).push(s),
        r is Err ==> ring_items(*final(ring)) == ring_items(*old(ring)),
        r matches Err(v) ==> v == s,
{
    ringbuf::Rb::push(&mut ring.rb, s)
}

/// Relies on `ringbuf::Rb::pop`: removes and returns the oldest sample, or
/// returns `None` and leaves the ring alone when it is empty.
#[verifier::external_body]
pub fn ring_pop(ring: &mut SampleRing) -> (r: Option<u32>)
    ensures
        ring_capacity(*final(ring)) == ring_capacity(*old(ring)),
        ring_items(*old(ring)).len() == 0 ==> r is None && ring_items(*final(ring)) == ring_items(*old(ring)),
        ring_items(*old(ring)).len() > 0 ==> r == Some(ring_items(*old(ring))[0])
            && ring_items(*final(ring)) == ring_items(*old(ring)).drop_first(),
{
    ringbuf::Rb::pop(&mut ring.rb)
}

/// Relies on `ringbuf::Rb::len`: the number of samples held.
#[verifier::external_body]
pub fn ring_len(ring: &SampleRing) -> (r: usize)
    ensures
        r as nat == ring_items(*ring).len(),
{
    ringbuf::Rb::len(&ring.rb)
}

/// Relies on `ringbuf::Rb::capacity`: the capacity the ring was made with.
#[verifier::external_body]
pub fn ring_capacity_of(ring: &SampleRing) -> (r: usize)
    ensures
        r as nat == ring_capacity(*ring),
{
    ringbuf::Rb::capacity(&ring.rb)
}

/// Relies on `ringbuf::SharedRb::split`: hands out the one write half and the
/// one read half of the ring, which keep the samples it held.
#[verifier::external_body]
pub fn ring_split(ring: SampleRing) -> (r: (ProducerHalf, ConsumerHalf)) {
    let (p, c) = ring.rb.split();
    (ProducerHalf { p }, ConsumerHalf { c })
}

/// Relies on `ringbuf::Producer::push`: either the sample was appended, or the
/// ring was full at that moment and the sample is handed back.
#[verifier::external_body]
pub fn producer_push(half: &mut ProducerHalf, s: u32) -> (r: Result<(), u32>)
    ensures
        r matches Err(v) ==> v == s,
{
    half.p.push(s)
}

/// Relies on `ringbuf::Consumer::pop`: the oldest sample, or `None` when the
/// ring was empty at that moment.
#[verifier::external_body]
pub fn consumer_pop(half: &mut ConsumerHalf) -> (r: Option<u32>) {
    half.c.pop()
}

} // verus!
