//! The two endpoints of a split channel. Each is owned by one callback; the
//! other side may change the occupied count at any moment, so an endpoint
//! records what its own calls returned rather than what the channel holds.
use crate::channel::Overflow;
use crate::ring::{consumer_pop, producer_push, ConsumerHalf, ProducerHalf};
use vstd::prelude::*;

verus! {

/// The write endpoint of a split channel.
pub struct SampleProducer {
    half: ProducerHalf,
    log: Ghost<Seq<(u32, bool)>>,
}

impl SampleProducer {
    pub(crate) fn new(half: ProducerHalf) -> (r: SampleProducer)
        ensures
            r.attempts() == Seq::<(u32, bool)>::empty(),
    {
        SampleProducer { half, log: Ghost(Seq::empty()) }
    }

    /// Every sample this endpoint was asked to push, in order, each with
    /// whether it was accepted.
    pub closed spec fn attempts(&self) -> Seq<(u32, bool)> {
        self.log@
    }

    /// Appends one sample, or fails with `Overflow` when the channel is full.
    pub fn push(&mut self, s: u32) -> (r: Result<(), Overflow>)
        ensures
            final(self).attempts() == old(self).attempts().push((s, r is Ok)),
    {
        let r = producer_push(&mut self.half, s);
        self.log = Ghost(self.log@.push((s, r is Ok)));
        match r {
            Ok(()) => Ok(()),
            Err(_) => Err(Overflow),
        }
    }
}

/// The read endpoint of a split channel.
pub struct SampleConsumer {
    half: ConsumerHalf,
    log: Ghost<Seq<Option<u32>>>,
}

impl SampleConsumer {
    pub(crate) fn new(half: ConsumerHalf) -> (r: SampleConsumer)
        ensures
            r.outcomes() == Seq::<Option<u32>>::empty(),
    {
        SampleConsumer { half, log: Ghost(Seq::empty()) }
    }

    /// What every pop through this endpoint returned, in order.
    pub closed spec fn outcomes(&self) -> Seq<Option<u32>> {
        self.log@
    }

    /// Removes and returns the oldest sample, or `None` when the channel is
    /// empty.
    pub fn pop(&mut self) -> (r: Option<u32>)
        ensures
            final(self).outcomes() == old(self).outcomes().push(r),
    {
        let r = consumer_pop(&mut self.half);
        self.log = Ghost(self.log@.push(r));
        r
    }
}

} // verus!
