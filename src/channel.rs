//! The bounded sample channel: a fixed-capacity FIFO of samples that never
//! blocks. A push on a full channel and a pop on an empty one fail and change
//! nothing.
use crate::endpoint::{SampleConsumer, SampleProducer};
use crate::ring::{ring_capacity, ring_capacity_of, ring_items, ring_len, ring_pop, ring_push, ring_split, ring_try_new, SampleRing};
use vstd::prelude::*;

verus! {

/// The bit pattern of the silent sample `0.0`.
pub const EQUILIBRIUM: u32 = 0;

/// A push was refused because the channel was full; the sample was dropped.
#[derive(Clone, Copy, Debug, PartialEq, Eq, Structural)]
pub struct Overflow;

/// Why a channel could not be made.
#[derive(Clone, Copy, Debug, PartialEq, Eq, Structural)]
pub enum SetupError {
    /// The capacity asked for was zero.
    ZeroCapacity,
    /// The storage for the samples could not be allocated.
    OutOfMemory,
    /// The latency asked for does not fit a channel on this machine.
    LatencyTooLarge,
}

/// What a push leaves in a queue of samples with room for `cap`.
pub open spec fn after_push(q: Seq<u32>, cap: nat, s: u32) -> Seq<u32> {
    if q.len() < cap { q.push(s) } else { q }
}

/// What a pop leaves in a queue of samples.
pub open spec fn after_pop(q: Seq<u32>) -> Seq<u32> {
    if q.len() == 0 { q } else { q.drop_first() }
}

/// What a pop returns from a queue of samples.
pub open spec fn popped(q: Seq<u32>) -> Option<u32> {
    if q.len() == 0 { None } else { Some(q[0]) }
}

/// `n` silent samples.
pub open spec fn silence(n: nat) -> Seq<u32> {
    Seq::new(n, |i: int| EQUILIBRIUM)
}

/// One operation on a channel.
pub enum Op {
    Push(u32),
    Pop,
}

/// The samples pushed by a run of operations, in order.
pub open spec fn pushed_by(ops: Seq<Op>) -> Seq<u32>
    decreases ops.len(),
{
    if ops.len() == 0 {
        Seq::empty()
    } else {
        let head = match ops[0] {
            Op::Push(s) => seq![s],
            Op::Pop => Seq::empty(),
        };
        head + pushed_by(ops.drop_first())
    }
}

/// Runs `ops` on a queue `q` with room for `cap`: the queue left behind, and
/// the samples that the successful pops returned, in order.
pub open spec fn run(q: Seq<u32>, cap: nat, ops: Seq<Op>) -> (Seq<u32>, Seq<u32>)
    decreases ops.len(),
{
    if ops.len() == 0 {
        (q, Seq::empty())
    } else {
        match ops[0] {
            Op::Push(s) => run(after_push(q, cap, s), cap, ops.drop_first()),
            Op::Pop => {
                let rest = run(after_pop(q), cap, ops.drop_first());
                let out = match popped(q) {
                    Some(s) => seq![s],
                    None => Seq::empty(),
                };
                (rest.0, out + rest.1)
            },
        }
    }
}

/// Ordering within a run that never overfills: what the pops return followed
/// by what is left is exactly what was queued followed by what was pushed.
proof fn lemma_run_conserves(q: Seq<u32>, cap: nat, ops: Seq<Op>)
    requires
        q.len() + pushed_by(ops).len() <= cap,
    ensures
        run(q, cap, ops).1 + run(q, cap, ops).0 == q + pushed_by(ops),
    decreases ops.len(),
{
    if ops.len() > 0 {
        let rest = ops.drop_first();
        match ops[0] {
            Op::Push(s) => {
                assert(pushed_by(ops) == seq![s] + pushed_by(rest));
                lemma_run_conserves(q.push(s), cap, rest);
                assert(q.push(s) + pushed_by(rest) =~= q + pushed_by(ops));
            },
            Op::Pop => {
                assert(pushed_by(ops) =~= pushed_by(rest));
                lemma_run_conserves(after_pop(q), cap, rest);
                if q.len() > 0 {
                    let r = run(after_pop(q), cap, rest);
                    assert(seq![q[0]] + r.1 + r.0 =~= seq![q[0]] + (r.1 + r.0));
                    assert(seq![q[0]] + (q.drop_first() + pushed_by(rest)) =~= q + pushed_by(rest));
                } else {
                    assert(Seq::<u32>::empty() + run(q, cap, rest).1 =~= run(q, cap, rest).1);
                }
            },
        }
    } else {
        assert(q + Seq::<u32>::empty() =~= q);
        assert(Seq::<u32>::empty() + q =~= q);
    }
}

/// First in, first out: on a channel that starts empty, any run of pushes
/// and pops, interleaved in any way, that pushes no more samples than the
/// capacity returns from its pops exactly the first samples pushed, in the
/// order they were pushed, and leaves the rest queued.
pub proof fn lemma_fifo(cap: nat, ops: Seq<Op>)
    requires
        pushed_by(ops).len() <= cap,
    ensures
        run(Seq::empty(), cap, ops).1 == pushed_by(ops).take(run(Seq::empty(), cap, ops).1.len() as int),
        run(Seq::empty(), cap, ops).0 == pushed_by(ops).skip(run(Seq::empty(), cap, ops).1.len() as int),
{
    let e = Seq::<u32>::empty();
    lemma_run_conserves(e, cap, ops);
    let r = run(e, cap, ops);
    assert(e + pushed_by(ops) =~= pushed_by(ops));
    assert((r.1 + r.0).take(r.1.len() as int) =~= r.1);
    assert((r.1 + r.0).skip(r.1.len() as int) =~= r.0);
}

/// A fixed-capacity FIFO of samples, owned by one party until it is split.
pub struct SampleChannel {
    ring: SampleRing,
}

impl SampleChannel {
    /// The samples held, oldest first.
    pub closed spec fn items(&self) -> Seq<u32> {
        ring_items(self.ring)
    }

    /// The fixed capacity.
    pub closed spec fn cap(&self) -> nat {
        ring_capacity(self.ring)
    }

    /// The occupied count lies between zero and a positive capacity.
    pub open spec fn wf(&self) -> bool {
        0 < self.cap() && self.items().len() <= self.cap()
    }

    /// An empty channel with room for `capacity` samples. Fails with
    /// `ZeroCapacity` exactly when `capacity` is zero, and otherwise only when
    /// the storage cannot be allocated.
    pub fn new(capacity: usize) -> (r: Result<SampleChannel, SetupError>)
        ensures
            r == Err::<SampleChannel, SetupError>(SetupError::ZeroCapacity) <==> capacity == 0,
            r is Err ==> r == Err::<SampleChannel, SetupError>(SetupError::ZeroCapacity)
                || r == Err::<SampleChannel, SetupError>(SetupError::OutOfMemory),
            r matches Ok(c) ==> c.wf() && c.items() == Seq::<u32>::empty() && c.cap() == capacity as nat,
    {
        if capacity == 0 {
            return Err(SetupError::ZeroCapacity);
        }
        match ring_try_new(capacity) {
            Some(ring) => Ok(SampleChannel { ring }),
            None => Err(SetupError::OutOfMemory),
        }
    }

    /// Appends one sample. Fails with `Overflow`, changing nothing, exactly
    /// when the channel is full.
    pub fn push(&mut self, s: u32) -> (r: Result<(), Overflow>)
        requires
            old(self).wf(),
        ensures
            final(self).wf(),
            final(self).cap() == old(self).cap(),
            r is Ok <==> old(self).items().len() < old(self).cap(),
            final(self).items() == after_push(old(self).items(), old(self).cap(), s),
            old(self).items().len() == old(self).cap() ==> r is Err && final(self).items().len() == old(self).cap(),
    {
        match ring_push(&mut self.ring, s) {
            Ok(()) => Ok(()),
            Err(_) => Err(Overflow),
        }
    }

    /// Removes and returns the oldest sample; `None`, changing nothing,
    /// exactly when the channel is empty.
    pub fn pop(&mut self) -> (r: Option<u32>)
        requires
            old(self).wf(),
        ensures
            final(self).wf(),
            final(self).cap() == old(self).cap(),
            r == popped(old(self).items()),
            final(self).items() == after_pop(old(self).items()),
            old(self).items().len() == 0 ==> r is None && final(self).items().len() == 0,
    {
        ring_pop(&mut self.ring)
    }

    /// The occupied count.
    pub fn len(&self) -> (r: usize)
        ensures
            r as nat == self.items().len(),
    {
        ring_len(&self.ring)
    }

    /// Whether no sample is held.
    pub fn is_empty(&self) -> (r: bool)
        ensures
            r == (self.items().len() == 0),
    {
        ring_len(&self.ring) == 0
    }

    /// The fixed capacity.
    pub fn capacity(&self) -> (r: usize)
        ensures
            r as nat == self.cap(),
    {
        ring_capacity_of(&self.ring)
    }

    /// Pushes `count` silent samples, all of which fit.
    pub fn prime(&mut self, count: usize)
        requires
            old(self).wf(),
            old(self).items().len() + count <= old(self).cap(),
        ensures
            final(self).wf(),
            final(self).cap() == old(self).cap(),
            final(self).items() == old(self).items() + silence(count as nat),
    {
        let mut i: usize = 0;
        while i < count
            invariant
                self.wf(),
                self.cap() == old(self).cap(),
                i <= count,
                old(self).items().len() + count <= old(self).cap(),
                self.items() == old(self).items() + silence(i as nat),
            decreases count - i,
        {
            let _ = self.push(EQUILIBRIUM);
            assert(old(self).items() + silence((i + 1) as nat) =~= (old(self).items() + silence(i as nat)).push(EQUILIBRIUM));
            i = i + 1;
        }
    }

    /// Splits the channel into its one write endpoint and its one read
    /// endpoint, which keep the samples held.
    pub fn split(self) -> (r: (SampleProducer, SampleConsumer))
        ensures
            r.0.attempts() == Seq::<(u32, bool)>::empty(),
            r.1.outcomes() == Seq::<Option<u32>>::empty(),
    {
        let (p, c) = ring_split(self.ring);
        (SampleProducer::new(p), SampleConsumer::new(c))
    }
}

} // verus!
