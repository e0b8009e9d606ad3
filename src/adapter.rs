//! The bodies of the two audio callbacks: the input side pushes each captured
//! sample, the output side fills its block by popping one sample every
//! `repeat` slots and holding it across them.
use crate::channel::EQUILIBRIUM;
use crate::endpoint::{SampleConsumer, SampleProducer};
use vstd::arithmetic::div_mod::{lemma_div_is_ordered, lemma_fundamental_div_mod, lemma_fundamental_div_mod_converse};
use vstd::prelude::*;

verus! {

/// The hold factor of the output side: each popped sample fills this many
/// output slots.
pub const HOLD_FACTOR: usize = 2;

/// How many pops fill `n` output slots when each popped sample is held for
/// `repeat` slots.
pub open spec fn pops_for(n: int, repeat: int) -> int {
    (n + repeat - 1) / repeat
}

/// The value written for a pop outcome: the sample, or silence.
pub open spec fn slot_value(o: Option<u32>) -> u32 {
    match o {
        Some(s) => s,
        None => EQUILIBRIUM,
    }
}

/// Pushes every sample of `data`, in order, and tells whether any was
/// dropped because the channel was full.
pub fn input_data_fn(producer: &mut SampleProducer, data: &[u32]) -> (fell_behind: bool)
    ensures
        final(producer).attempts().len() == old(producer).attempts().len() + data@.len(),
        final(producer).attempts().take(old(producer).attempts().len() as int) == old(producer).attempts(),
        forall|i: int| 0 <= i < data@.len() ==>
            (#[trigger] final(producer).attempts()[old(producer).attempts().len() + i]).0 == data@[i],
        fell_behind == exists|i: int| 0 <= i < data@.len()
            && !(#[trigger] final(producer).attempts()[old(producer).attempts().len() + i]).1,
{
    let ghost k = old(producer).attempts().len();
    let mut fell_behind = false;
    let mut i: usize = 0;
    while i < data.len()
        invariant
            i <= data@.len(),
            producer.attempts().len() == k + i,
            producer.attempts().take(k as int) == old(producer).attempts(),
            forall|j: int| 0 <= j < i ==> (#[trigger] producer.attempts()[k + j]).0 == data@[j],
            fell_behind == exists|j: int| 0 <= j < i && !(#[trigger] producer.attempts()[k + j]).1,
        decreases data@.len() - i,
    {
        let ghost before = producer.attempts();
        let r = producer.push(data[i]);
        assert(producer.attempts().take(k as int) =~= before.take(k as int));
        assert(producer.attempts()[k + i] == (data@[i as int], r is Ok));
        if r.is_err() {
            fell_behind = true;
        }
        assert forall|j: int| 0 <= j < i + 1 implies (#[trigger] producer.attempts()[k + j]).0 == data@[j] by {
            if j < i {
                assert(producer.attempts()[k + j] == before[k + j]);
            }
        }
        assert(fell_behind == exists|j: int| 0 <= j < i + 1 && !(#[trigger] producer.attempts()[k + j]).1) by {
            if fell_behind && !r.is_err() {
                let j = choose|j: int| 0 <= j < i && !(#[trigger] before[k + j]).1;
                assert(producer.attempts()[k + j] == before[k + j]);
            }
            if !fell_behind {
                assert forall|j: int| 0 <= j < i + 1 implies (#[trigger] producer.attempts()[k + j]).1 by {
                    if j < i {
                        assert(producer.attempts()[k + j] == before[k + j]);
                    }
                }
            }
        }
        i = i + 1;
    }
    fell_behind
}

/// Stepping the slot index by one: a slot at a multiple of `repeat` starts a
/// new hold, any other slot continues the current one.
proof fn lemma_hold_step(i: int, repeat: int)
    requires
        0 <= i,
        0 < repeat,
    ensures
        i % repeat == 0 ==> pops_for(i + 1, repeat) == pops_for(i, repeat) + 1 && i / repeat == pops_for(i, repeat),
        i % repeat != 0 ==> pops_for(i + 1, repeat) == pops_for(i, repeat) && i / repeat == pops_for(i, repeat) - 1,
{
    lemma_fundamental_div_mod(i, repeat);
    let q = i / repeat;
    let m = i % repeat;
    assert(repeat * q == q * repeat) by (nonlinear_arith);
    assert((q + 1) * repeat == q * repeat + repeat) by (nonlinear_arith);
    if m == 0 {
        lemma_fundamental_div_mod_converse(i + repeat - 1, repeat, q, repeat - 1);
        lemma_fundamental_div_mod_converse(i + repeat, repeat, q + 1, 0);
    } else {
        lemma_fundamental_div_mod_converse(i + repeat - 1, repeat, q + 1, m - 1);
        lemma_fundamental_div_mod_converse(i + repeat, repeat, q + 1, m);
    }
}

/// A slot before `i` is filled by one of the pops made for the first `i`
/// slots.
proof fn lemma_slot_in_range(j: int, i: int, repeat: int)
    requires
        0 <= j < i,
        0 < repeat,
    ensures
        0 <= j / repeat < pops_for(i, repeat),
{
    lemma_fundamental_div_mod(j, repeat);
    let q = j / repeat;
    lemma_fundamental_div_mod_converse((q + 1) * repeat, repeat, q + 1, 0);
    assert((q + 1) * repeat == q * repeat + repeat) by (nonlinear_arith);
    assert(repeat * q == q * repeat) by (nonlinear_arith);
    lemma_div_is_ordered((q + 1) * repeat, i + repeat - 1, repeat);
    assert(q >= 0) by (nonlinear_arith)
        requires j == repeat * q + j % repeat, 0 <= j % repeat < repeat, 0 <= j, 0 < repeat;
}

/// Fills every slot of `data`: pops once at each slot whose index is a
/// multiple of `repeat` and writes what it got to that slot and the
/// `repeat - 1` slots after it, or silence where the pop found the channel
/// empty. Tells whether any pop found it empty.
pub fn output_data_fn(consumer: &mut SampleConsumer, data: &mut [u32], repeat: usize) -> (fell_behind: bool)
    requires
        repeat > 0,
    ensures
        final(data)@.len() == old(data)@.len(),
        final(consumer).outcomes().len() == old(consumer).outcomes().len() + pops_for(old(data)@.len() as int, repeat as int),
        final(consumer).outcomes().take(old(consumer).outcomes().len() as int) == old(consumer).outcomes(),
        forall|i: int| 0 <= i < final(data)@.len() ==>
            #[trigger] final(data)@[i] == slot_value(final(consumer).outcomes()[old(consumer).outcomes().len() + i / (repeat as int)]),
        fell_behind == exists|j: int| 0 <= j < pops_for(old(data)@.len() as int, repeat as int)
            && (#[trigger] final(consumer).outcomes()[old(consumer).outcomes().len() + j]) is None,
{
    let ghost k = old(consumer).outcomes().len();
    let ghost r = repeat as int;
    let n = data.len();
    let mut fell_behind = false;
    let mut current: Option<u32> = None;
    let mut i: usize = 0;
    proof {
        lemma_fundamental_div_mod_converse(r - 1, r, 0, r - 1);
    }
    while i < n
        invariant
            i <= n,
            n == data@.len(),
            n == old(data)@.len(),
            r == repeat as int,
            r > 0,
            consumer.outcomes().len() == k + pops_for(i as int, r),
            consumer.outcomes().take(k as int) == old(consumer).outcomes(),
            i > 0 ==> current == consumer.outcomes()[k + pops_for(i as int, r) - 1],
            forall|j: int| 0 <= j < i ==> #[trigger] data@[j] == slot_value(consumer.outcomes()[k + j / r]),
            fell_behind == exists|j: int| 0 <= j < pops_for(i as int, r)
                && (#[trigger] consumer.outcomes()[k + j]) is None,
        decreases n - i,
    {
        proof {
            lemma_hold_step(i as int, r);
        }
        let ghost before = consumer.outcomes();
        if i % repeat == 0 {
            current = consumer.pop();
            assert(consumer.outcomes().take(k as int) =~= before.take(k as int));
            if current.is_none() {
                fell_behind = true;
            }
            assert(fell_behind == exists|j: int| 0 <= j < pops_for(i as int + 1, r)
                && (#[trigger] consumer.outcomes()[k + j]) is None) by {
                let p = pops_for(i as int, r);
                assert(k + p == before.len());
                if current.is_none() {
                    assert(consumer.outcomes()[k + p] is None);
                }
                if fell_behind && current.is_some() {
                    let j = choose|j: int| 0 <= j < p && (#[trigger] before[k + j]) is None;
                    assert(consumer.outcomes()[k + j] == before[k + j]);
                }
                if !fell_behind {
                    assert forall|j: int| 0 <= j < p + 1 implies !((#[trigger] consumer.outcomes()[k + j]) is None) by {
                        if j < p {
                            assert(consumer.outcomes()[k + j] == before[k + j]);
                        }
                    }
                }
            }
        }
        let v = match current {
            Some(s) => s,
            None => EQUILIBRIUM,
        };
        let ghost data_before = data@;
        data[i] = v;
        assert forall|j: int| 0 <= j < i + 1 implies #[trigger] data@[j] == slot_value(consumer.outcomes()[k + j / r]) by {
            if j < i {
                assert(data@[j] == data_before[j]);
                lemma_slot_in_range(j, i as int, r);
                assert(consumer.outcomes()[k + j / r] == before[k + j / r]);
            }
        }
        i = i + 1;
    }
    fell_behind
}

} // verus!
