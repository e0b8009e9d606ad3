//! Priming: before streaming starts, the channel is filled with as many
//! silent samples as the target latency spans, and given room for twice that.
use crate::channel::{silence, SampleChannel, SetupError};
use vstd::prelude::*;

verus! {

/// The number of silent samples that a latency of `latency_ms` milliseconds
/// spans at `sample_rate` frames per second with `channels` interleaved
/// channels: the frame count `latency_ms / 1000 * sample_rate`, rounded to the
/// nearest integer (halves up), times the channel count.
pub open spec fn primed_count(latency_ms: nat, sample_rate: nat, channels: nat) -> nat {
    ((latency_ms * sample_rate + 500) / 1000) * channels
}

/// The largest primed count whose doubled capacity still fits a `usize`.
pub open spec fn max_primed() -> nat {
    (usize::MAX / 2) as nat
}

/// The primed count for a latency, or `None` when twice it would not fit a
/// `usize`.
pub fn latency_samples(latency_ms: u32, sample_rate: u32, channels: u16) -> (r: Option<usize>)
    ensures
        r is None <==> primed_count(latency_ms as nat, sample_rate as nat, channels as nat) > max_primed(),
        r matches Some(c) ==> c as nat == primed_count(latency_ms as nat, sample_rate as nat, channels as nat),
{
    let l = latency_ms as u128;
    let s = sample_rate as u128;
    let k = channels as u128;
    assert(l * s <= 0xFFFF_FFFF * 0xFFFF_FFFF) by (nonlinear_arith)
        requires l <= 0xFFFF_FFFF, s <= 0xFFFF_FFFF;
    let frames = (l * s + 500) / 1000;
    assert(frames * k <= 0xFFFF_FFFF_FFFF_FFFF * 0xFFFF) by (nonlinear_arith)
        requires frames <= 0xFFFF_FFFF_FFFF_FFFF, k <= 0xFFFF;
    let total = frames * k;
    if total > (usize::MAX / 2) as u128 {
        None
    } else {
        Some(total as usize)
    }
}

/// A channel primed for a latency: it holds exactly the primed count of
/// silent samples and has room for twice that many. Fails with
/// `LatencyTooLarge` exactly when that room would not fit a `usize`, with
/// `ZeroCapacity` exactly when the primed count is zero, and otherwise only
/// with `OutOfMemory`.
pub fn primed_channel(latency_ms: u32, sample_rate: u32, channels: u16) -> (r: Result<SampleChannel, SetupError>)
    ensures
        r == Err::<SampleChannel, SetupError>(SetupError::LatencyTooLarge)
            <==> primed_count(latency_ms as nat, sample_rate as nat, channels as nat) > max_primed(),
        r == Err::<SampleChannel, SetupError>(SetupError::ZeroCapacity)
            <==> primed_count(latency_ms as nat, sample_rate as nat, channels as nat) == 0,
        r is Err ==> r == Err::<SampleChannel, SetupError>(SetupError::LatencyTooLarge)
            || r == Err::<SampleChannel, SetupError>(SetupError::ZeroCapacity)
            || r == Err::<SampleChannel, SetupError>(SetupError::OutOfMemory),
        r matches Ok(c) ==> c.wf()
            && c.items() == silence(primed_count(latency_ms as nat, sample_rate as nat, channels as nat))
            && c.cap() == 2 * primed_count(latency_ms as nat, sample_rate as nat, channels as nat)
            && c.items().len() <= c.cap() / 2,
{
    let count = match latency_samples(latency_ms, sample_rate, channels) {
        Some(c) => c,
        None => return Err(SetupError::LatencyTooLarge),
    };
    let mut channel = match SampleChannel::new(2 * count) {
        Ok(c) => c,
        Err(e) => return Err(e),
    };
    channel.prime(count);
    assert(Seq::<u32>::empty() + silence(count as nat) =~= silence(count as nat));
    Ok(channel)
}

} // verus!
