//! A fixed-latency, single-producer / single-consumer buffer of audio samples
//! that bridges an input callback and an output callback.
//!
//! Samples travel as the bit patterns of `f32` values (`f32::to_bits`), so the
//! buffer passes them through unchanged; silence is the pattern of `0.0`.
mod adapter;
mod channel;
mod endpoint;
mod primer;
mod ring;

pub use adapter::{input_data_fn, output_data_fn, pops_for, slot_value, HOLD_FACTOR};
pub use channel::{
    after_pop, after_push, lemma_fifo, popped, pushed_by, run, silence, Op, Overflow,
    SampleChannel, SetupError, EQUILIBRIUM,
};
pub use primer::{latency_samples, max_primed, primed_channel, primed_count};
pub use endpoint::{SampleConsumer, SampleProducer};
