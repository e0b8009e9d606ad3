use panchat::{latency_samples, primed_channel, SetupError, EQUILIBRIUM};

#[test]
fn latency_samples_of_eleven_ms_stereo() {
    assert_eq!(latency_samples(11, 44100, 2), Some(970));
    assert_eq!(latency_samples(11, 48000, 1), Some(528));
}

#[test]
fn latency_samples_round_to_nearest_frame() {
    assert_eq!(latency_samples(1, 1500, 1), Some(2));
    assert_eq!(latency_samples(1, 1499, 1), Some(1));
    assert_eq!(latency_samples(1, 2500, 3), Some(9));
    assert_eq!(latency_samples(1, 499, 4), Some(0));
}

#[test]
fn latency_samples_zero_latency() {
    assert_eq!(latency_samples(0, 48000, 2), Some(0));
}

#[test]
fn latency_samples_too_large() {
    assert_eq!(latency_samples(u32::MAX, u32::MAX, u16::MAX), None);
}

#[test]
fn primed_channel_holds_silence_and_twice_the_room() {
    let mut c = primed_channel(11, 44100, 2).unwrap();
    assert_eq!(c.len(), 970);
    assert_eq!(c.capacity(), 1940);
    assert!(c.len() <= c.capacity() / 2);
    for _ in 0..970 {
        assert_eq!(c.pop(), Some(EQUILIBRIUM));
    }
    assert_eq!(c.pop(), None);
}

#[test]
fn primed_channel_zero_count_is_refused() {
    assert!(matches!(primed_channel(0, 48000, 2), Err(SetupError::ZeroCapacity)));
    assert!(matches!(primed_channel(11, 44100, 0), Err(SetupError::ZeroCapacity)));
}

#[test]
fn primed_channel_too_large_is_refused() {
    assert!(matches!(
        primed_channel(u32::MAX, u32::MAX, u16::MAX),
        Err(SetupError::LatencyTooLarge)
    ));
}

#[test]
fn silence_is_zero_as_a_float() {
    assert_eq!(f32::from_bits(EQUILIBRIUM), 0.0);
}
