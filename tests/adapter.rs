use panchat::{input_data_fn, output_data_fn, SampleChannel, SampleConsumer, HOLD_FACTOR};

fn bits(xs: &[f32]) -> Vec<u32> {
    xs.iter().map(|x| x.to_bits()).collect()
}

fn drain(c: &mut SampleConsumer) -> Vec<u32> {
    let mut out = Vec::new();
    while let Some(s) = c.pop() {
        out.push(s);
    }
    out
}

#[test]
fn end_to_end_primed_block_then_held_output() {
    let mut ch = SampleChannel::new(20).unwrap();
    ch.prime(5);
    let (mut p, mut c) = ch.split();
    let block = bits(&[1.0, 2.0, 3.0, 4.0, 5.0, 6.0]);
    assert!(!input_data_fn(&mut p, &block));

    let mut out = vec![7u32; 8];
    assert!(!output_data_fn(&mut c, &mut out, 2));
    assert_eq!(out, bits(&[0.0; 8]));

    let mut out = vec![7u32; 8];
    assert!(!output_data_fn(&mut c, &mut out, HOLD_FACTOR));
    assert_eq!(out, bits(&[0.0, 0.0, 1.0, 1.0, 2.0, 2.0, 3.0, 3.0]));

    assert_eq!(drain(&mut c), bits(&[4.0, 5.0, 6.0]));
}

#[test]
fn end_to_end_occupied_count_after_one_output_block() {
    let mut ch = SampleChannel::new(20).unwrap();
    ch.prime(5);
    let (mut p, mut c) = ch.split();
    assert!(!input_data_fn(&mut p, &bits(&[1.0, 2.0, 3.0, 4.0, 5.0, 6.0])));
    let mut out = vec![0u32; 8];
    assert!(!output_data_fn(&mut c, &mut out, 2));
    let rest = drain(&mut c);
    assert_eq!(rest.len(), 7);
    assert_eq!(rest, bits(&[0.0, 1.0, 2.0, 3.0, 4.0, 5.0, 6.0]));
}

#[test]
fn overflow_block_on_full_channel() {
    let mut ch = SampleChannel::new(4).unwrap();
    for s in [1u32, 2, 3, 4] {
        ch.push(s).unwrap();
    }
    let (mut p, mut c) = ch.split();
    assert!(input_data_fn(&mut p, &[7, 8, 9]));
    assert_eq!(drain(&mut c), vec![1, 2, 3, 4]);
}

#[test]
fn overflow_drops_only_what_does_not_fit() {
    let mut ch = SampleChannel::new(4).unwrap();
    ch.push(1).unwrap();
    let (mut p, mut c) = ch.split();
    assert!(input_data_fn(&mut p, &[2, 3, 4, 5, 6]));
    assert_eq!(drain(&mut c), vec![1, 2, 3, 4]);
}

#[test]
fn producer_push_reports_each_outcome() {
    let ch = SampleChannel::new(1).unwrap();
    let (mut p, mut c) = ch.split();
    assert!(p.push(3).is_ok());
    assert!(p.push(4).is_err());
    assert_eq!(c.pop(), Some(3));
    assert_eq!(c.pop(), None);
}

#[test]
fn underflow_block_on_empty_channel() {
    let ch = SampleChannel::new(4).unwrap();
    let (_p, mut c) = ch.split();
    let mut out = vec![5u32; 4];
    assert!(output_data_fn(&mut c, &mut out, 1));
    assert_eq!(out, vec![0, 0, 0, 0]);
}

#[test]
fn underflow_mid_block_fills_silence() {
    let mut ch = SampleChannel::new(4).unwrap();
    ch.push(9).unwrap();
    let (_p, mut c) = ch.split();
    let mut out = vec![5u32; 6];
    assert!(output_data_fn(&mut c, &mut out, 2));
    assert_eq!(out, vec![9, 9, 0, 0, 0, 0]);
}

#[test]
fn odd_block_length_pops_for_the_last_slot() {
    let mut ch = SampleChannel::new(4).unwrap();
    for s in [1u32, 2, 3, 4] {
        ch.push(s).unwrap();
    }
    let (_p, mut c) = ch.split();
    let mut out = vec![0u32; 5];
    assert!(!output_data_fn(&mut c, &mut out, 2));
    assert_eq!(out, vec![1, 1, 2, 2, 3]);
    assert_eq!(drain(&mut c), vec![4]);
}

#[test]
fn repeat_of_one_pops_every_slot() {
    let mut ch = SampleChannel::new(4).unwrap();
    for s in [1u32, 2, 3] {
        ch.push(s).unwrap();
    }
    let (_p, mut c) = ch.split();
    let mut out = vec![0u32; 3];
    assert!(!output_data_fn(&mut c, &mut out, 1));
    assert_eq!(out, vec![1, 2, 3]);
}

#[test]
fn empty_blocks_change_nothing() {
    let mut ch = SampleChannel::new(2).unwrap();
    ch.push(1).unwrap();
    let (mut p, mut c) = ch.split();
    assert!(!input_data_fn(&mut p, &[]));
    let mut out: Vec<u32> = Vec::new();
    assert!(!output_data_fn(&mut c, &mut out, 2));
    assert_eq!(drain(&mut c), vec![1]);
}
