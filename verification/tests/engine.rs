use chase_seq::{ChaseSeqBuilder, ChaseSeqError, Sample};

fn nanos_per_step(sample: &Sample) -> f64 {
    sample.elapsed_ns as f64 / sample.steps as f64
}

#[test]
fn test_chase_zero_samples_is_empty() {
    let chase_seq = ChaseSeqBuilder::default().size(64).unwrap().build();
    let samples = chase_seq.chase(0).unwrap();
    assert!(samples.is_empty());
}

#[test]
fn test_chase_sample_count_overflow_fails_fast() {
    let chase_seq = ChaseSeqBuilder::default().size(64).unwrap().build();
    let result = chase_seq.chase(usize::MAX);
    assert!(matches!(result, Err(ChaseSeqError::TestIterationsTooLarge)));
    let result = chase_seq.chase(usize::MAX / 8 + 1);
    assert!(matches!(result, Err(ChaseSeqError::TestIterationsTooLarge)));
}

#[test]
fn test_chase_end_slots_reproducible() {
    // Two engine instances with identical size, fence and seed settings walk
    // identical permutations, so both samples end at the same slot.
    let first = ChaseSeqBuilder::default()
        .size(4)
        .unwrap()
        .fence(false)
        .seed("reproducible run")
        .build();
    let second = ChaseSeqBuilder::default()
        .size(4)
        .unwrap()
        .fence(false)
        .seed("reproducible run")
        .build();
    let a = first.chase(1).unwrap();
    let b = second.chase(1).unwrap();
    assert_eq!(a.len(), 1);
    assert_eq!(a[0].end_slot, b[0].end_slot);
    assert_eq!(a[0].steps, b[0].steps);
}

#[test]
fn test_chase_fenced_sample() {
    let chase_seq = ChaseSeqBuilder::default()
        .size(4)
        .unwrap()
        .fence(true)
        .seed("fenced scenario")
        .build();
    let samples = chase_seq.chase(1).unwrap();
    assert_eq!(samples.len(), 1);
    assert_eq!(samples[0].steps, 707_106_781);
    assert!(nanos_per_step(&samples[0]).is_finite());
}

#[test]
fn test_chase_five_samples_four_kib() {
    // A 4 KiB buffer holds 4096 / 8 = 512 pointer-sized slots.
    let chase_seq = ChaseSeqBuilder::default()
        .size(4)
        .unwrap()
        .fence(false)
        .seed("four kib scenario")
        .build();
    let samples = chase_seq.chase(5).unwrap();
    assert_eq!(samples.len(), 5);
    for sample in &samples {
        assert_eq!(sample.steps, 707_106_781);
        assert!(sample.end_slot < 512);
        let latency = nanos_per_step(sample);
        assert!(latency.is_finite());
        assert!(latency >= 0.0);
    }
}
