use chase_seq::scale_iterations;

#[test]
fn test_scale_iterations_miri() {
    assert_eq!(scale_iterations(123), 300_278_144);
}

#[test]
fn test_scale_iterations_exact_values() {
    // round(10 * 100_000_000 / size^(1/4))
    assert_eq!(scale_iterations(1), 1_000_000_000);
    assert_eq!(scale_iterations(2), 840_896_415);
    assert_eq!(scale_iterations(4), 707_106_781);
    assert_eq!(scale_iterations(64), 353_553_391);
    assert_eq!(scale_iterations(2048), 148_650_889);
    assert_eq!(scale_iterations(65536), 62_500_000);
}

#[test]
fn test_scale_iterations_non_increasing() {
    let mut previous = scale_iterations(1);
    for size in 2usize..300 {
        let current = scale_iterations(size);
        assert!(
            current <= previous,
            "steps per sample grew from {} to {} at size {}",
            previous,
            current,
            size
        );
        previous = current;
    }
    let mut size = 1usize;
    let mut at_power = scale_iterations(size);
    while size <= usize::MAX / 16 {
        let next = scale_iterations(size * 16);
        assert!(next <= at_power);
        at_power = next;
        size *= 16;
    }
    // 16^2 = 2^8, and 2^8^(1/4) = 4: a 256-fold size quarters the step count
    // exactly while 10 * ITER is divisible by the divisor.
    assert_eq!(scale_iterations(256), 250_000_000);
    assert_eq!(scale_iterations(65536), scale_iterations(256) / 4);
}
