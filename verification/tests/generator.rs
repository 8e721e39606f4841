use chase_seq::{identity_vec, shuffle, WordStream};
use rand_core::Rng;

/// One freshly seeded permutation of `[0, n)`.
fn permutation(seed: &str, n: usize) -> Vec<usize> {
    let mut stream = WordStream::new(seed);
    let mut data = identity_vec(n);
    shuffle(&mut data, &mut stream);
    data
}

/// The documented shuffle, written directly against the random crates: a
/// Fisher-Yates walk from the top, with rejection sampling against the
/// greatest word multiple of the partner range, and the fixed swap with slot
/// 0 at position 1.
fn reference_permutation(seed: &str, n: usize) -> Vec<usize> {
    let mut rng: rand_xoshiro::Xoshiro256PlusPlus = rand_seeder::Seeder::from(seed).into_rng();
    let mut data: Vec<usize> = (0..n).collect();
    let mut pos = n.saturating_sub(1);
    while pos >= 1 {
        let j = if pos == 1 {
            0
        } else {
            let bound = (pos + 1) as u64;
            let max_acceptable = u64::MAX - u64::MAX % bound;
            let mut x = rng.next_u64();
            while x >= max_acceptable {
                x = rng.next_u64();
            }
            (x % bound) as usize
        };
        data.swap(pos, j);
        pos -= 1;
    }
    data
}

#[test]
fn test_permutation_is_bijection() {
    for n in [1usize, 2, 3, 5, 8, 64, 257, 1024] {
        let perm = permutation("bijection", n);
        assert_eq!(perm.len(), n);
        let mut sorted = perm.clone();
        sorted.sort();
        let identity: Vec<usize> = (0..n).collect();
        assert_eq!(sorted, identity, "every value in [0, {}) must appear exactly once", n);
    }
}

#[test]
fn test_empty_and_single_slot_buffers() {
    assert_eq!(permutation("edge", 0), Vec::<usize>::new());
    assert_eq!(permutation("edge", 1), vec![0]);
    assert_eq!(identity_vec(5), vec![0, 1, 2, 3, 4]);
}

#[test]
fn test_same_seed_same_permutation() {
    for n in [2usize, 17, 256] {
        assert_eq!(permutation("fixed seed", n), permutation("fixed seed", n));
    }
    assert_eq!(permutation("", 64), permutation("", 64));
}

#[test]
fn test_different_seed_different_permutation() {
    assert_ne!(permutation("seed a", 256), permutation("seed b", 256));
}

#[test]
fn test_matches_documented_shuffle() {
    for n in [0usize, 1, 2, 3, 9, 64, 300] {
        assert_eq!(permutation("cross-check", n), reference_permutation("cross-check", n));
        assert_eq!(permutation("", n), reference_permutation("", n));
    }
}

#[test]
fn test_permutation_sequences_reproducible() {
    // Two independent streams with one seed yield the same sequence of
    // permutations: the stream advances across samples instead of resetting,
    // so later samples differ from the first but still reproduce exactly.
    let mut stream1 = WordStream::new("sequence");
    let mut stream2 = WordStream::new("sequence");
    let mut first: Option<Vec<usize>> = None;
    for _ in 0..4 {
        let mut data1 = identity_vec(128);
        let mut data2 = identity_vec(128);
        shuffle(&mut data1, &mut stream1);
        shuffle(&mut data2, &mut stream2);
        assert_eq!(data1, data2);
        if let Some(ref f) = first {
            assert_ne!(*f, data1, "the stream must advance across samples");
        } else {
            first = Some(data1);
        }
    }
}

#[test]
fn test_slot_occupant_roughly_uniform() {
    // Over many seeds, the occupant of any slot at position 2 or higher is
    // uniformly distributed: each of the 8 values should land in slot 5 in
    // roughly 100 of 800 trials, with no residual modulo bias. Slots 0 and 1
    // are the exception by construction: the fixed swap with slot 0 at
    // position 1 — preserved for seed reproducibility — skews them, and in
    // particular value 0 can never stay in slot 0, so the chase never starts
    // on a fixed point.
    let trials = 800usize;
    let n = 8usize;
    let mut counts = [0usize; 8];
    for t in 0..trials {
        let seed = format!("uniformity trial {}", t);
        let perm = permutation(&seed, n);
        counts[perm[5]] += 1;
        assert_ne!(perm[0], 0, "slot 0 never keeps value 0");
    }
    for (value, &count) in counts.iter().enumerate() {
        assert!(
            (50..=200).contains(&count),
            "slot 5 held {} in {} of {} trials",
            value,
            count,
            trials
        );
    }
}
