//! A pointer-chasing memory-latency benchmark engine.
//!
//! The engine repeatedly follows pointers through a randomly permuted buffer
//! and times the dependent-load chain, yielding one latency estimate per
//! sample. Buffer size, fence mode and the random seed are validated and
//! normalized by [`ChaseSeq`] and [`ChaseSeqBuilder`]; the permutation is
//! produced by a seeded, rejection-sampled Fisher-Yates shuffle whose output
//! is a proven bijection on the slot range and a proven function of the seed
//! alone.
//!
//! The engine targets 64-bit platforms: one buffer slot is eight bytes wide.

mod builder;
mod clock;
mod errors;
mod scale;
mod shuffle;
mod stream;

use vstd::arithmetic::div_mod::{lemma_div_by_multiple, lemma_fundamental_div_mod};
use vstd::prelude::*;

pub use crate::builder::ChaseSeqBuilder;
pub use crate::errors::{ChaseSeqBuilderError, ChaseSeqError, CommonError};
pub use crate::scale::{
    fourth_root, is_fourth_root, lemma_scale_iterations_non_increasing, pow4, scale_iterations,
    spec_scale_iterations, ITER,
};
pub use crate::shuffle::{
    accepts, draw_value, first_accepted, identity_seq, identity_vec, is_first_accepted,
    is_permutation_of_range, lemma_first_accepted_unique, lemma_permutation_in_range,
    lemma_permutation_of_range_counts, lemma_sample_permutation_is_bijection,
    lemma_shuffle_preserves_permutation, lemma_swap_multiset, max_acceptable, sample_permutation,
    sample_stream_index, shuffle, shuffle_span, shuffled, step_partner, step_stream_index, swapped,
};
pub use crate::stream::{stream_word, WordStream};

use crate::clock::{clock_delta_ns, clock_new, clock_raw, observe, seq_cst_fence};

verus! {

/// Number of bytes in one KiB.
pub const KB: usize = 1024;

/// Number of bytes in one MiB.
pub const MB: usize = 1024 * 1024;

/// Width in bytes of one buffer slot (one pointer on the 64-bit platforms the
/// engine targets).
pub const PTR_SIZE: usize = 8;

/// Largest supported chase region, in bytes.
pub const MAX_REGION_SIZE: u64 = 4096 * 1024 * 1024;

/// One timed sample: the elapsed time, the number of dereference steps
/// performed, and the slot where the chase ended. The end slot is the
/// observed value that keeps the dependent-load chain alive; nanoseconds per
/// step is `elapsed_ns / steps`.
#[derive(Clone, Copy, Debug)]
pub struct Sample {
    /// Wall-clock nanoseconds the sample's dereference chain took.
    pub elapsed_ns: u64,
    /// Number of dereference steps the sample performed.
    pub steps: u64,
    /// The slot at which the chase ended.
    pub end_slot: usize,
}

/// The slot reached after `steps` dereferences starting at slot 0, following
/// `next = d[current]`.
pub open spec fn walk_spec(d: Seq<usize>, steps: nat) -> usize
    decreases steps,
{
    if steps == 0 {
        0usize
    } else {
        d[walk_spec(d, (steps - 1) as nat) as int]
    }
}

/// ChaseSeq provides pointer chasing benchmark functionality.
#[derive(Clone, Copy, Debug)]
pub struct ChaseSeq {
    size: usize,
    num_iter: usize,
    /// The seed string for the permutation stream.
    pub seed: &'static str,
    fence: bool,
}

impl ChaseSeq {
    /// Number of pointer-sized slots in the chase buffer.
    pub closed spec fn slot_count(&self) -> int {
        self.size as int
    }

    /// Number of dereference steps per timed sample.
    pub closed spec fn steps_per_sample(&self) -> int {
        self.num_iter as int
    }

    /// The seed string as a sequence of characters.
    pub closed spec fn seed_chars(&self) -> Seq<char> {
        self.seed@
    }

    /// Whether each dereference is followed by a sequential-consistency fence.
    pub closed spec fn fence_enabled(&self) -> bool {
        self.fence
    }

    /// The buffer size in KiB, as recovered from the slot count.
    pub open spec fn size_kib(&self) -> int {
        self.slot_count() * (PTR_SIZE as int) / (KB as int)
    }

    /// A valid configuration: the buffer is non-empty, its byte size fits the
    /// address space, and the step count is the scaling heuristic's value for
    /// the buffer size.
    pub open spec fn wf(&self) -> bool {
        &&& 1 <= self.slot_count()
        &&& 1 <= self.size_kib()
        &&& self.slot_count() * (PTR_SIZE as int) <= usize::MAX as int
        &&& self.steps_per_sample() == spec_scale_iterations(self.size_kib())
        &&& 1 <= self.steps_per_sample() <= 1_000_000_000
    }

    /// Set the size in KiB of memory region to chase.
    ///
    /// A zero size is rejected with `SizeIsZero`; a size whose byte count
    /// overflows the address space is rejected with `SizeTooLarge`. Nothing
    /// changes on failure.
    pub fn set_size(&mut self, size: usize) -> (r: Result<(), ChaseSeqError>)
        ensures
            match r {
                Ok(_) => {
                    &&& 1 <= size
                    &&& size as int * (KB as int) <= usize::MAX as int
                    &&& final(self).slot_count() == size as int * (KB as int) / (
                    PTR_SIZE as int)
                    &&& final(self).size_kib() == size
                    &&& final(self).steps_per_sample() == spec_scale_iterations(size as int)
                    &&& final(self).fence_enabled() == old(self).fence_enabled()
                    &&& final(self).seed_chars() == old(self).seed_chars()
                    &&& final(self).wf()
                },
                Err(e) => {
                    &&& *final(self) == *old(self)
                    &&& (size == 0 || size as int * (KB as int) > usize::MAX as int)
                    &&& e == (if size == 0 {
                        ChaseSeqError::CommonError(CommonError::SizeIsZero)
                    } else {
                        ChaseSeqError::CommonError(CommonError::SizeTooLarge)
                    })
                },
            },
    {
        if size == 0 {
            return Err(ChaseSeqError::CommonError(CommonError::SizeIsZero));
        }
        if size > usize::MAX / KB {
            proof {
                lemma_fundamental_div_mod(usize::MAX as int, KB as int);
            }
            return Err(ChaseSeqError::CommonError(CommonError::SizeTooLarge));
        }
        proof {
            lemma_fundamental_div_mod(usize::MAX as int, KB as int);
            lemma_div_by_multiple(size as int * 128, 8);
            lemma_div_by_multiple(size as int, KB as int);
        }
        self.size = size * KB / PTR_SIZE;
        self.num_iter = scale_iterations(size);
        Ok(())
    }

    /// Get the size in KiB of memory region to chase.
    pub fn size(&self) -> (r: usize)
        requires
            self.wf(),
        ensures
            r as int == self.size_kib(),
    {
        self.size * PTR_SIZE / KB
    }

    /// Set whether to use CPU fence on each pointer dereference.
    pub fn set_fence(&mut self, fence: bool)
        ensures
            final(self).fence_enabled() == fence,
            final(self).slot_count() == old(self).slot_count(),
            final(self).steps_per_sample() == old(self).steps_per_sample(),
            final(self).seed_chars() == old(self).seed_chars(),
            old(self).wf() ==> final(self).wf(),
    {
        self.fence = fence;
    }

    /// Set the seed for the random number generator; any string, the empty
    /// one included, is a valid deterministic choice.
    pub fn set_seed(&mut self, seed: &'static str)
        ensures
            final(self).seed_chars() == seed@,
            final(self).slot_count() == old(self).slot_count(),
            final(self).steps_per_sample() == old(self).steps_per_sample(),
            final(self).fence_enabled() == old(self).fence_enabled(),
            old(self).wf() ==> final(self).wf(),
    {
        self.seed = seed;
    }

    /// Get whether CPU fence is used on each pointer dereference.
    pub fn fence(&self) -> (r: bool)
        ensures
            r == self.fence_enabled(),
    {
        self.fence
    }

    /// Perform the pointer chasing benchmark: `test_iterations` independent
    /// samples, each over a freshly shuffled buffer.
    ///
    /// Fails with `TestIterationsTooLarge`, before any allocation, exactly
    /// when the result buffer's byte size would overflow the address space.
    /// On success the `k`-th sample performs `steps_per_sample` dereferences
    /// through the `k`-th seeded permutation — the stream advances across
    /// samples — and ends at the slot the permutation chain dictates, so the
    /// whole run is reproducible from the seed.
    pub fn chase(&self, test_iterations: usize) -> (r: Result<Vec<Sample>, ChaseSeqError>)
        requires
            self.wf(),
        ensures
            match r {
                Ok(samples) => {
                    &&& test_iterations as int * 8 <= usize::MAX as int
                    &&& samples@.len() == test_iterations
                    &&& forall|k: int|
                        0 <= k < samples@.len() ==> (#[trigger] samples@[k]).steps
                            == self.steps_per_sample()
                    &&& forall|k: int|
                        0 <= k < samples@.len() ==> (#[trigger] samples@[k]).end_slot
                            == walk_spec(
                            sample_permutation(self.seed_chars(), self.slot_count() as nat, k as nat),
                            self.steps_per_sample() as nat,
                        )
                    &&& forall|k: int|
                        0 <= k < samples@.len() ==> (#[trigger] samples@[k]).end_slot
                            < self.slot_count()
                },
                Err(e) => {
                    &&& e == ChaseSeqError::TestIterationsTooLarge
                    &&& test_iterations as int * 8 > usize::MAX as int
                },
            },
    {
        if test_iterations > usize::MAX / 8 {
            proof {
                lemma_fundamental_div_mod(usize::MAX as int, 8);
            }
            return Err(ChaseSeqError::TestIterationsTooLarge);
        }
        proof {
            lemma_fundamental_div_mod(usize::MAX as int, 8);
        }
        let ghost n = self.slot_count() as nat;
        let mut results: Vec<Sample> = Vec::new();
        let mut stream = WordStream::new(self.seed);
        let clock = clock_new();
        let mut k: usize = 0;
        while k < test_iterations
            invariant
                self.wf(),
                k <= test_iterations,
                results@.len() == k,
                n == self.slot_count() as nat,
                stream.spec_seed() == self.seed_chars(),
                stream.spec_idx() == sample_stream_index(self.seed_chars(), n, k as nat),
                forall|j: int|
                    0 <= j < k ==> (#[trigger] results@[j]).steps == self.steps_per_sample(),
                forall|j: int|
                    0 <= j < k ==> (#[trigger] results@[j]).end_slot == walk_spec(
                        sample_permutation(self.seed_chars(), n, j as nat),
                        self.steps_per_sample() as nat,
                    ),
                forall|j: int| 0 <= j < k ==> (#[trigger] results@[j]).end_slot < n,
            decreases test_iterations - k,
        {
            let mut data = identity_vec(self.size);
            shuffle(&mut data, &mut stream);
            proof {
                assert(data@ == sample_permutation(self.seed_chars(), n, k as nat));
                assert(stream.spec_idx() == sample_stream_index(self.seed_chars(), n, k as nat + 1));
                assert(is_permutation_of_range(data@)) by {
                    assert(identity_seq(n).to_multiset() == data@.to_multiset());
                    assert(data@.len() == n);
                }
                lemma_permutation_in_range(data@);
            }
            let sample = if self.fence {
                self.chase_once_fenced(&data, &clock)
            } else {
                self.chase_once(&data, &clock)
            };
            results.push(sample);
            k = k + 1;
        }
        Ok(results)
    }

    /// One timed sample with a fence after every dereference, suppressing
    /// memory-level parallelism so a single load's latency is measured.
    #[inline(always)]
    fn chase_once_fenced(&self, data: &Vec<usize>, clock: &quanta::Clock) -> (r: Sample)
        requires
            self.wf(),
            data@.len() == self.slot_count(),
            forall|i: int| 0 <= i < data@.len() ==> (#[trigger] data@[i]) < data@.len(),
        ensures
            r.steps == self.steps_per_sample(),
            r.end_slot == walk_spec(data@, self.steps_per_sample() as nat),
            r.end_slot < data@.len(),
    {
        let start = clock_raw(clock);
        let mut p: usize = 0;
        let mut i: usize = 0;
        while i < self.num_iter
            invariant
                self.wf(),
                i <= self.num_iter,
                data@.len() == self.slot_count(),
                forall|j: int| 0 <= j < data@.len() ==> (#[trigger] data@[j]) < data@.len(),
                p == walk_spec(data@, i as nat),
                p < data@.len(),
            decreases self.num_iter - i,
        {
            p = data[p];
            seq_cst_fence();
            i = i + 1;
        }
        let last = observe(p);
        let end = clock_raw(clock);
        Sample { elapsed_ns: clock_delta_ns(clock, start, end), steps: self.num_iter as u64, end_slot: last }
    }

    /// One timed sample with plain loads, letting the CPU overlap and
    /// prefetch as it naturally would.
    #[inline(always)]
    fn chase_once(&self, data: &Vec<usize>, clock: &quanta::Clock) -> (r: Sample)
        requires
            self.wf(),
            data@.len() == self.slot_count(),
            forall|i: int| 0 <= i < data@.len() ==> (#[trigger] data@[i]) < data@.len(),
        ensures
            r.steps == self.steps_per_sample(),
            r.end_slot == walk_spec(data@, self.steps_per_sample() as nat),
            r.end_slot < data@.len(),
    {
        let start = clock_raw(clock);
        let mut p: usize = 0;
        let mut i: usize = 0;
        while i < self.num_iter
            invariant
                self.wf(),
                i <= self.num_iter,
                data@.len() == self.slot_count(),
                forall|j: int| 0 <= j < data@.len() ==> (#[trigger] data@[j]) < data@.len(),
                p == walk_spec(data@, i as nat),
                p < data@.len(),
            decreases self.num_iter - i,
        {
            p = data[p];
            i = i + 1;
        }
        let last = observe(p);
        let end = clock_raw(clock);
        Sample { elapsed_ns: clock_delta_ns(clock, start, end), steps: self.num_iter as u64, end_slot: last }
    }
}

impl Default for ChaseSeq {
    /// Create a default `ChaseSeq`: a 2 KiB buffer, fencing enabled, and a
    /// fixed default seed.
    fn default() -> (r: Self)
        ensures
            r.wf(),
            r.size_kib() == 2,
            r.slot_count() == 256,
            r.fence_enabled(),
            r.seed_chars() == "chase_seq_benchmark"@,
            r.steps_per_sample() == spec_scale_iterations(2),
    {
        let num_iter = scale_iterations(2);
        ChaseSeq { size: 2 * KB / PTR_SIZE, num_iter, seed: "chase_seq_benchmark", fence: true }
    }
}

} // verus!
