//! Builder for [`ChaseSeq`].

use vstd::prelude::*;

use crate::errors::{ChaseSeqBuilderError, ChaseSeqError, CommonError};
use crate::scale::spec_scale_iterations;
use crate::ChaseSeq;

verus! {

/// Builder for `ChaseSeq`.
#[derive(Clone, Copy, Debug)]
pub struct ChaseSeqBuilder(ChaseSeq);

impl ChaseSeqBuilder {
    /// The configuration built so far.
    pub closed spec fn config(&self) -> ChaseSeq {
        self.0
    }

    /// Set the size in KiB of memory region to chase.
    ///
    /// A zero size is rejected with `SizeIsZero`; a size whose byte count
    /// overflows the address space is rejected with `SizeTooLarge`.
    pub fn size(self, size: usize) -> (r: Result<Self, ChaseSeqBuilderError>)
        ensures
            match r {
                Ok(b) => {
                    &&& 1 <= size
                    &&& size as int * (crate::KB as int) <= usize::MAX as int
                    &&& b.config().size_kib() == size
                    &&& b.config().steps_per_sample() == spec_scale_iterations(size as int)
                    &&& b.config().fence_enabled() == self.config().fence_enabled()
                    &&& b.config().seed_chars() == self.config().seed_chars()
                    &&& b.config().wf()
                },
                Err(e) => {
                    &&& (size == 0 || size as int * (crate::KB as int) > usize::MAX as int)
                    &&& e == (if size == 0 {
                        ChaseSeqBuilderError::CommonError(CommonError::SizeIsZero)
                    } else {
                        ChaseSeqBuilderError::CommonError(CommonError::SizeTooLarge)
                    })
                },
            },
    {
        let mut inner = self.0;
        match inner.set_size(size) {
            Ok(_) => Ok(ChaseSeqBuilder(inner)),
            Err(ChaseSeqError::CommonError(c)) => Err(ChaseSeqBuilderError::CommonError(c)),
            Err(ChaseSeqError::TestIterationsTooLarge) => {
                proof {
                    assert(false);
                }
                Err(ChaseSeqBuilderError::CommonError(CommonError::SizeIsZero))
            },
        }
    }

    /// Set whether to use CPU fence on each pointer dereference.
    pub fn fence(self, fence: bool) -> (r: Self)
        ensures
            r.config().fence_enabled() == fence,
            r.config().slot_count() == self.config().slot_count(),
            r.config().steps_per_sample() == self.config().steps_per_sample(),
            r.config().seed_chars() == self.config().seed_chars(),
            self.config().wf() ==> r.config().wf(),
    {
        let mut inner = self.0;
        inner.set_fence(fence);
        ChaseSeqBuilder(inner)
    }

    /// Set the seed for random number generator.
    pub fn seed(self, seed: &'static str) -> (r: Self)
        ensures
            r.config().seed_chars() == seed@,
            r.config().slot_count() == self.config().slot_count(),
            r.config().steps_per_sample() == self.config().steps_per_sample(),
            r.config().fence_enabled() == self.config().fence_enabled(),
            self.config().wf() ==> r.config().wf(),
    {
        let mut inner = self.0;
        inner.set_seed(seed);
        ChaseSeqBuilder(inner)
    }

    /// Build the `ChaseSeq`.
    pub fn build(self) -> (r: ChaseSeq)
        ensures
            r == self.config(),
    {
        self.0
    }
}

impl Default for ChaseSeqBuilder {
    /// A builder holding the default configuration: a 2 KiB buffer, fencing
    /// enabled, and the fixed default seed.
    fn default() -> (r: Self)
        ensures
            r.config().wf(),
            r.config().size_kib() == 2,
            r.config().fence_enabled(),
            r.config().seed_chars() == "chase_seq_benchmark"@,
            r.config().steps_per_sample() == spec_scale_iterations(2),
    {
        ChaseSeqBuilder(ChaseSeq::default())
    }
}

} // verus!
