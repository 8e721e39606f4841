//! Trusted primitives of the timed chase loop: the monotonic clock, the
//! sequential-consistency fence, and the observe-this-value sink that keeps
//! the dependent-load chain alive.

use vstd::prelude::*;

verus! {

/// Declares `quanta::Clock`, the monotonic clock handle, as an opaque outside
/// type.
#[verifier::external_type_specification]
#[verifier::external_body]
pub struct ExClock(quanta::Clock);

/// Relies on `quanta::Clock::new`: builds a calibrated handle to the fastest
/// monotonic clock source available.
#[verifier::external_body]
pub(crate) fn clock_new() -> quanta::Clock {
    quanta::Clock::new()
}

/// Relies on `quanta::Clock::raw`: reads the raw counter. The reading depends
/// on the moment of the call, so nothing is promised of the value.
#[verifier::external_body]
pub(crate) fn clock_raw(clock: &quanta::Clock) -> u64 {
    clock.raw()
}

/// Relies on `quanta::Clock::delta_as_nanos`: scales the span between two raw
/// readings to nanoseconds; its source returns zero whenever `end <= start`.
#[verifier::external_body]
pub(crate) fn clock_delta_ns(clock: &quanta::Clock, start: u64, end: u64) -> (r: u64)
    ensures
        end <= start ==> r == 0,
{
    clock.delta_as_nanos(start, end)
}

/// Relies on `std::sync::atomic::fence`: a sequential-consistency memory
/// fence; it returns nothing and changes no value.
#[verifier::external_body]
pub(crate) fn seq_cst_fence() {
    std::sync::atomic::fence(std::sync::atomic::Ordering::SeqCst);
}

/// Relies on `std::hint::black_box`: returns its argument unchanged while
/// keeping the optimizer from discarding the computation that produced it.
#[verifier::external_body]
pub(crate) fn observe(value: usize) -> (r: usize)
    ensures
        r == value,
{
    std::hint::black_box(value)
}

} // verus!
