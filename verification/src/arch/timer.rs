//! Time in ticks of the hardware timer.
use vstd::prelude::*;

verus! {

/// The number of ticks that `ms` milliseconds take on a timer that runs at
/// `freq` ticks a second. The frequency is cut down to whole ticks a
/// millisecond first.
pub open spec fn spec_ticks_from_ms(freq: usize, ms: usize) -> int {
    (freq as int / 1000) * ms
}

pub fn ticks_from_ms(freq: usize, ms: usize) -> (r: u128)
    ensures
        r == spec_ticks_from_ms(freq, ms),
{
    let per_ms: u128 = (freq / 1000) as u128;
    assert(per_ms * (ms as u128) <= 0xffff_ffff_ffff_ffff * 0xffff_ffff_ffff_ffff) by (nonlinear_arith)
        requires
            per_ms <= 0xffff_ffff_ffff_ffff,
            ms <= 0xffff_ffff_ffff_ffff,
    ;
    per_ms * (ms as u128)
}

} // verus!
