//! The inter-packet interval: the wall-clock time a receiver needs to
//! consume one chunk's worth of samples at the nominal sample rate.

use vstd::prelude::*;

verus! {

/// Total nanoseconds a receiver takes to play `size` bytes of single-channel
/// samples of `bit_depth` bits each at `sample_rate` samples per second.
pub open spec fn pacing_total_nanos(sample_rate: int, bit_depth: int, size: int) -> int
    recommends
        sample_rate > 0,
        bit_depth >= 8,
        size >= 0,
{
    ((size / (bit_depth / 8)) * 1_000_000_000) / sample_rate
}

/// The interval between two datagram sends, split into whole seconds and a
/// nanosecond remainder below one second.
pub struct PacingInterval {
    pub secs: u64,
    pub nanos: u32,
}

impl PacingInterval {
    /// The nanosecond remainder never reaches a full second.
    pub open spec fn wf(self) -> bool {
        self.nanos < 1_000_000_000
    }

    /// The whole interval expressed in nanoseconds.
    pub open spec fn total_nanos(self) -> int {
        self.secs * 1_000_000_000 + self.nanos
    }
}

/// Compute the session-constant pacing interval for chunks of `size` bytes:
/// `size / (bit_depth / 8)` samples, played at `sample_rate` samples per
/// second, expressed as whole seconds plus a nanosecond remainder.
pub fn pacing(sample_rate: u32, bit_depth: u32, size: usize) -> (p: PacingInterval)
    requires
        sample_rate > 0,
        bit_depth >= 8,
    ensures
        p.wf(),
        p.total_nanos() == pacing_total_nanos(sample_rate as int, bit_depth as int, size as int),
{
    let bytes_per_sample = (bit_depth / 8) as usize;
    let samples = size / bytes_per_sample;
    let total: u128 = (samples as u128) * 1_000_000_000 / (sample_rate as u128);
    proof {
        assert((samples as u128) * 1_000_000_000 <= u128::MAX) by (nonlinear_arith)
            requires
                samples <= u64::MAX,
        ;
        vstd::arithmetic::div_mod::lemma_div_is_ordered_by_denominator(
            (samples as int) * 1_000_000_000,
            1,
            sample_rate as int,
        );
        assert(total <= samples as int * 1_000_000_000);
        vstd::arithmetic::div_mod::lemma_div_is_ordered(
            total as int,
            samples as int * 1_000_000_000,
            1_000_000_000,
        );
        vstd::arithmetic::div_mod::lemma_div_multiples_vanish(samples as int, 1_000_000_000);
        assert(total as int / 1_000_000_000 <= samples as int);
        vstd::arithmetic::div_mod::lemma_mod_bound(total as int, 1_000_000_000);
        vstd::arithmetic::div_mod::lemma_fundamental_div_mod(total as int, 1_000_000_000);
    }
    let secs = (total / 1_000_000_000) as u64;
    let nanos = (total % 1_000_000_000) as u32;
    PacingInterval { secs, nanos }
}

} // verus!
