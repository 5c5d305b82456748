//! Deterministic pseudo-random sampling.
//!
//! A small 64-bit mixing generator drives the anti-aliasing jitter and the
//! depth-of-field offsets.  Its whole behaviour is pinned by the contracts,
//! so a frame is a pure function of the renderer state and the seed: clones
//! of one generator yield independent, reproducible streams.

use vstd::prelude::*;
use vstd::arithmetic::mul::lemma_mul_upper_bound;

verus! {

/// The state after one advance step: the counter moves by a fixed odd stride,
/// wrapping modulo 2^64.
pub open spec fn spec_rng_advance(s: u64) -> u64 {
    ((s as int + 0x9E37_79B9_7F4A_7C15) % 0x1_0000_0000_0000_0000) as u64
}

/// The raw draw read out of a state: two xor-shift-multiply mixing rounds
/// and a final xor-shift.
pub open spec fn spec_rng_output(s: u64) -> u64 {
    let z1 = (((s ^ (s >> 30)) as int * 0xBF58_476D_1CE4_E5B9) % 0x1_0000_0000_0000_0000) as u64;
    let z2 = (((z1 ^ (z1 >> 27)) as int * 0x94D0_49BB_1331_11EB) % 0x1_0000_0000_0000_0000) as u64;
    z2 ^ (z2 >> 31)
}

/// The sample that `next_range` returns from a state, for a span of `[lo, hi)`.
pub open spec fn spec_rng_sample(s: u64, lo: int, hi: int) -> int {
    lo + spec_rng_output(spec_rng_advance(s)) as int % (hi - lo)
}

/// The sampling generator: a counter-based 64-bit mixer.
#[derive(Clone, Copy, Debug, PartialEq, Eq, Structural)]
pub struct SampleRng {
    pub state: u64,
}

fn wrap_add_u64(a: u64, b: u64) -> (r: u64)
    ensures
        r as int == (a as int + b as int) % 0x1_0000_0000_0000_0000,
{
    (((a as u128) + (b as u128)) % 0x1_0000_0000_0000_0000u128) as u64
}

fn wrap_mul_u64(a: u64, b: u64) -> (r: u64)
    ensures
        r as int == (a as int * b as int) % 0x1_0000_0000_0000_0000,
{
    proof {
        lemma_mul_upper_bound(
            a as int,
            0xFFFF_FFFF_FFFF_FFFF,
            b as int,
            0xFFFF_FFFF_FFFF_FFFF,
        );
    }
    (((a as u128) * (b as u128)) % 0x1_0000_0000_0000_0000u128) as u64
}

impl SampleRng {
    pub fn new(seed: u64) -> (r: Self)
        ensures
            r.state == seed,
    {
        SampleRng { state: seed }
    }

    /// Advance the state once and read the raw draw out of it.
    pub fn next_u64(&mut self) -> (r: u64)
        ensures
            final(self).state == spec_rng_advance(old(self).state),
            r == spec_rng_output(final(self).state),
    {
        self.state = wrap_add_u64(self.state, 0x9E37_79B9_7F4A_7C15);
        let z0: u64 = self.state;
        let z1: u64 = wrap_mul_u64(z0 ^ (z0 >> 30), 0xBF58_476D_1CE4_E5B9);
        let z2: u64 = wrap_mul_u64(z1 ^ (z1 >> 27), 0x94D0_49BB_1331_11EB);
        z2 ^ (z2 >> 31)
    }

    /// A sample in `[lo, hi)`, taken by reducing the next raw draw.
    pub fn next_range(&mut self, lo: i64, hi: i64) -> (r: i64)
        requires
            lo < hi,
            hi as int - lo as int <= 0x7FFF_FFFF_FFFF_FFFF,
        ensures
            final(self).state == spec_rng_advance(old(self).state),
            r as int == spec_rng_sample(old(self).state, lo as int, hi as int),
            lo <= r < hi,
    {
        let span: u64 = (hi - lo) as u64;
        let raw: u64 = self.next_u64();
        let off: u64 = raw % span;
        lo + (off as i64)
    }
}

} // verus!
