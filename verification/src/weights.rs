//! The weights of runtime calls: how much computation time and proof size
//! a call is charged with.
//!
//! A weight is a pair of amounts. Weights add up and scale with saturation:
//! an amount that would pass the largest `u64` stays there. The weight of a
//! call is made of a base amount, an amount for each unit of its component,
//! and the weights of the database reads and writes that it makes, which
//! the runtime sets.

use vstd::prelude::*;

pub mod pallet_membership;
pub mod pallet_xcm_benchmarks_generic;
pub mod runtime_parachains_disputes_slashing;

verus! {

/// An amount, kept within `u64`: what is more than the largest `u64` is
/// that.
pub open spec fn clamp(x: int) -> u64 {
    if x > u64::MAX {
        u64::MAX
    } else if x < 0 {
        0
    } else {
        x as u64
    }
}

/// The product of two amounts, kept within `u64`.
pub fn saturating_mul(a: u64, b: u64) -> (r: u64)
    ensures
        r == clamp(a * b),
{
    match a.checked_mul(b) {
        Some(product) => product,
        None => u64::MAX,
    }
}

/// What a call is charged with.
#[derive(Clone, Copy, PartialEq, Eq, Debug)]
pub struct Weight {
    /// The computation time, in picoseconds on the reference hardware.
    pub ref_time: u64,
    /// The size of the storage proof, in bytes.
    pub proof_size: u64,
}

impl Weight {
    /// The sum of two weights, each amount kept within `u64`.
    pub open spec fn spec_saturating_add(self, rhs: Weight) -> Weight {
        Weight {
            ref_time: clamp(self.ref_time + rhs.ref_time),
            proof_size: clamp(self.proof_size + rhs.proof_size),
        }
    }

    /// The weight taken `scalar` times, each amount kept within `u64`.
    pub open spec fn spec_saturating_mul(self, scalar: u64) -> Weight {
        Weight {
            ref_time: clamp(self.ref_time * scalar),
            proof_size: clamp(self.proof_size * scalar),
        }
    }

    /// A weight of the two amounts.
    pub fn from_parts(ref_time: u64, proof_size: u64) -> (w: Weight)
        ensures
            w == (Weight { ref_time, proof_size }),
    {
        Weight { ref_time, proof_size }
    }

    /// A weight of computation time alone.
    pub fn from_ref_time(ref_time: u64) -> (w: Weight)
        ensures
            w == (Weight { ref_time, proof_size: 0 }),
    {
        Weight { ref_time, proof_size: 0 }
    }

    /// A weight of proof size alone.
    pub fn from_proof_size(proof_size: u64) -> (w: Weight)
        ensures
            w == (Weight { ref_time: 0, proof_size }),
    {
        Weight { ref_time: 0, proof_size }
    }

    /// The sum of two weights, saturating in each amount.
    pub fn saturating_add(self, rhs: Weight) -> (w: Weight)
        ensures
            w == self.spec_saturating_add(rhs),
    {
        Weight {
            ref_time: self.ref_time.saturating_add(rhs.ref_time),
            proof_size: self.proof_size.saturating_add(rhs.proof_size),
        }
    }

    /// The weight taken `scalar` times, saturating in each amount.
    pub fn saturating_mul(self, scalar: u64) -> (w: Weight)
        ensures
            w == self.spec_saturating_mul(scalar),
    {
        Weight {
            ref_time: self::saturating_mul(self.ref_time, scalar),
            proof_size: self::saturating_mul(self.proof_size, scalar),
        }
    }
}

/// What the runtime charges for one read and for one write of the
/// database, in computation time.
#[derive(Clone, Copy, PartialEq, Eq, Debug)]
pub struct RuntimeDbWeight {
    /// The computation time of one read.
    pub read: u64,
    /// The computation time of one write.
    pub write: u64,
}

impl RuntimeDbWeight {
    /// The weight of `r` reads.
    pub fn reads(self, r: u64) -> (w: Weight)
        ensures
            w == (Weight { ref_time: clamp(self.read * r), proof_size: 0 }),
    {
        Weight::from_parts(saturating_mul(self.read, r), 0)
    }

    /// The weight of `w` writes.
    pub fn writes(self, w: u64) -> (weight: Weight)
        ensures
            weight == (Weight { ref_time: clamp(self.write * w), proof_size: 0 }),
    {
        Weight::from_parts(saturating_mul(self.write, w), 0)
    }
}

} // verus!
