//! Weights for `pallet_membership`.

use crate::weights::{clamp, RuntimeDbWeight, Weight};
use vstd::prelude::*;

verus! {

/// Weight functions for `pallet_membership`, under the database weights of
/// a runtime.
#[derive(Clone, Copy, PartialEq, Eq, Debug)]
pub struct WeightInfo {
    /// What the runtime charges for reads and writes of the database.
    pub db_weight: RuntimeDbWeight,
}

impl WeightInfo {
    /// The weight functions under the database weights of a runtime.
    pub fn new(db_weight: RuntimeDbWeight) -> (r: Self)
        ensures
            r.db_weight == db_weight,
    {
        WeightInfo { db_weight }
    }

    /// The weight of adding a member. The range of component `m` is
    /// `[1, 99]`.
    pub fn add_member(&self, m: u32) -> (w: Weight)
        ensures
            w.ref_time == clamp(
                15_622_054 + 39_128 * m + clamp(2 * self.db_weight.read)
                    + clamp(3 * self.db_weight.write),
            ),
            w.proof_size == 5_005 + 192 * m,
    {
        Weight::from_ref_time(15_622_054)
            .saturating_add(Weight::from_proof_size(5_005))
            .saturating_add(Weight::from_ref_time(39_128).saturating_mul(m as u64))
            .saturating_add(self.db_weight.reads(2))
            .saturating_add(self.db_weight.writes(3))
            .saturating_add(Weight::from_proof_size(192).saturating_mul(m as u64))
    }

    /// The weight of removing a member. The range of component `m` is
    /// `[2, 100]`.
    pub fn remove_member(&self, m: u32) -> (w: Weight)
        ensures
            w.ref_time == clamp(
                18_382_549 + 32_188 * m + clamp(3 * self.db_weight.read)
                    + clamp(3 * self.db_weight.write),
            ),
            w.proof_size == 5_844 + 192 * m,
    {
        Weight::from_ref_time(18_382_549)
            .saturating_add(Weight::from_proof_size(5_844))
            .saturating_add(Weight::from_ref_time(32_188).saturating_mul(m as u64))
            .saturating_add(self.db_weight.reads(3))
            .saturating_add(self.db_weight.writes(3))
            .saturating_add(Weight::from_proof_size(192).saturating_mul(m as u64))
    }

    /// The weight of swapping one member for another. The range of component `m` is
    /// `[2, 100]`.
    pub fn swap_member(&self, m: u32) -> (w: Weight)
        ensures
            w.ref_time == clamp(
                18_574_464 + 47_803 * m + clamp(3 * self.db_weight.read)
                    + clamp(3 * self.db_weight.write),
            ),
            w.proof_size == 5_844 + 192 * m,
    {
        Weight::from_ref_time(18_574_464)
            .saturating_add(Weight::from_proof_size(5_844))
            .saturating_add(Weight::from_ref_time(47_803).saturating_mul(m as u64))
            .saturating_add(self.db_weight.reads(3))
            .saturating_add(self.db_weight.writes(3))
            .saturating_add(Weight::from_proof_size(192).saturating_mul(m as u64))
    }

    /// The weight of replacing all members. The range of component `m` is
    /// `[1, 100]`.
    pub fn reset_member(&self, m: u32) -> (w: Weight)
        ensures
            w.ref_time == clamp(
                18_138_776 + 165_950 * m + clamp(3 * self.db_weight.read)
                    + clamp(3 * self.db_weight.write),
            ),
            w.proof_size == 5_844 + 192 * m,
    {
        Weight::from_ref_time(18_138_776)
            .saturating_add(Weight::from_proof_size(5_844))
            .saturating_add(Weight::from_ref_time(165_950).saturating_mul(m as u64))
            .saturating_add(self.db_weight.reads(3))
            .saturating_add(self.db_weight.writes(3))
            .saturating_add(Weight::from_proof_size(192).saturating_mul(m as u64))
    }

    /// The weight of a member changing its key. The range of component `m` is
    /// `[1, 100]`.
    pub fn change_key(&self, m: u32) -> (w: Weight)
        ensures
            w.ref_time == clamp(
                19_185_070 + 45_161 * m + clamp(3 * self.db_weight.read)
                    + clamp(4 * self.db_weight.write),
            ),
            w.proof_size == 5_844 + 192 * m,
    {
        Weight::from_ref_time(19_185_070)
            .saturating_add(Weight::from_proof_size(5_844))
            .saturating_add(Weight::from_ref_time(45_161).saturating_mul(m as u64))
            .saturating_add(self.db_weight.reads(3))
            .saturating_add(self.db_weight.writes(4))
            .saturating_add(Weight::from_proof_size(192).saturating_mul(m as u64))
    }

    /// The weight of setting the prime member. The range of component `m` is
    /// `[1, 100]`.
    pub fn set_prime(&self, m: u32) -> (w: Weight)
        ensures
            w.ref_time == clamp(
                6_598_116 + 11_399 * m + clamp(1 * self.db_weight.read)
                    + clamp(2 * self.db_weight.write),
            ),
            w.proof_size == 3_761 + 32 * m,
    {
        Weight::from_ref_time(6_598_116)
            .saturating_add(Weight::from_proof_size(3_761))
            .saturating_add(Weight::from_ref_time(11_399).saturating_mul(m as u64))
            .saturating_add(self.db_weight.reads(1))
            .saturating_add(self.db_weight.writes(2))
            .saturating_add(Weight::from_proof_size(32).saturating_mul(m as u64))
    }

    /// The weight of clearing the prime member. The range of component `m` is
    /// `[1, 100]`.
    pub fn clear_prime(&self, m: u32) -> (w: Weight)
        ensures
            w.ref_time == clamp(2_861_104 + 799 * m + clamp(2 * self.db_weight.write)),
            w.proof_size == 0,
    {
        Weight::from_ref_time(2_861_104)
            .saturating_add(Weight::from_proof_size(0))
            .saturating_add(Weight::from_ref_time(799).saturating_mul(m as u64))
            .saturating_add(self.db_weight.writes(2))
    }
}

} // verus!
