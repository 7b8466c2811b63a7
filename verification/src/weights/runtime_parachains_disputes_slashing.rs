//! Weights for `runtime_parachains::disputes::slashing`.

use crate::weights::{clamp, RuntimeDbWeight, Weight};
use vstd::prelude::*;

verus! {

/// Weight functions for `runtime_parachains::disputes::slashing`, under the database weights of
/// a runtime.
#[derive(Clone, Copy, PartialEq, Eq, Debug)]
pub struct WeightInfo {
    /// What the runtime charges for reads and writes of the database.
    pub db_weight: RuntimeDbWeight,
}

impl WeightInfo {
    /// The weight functions under the database weights of a runtime.
    pub fn new(db_weight: RuntimeDbWeight) -> (r: Self)
        ensures
            r.db_weight == db_weight,
    {
        WeightInfo { db_weight }
    }

    /// The weight of reporting a lost dispute. The range of component `n` is
    /// `[4, 1000]`.
    pub fn report_dispute_lost(&self, n: u32) -> (w: Weight)
        ensures
            w.ref_time == clamp(
                115_056_000 + 128_000 * n + clamp(12 * self.db_weight.read)
                    + clamp(4 * self.db_weight.write),
            ),
            w.proof_size == 0,
    {
        Weight::from_ref_time(115_056_000)
            .saturating_add(Weight::from_ref_time(128_000).saturating_mul(n as u64))
            .saturating_add(self.db_weight.reads(12))
            .saturating_add(self.db_weight.writes(4))
    }
}

} // verus!
