//! Weights for `pallet_xcm_benchmarks::generic`.

use crate::weights::{clamp, RuntimeDbWeight, Weight};
use vstd::prelude::*;

verus! {

/// Weights for `pallet_xcm_benchmarks::generic`, under the database weights of
/// a runtime.
#[derive(Clone, Copy, PartialEq, Eq, Debug)]
pub struct WeightInfo {
    /// What the runtime charges for reads and writes of the database.
    pub db_weight: RuntimeDbWeight,
}

impl WeightInfo {
    /// The weight functions under the database weights of a runtime.
    pub fn new(db_weight: RuntimeDbWeight) -> (r: Self)
        ensures
            r.db_weight == db_weight,
    {
        WeightInfo { db_weight }
    }

    /// The weight of reporting what is held.
    pub fn report_holding(&self) -> (w: Weight)
        ensures
            w.ref_time == clamp(
                21_822_000 + clamp(6 * self.db_weight.read)
                    + clamp(3 * self.db_weight.write),
            ),
            w.proof_size == 0,
    {
        Weight::from_ref_time(21_822_000)
            .saturating_add(self.db_weight.reads(6))
            .saturating_add(self.db_weight.writes(3))
    }

    /// The weight of buying execution.
    pub fn buy_execution(&self) -> (w: Weight)
        ensures
            w.ref_time == 3_109_000,
            w.proof_size == 0,
    {
        Weight::from_ref_time(3_109_000)
    }

    /// The weight of taking in a response to a query.
    pub fn query_response(&self) -> (w: Weight)
        ensures
            w.ref_time == clamp(12_087_000 + clamp(1 * self.db_weight.read)),
            w.proof_size == 0,
    {
        Weight::from_ref_time(12_087_000)
            .saturating_add(self.db_weight.reads(1))
    }

    /// The weight of a transaction.
    pub fn transact(&self) -> (w: Weight)
        ensures
            w.ref_time == 12_398_000,
            w.proof_size == 0,
    {
        Weight::from_ref_time(12_398_000)
    }

    /// The weight of refunding the surplus.
    pub fn refund_surplus(&self) -> (w: Weight)
        ensures
            w.ref_time == 3_247_000,
            w.proof_size == 0,
    {
        Weight::from_ref_time(3_247_000)
    }

    /// The weight of setting the error handler.
    pub fn set_error_handler(&self) -> (w: Weight)
        ensures
            w.ref_time == 3_086_000,
            w.proof_size == 0,
    {
        Weight::from_ref_time(3_086_000)
    }

    /// The weight of setting the appendix.
    pub fn set_appendix(&self) -> (w: Weight)
        ensures
            w.ref_time == 3_112_000,
            w.proof_size == 0,
    {
        Weight::from_ref_time(3_112_000)
    }

    /// The weight of clearing the error.
    pub fn clear_error(&self) -> (w: Weight)
        ensures
            w.ref_time == 3_118_000,
            w.proof_size == 0,
    {
        Weight::from_ref_time(3_118_000)
    }

    /// The weight of descending the origin.
    pub fn descend_origin(&self) -> (w: Weight)
        ensures
            w.ref_time == 4_054_000,
            w.proof_size == 0,
    {
        Weight::from_ref_time(4_054_000)
    }

    /// The weight of clearing the origin.
    pub fn clear_origin(&self) -> (w: Weight)
        ensures
            w.ref_time == 3_111_000,
            w.proof_size == 0,
    {
        Weight::from_ref_time(3_111_000)
    }

    /// The weight of reporting the error.
    pub fn report_error(&self) -> (w: Weight)
        ensures
            w.ref_time == clamp(
                18_425_000 + clamp(6 * self.db_weight.read)
                    + clamp(3 * self.db_weight.write),
            ),
            w.proof_size == 0,
    {
        Weight::from_ref_time(18_425_000)
            .saturating_add(self.db_weight.reads(6))
            .saturating_add(self.db_weight.writes(3))
    }

    /// The weight of claiming an asset.
    pub fn claim_asset(&self) -> (w: Weight)
        ensures
            w.ref_time == clamp(
                7_144_000 + clamp(1 * self.db_weight.read)
                    + clamp(1 * self.db_weight.write),
            ),
            w.proof_size == 0,
    {
        Weight::from_ref_time(7_144_000)
            .saturating_add(self.db_weight.reads(1))
            .saturating_add(self.db_weight.writes(1))
    }

    /// The weight of a trap.
    pub fn trap(&self) -> (w: Weight)
        ensures
            w.ref_time == 3_060_000,
            w.proof_size == 0,
    {
        Weight::from_ref_time(3_060_000)
    }

    /// The weight of subscribing to the version.
    pub fn subscribe_version(&self) -> (w: Weight)
        ensures
            w.ref_time == clamp(
                21_642_000 + clamp(7 * self.db_weight.read)
                    + clamp(4 * self.db_weight.write),
            ),
            w.proof_size == 0,
    {
        Weight::from_ref_time(21_642_000)
            .saturating_add(self.db_weight.reads(7))
            .saturating_add(self.db_weight.writes(4))
    }

    /// The weight of unsubscribing from the version.
    pub fn unsubscribe_version(&self) -> (w: Weight)
        ensures
            w.ref_time == clamp(4_873_000 + clamp(1 * self.db_weight.write)),
            w.proof_size == 0,
    {
        Weight::from_ref_time(4_873_000)
            .saturating_add(self.db_weight.writes(1))
    }

    /// The weight of initiating a reserve withdrawal.
    pub fn initiate_reserve_withdraw(&self) -> (w: Weight)
        ensures
            w.ref_time == clamp(
                22_809_000 + clamp(6 * self.db_weight.read)
                    + clamp(3 * self.db_weight.write),
            ),
            w.proof_size == 0,
    {
        Weight::from_ref_time(22_809_000)
            .saturating_add(self.db_weight.reads(6))
            .saturating_add(self.db_weight.writes(3))
    }

    /// The weight of burning an asset.
    pub fn burn_asset(&self) -> (w: Weight)
        ensures
            w.ref_time == 5_259_000,
            w.proof_size == 0,
    {
        Weight::from_ref_time(5_259_000)
    }

    /// The weight of expecting an asset.
    pub fn expect_asset(&self) -> (w: Weight)
        ensures
            w.ref_time == 3_745_000,
            w.proof_size == 0,
    {
        Weight::from_ref_time(3_745_000)
    }

    /// The weight of expecting an origin.
    pub fn expect_origin(&self) -> (w: Weight)
        ensures
            w.ref_time == 3_847_000,
            w.proof_size == 0,
    {
        Weight::from_ref_time(3_847_000)
    }

    /// The weight of expecting an error.
    pub fn expect_error(&self) -> (w: Weight)
        ensures
            w.ref_time == 3_633_000,
            w.proof_size == 0,
    {
        Weight::from_ref_time(3_633_000)
    }

    /// The weight of querying a pallet.
    pub fn query_pallet(&self) -> (w: Weight)
        ensures
            w.ref_time == clamp(
                21_645_000 + clamp(5 * self.db_weight.read)
                    + clamp(3 * self.db_weight.write),
            ),
            w.proof_size == 0,
    {
        Weight::from_ref_time(21_645_000)
            .saturating_add(self.db_weight.reads(5))
            .saturating_add(self.db_weight.writes(3))
    }

    /// The weight of expecting a pallet.
    pub fn expect_pallet(&self) -> (w: Weight)
        ensures
            w.ref_time == 4_017_000,
            w.proof_size == 0,
    {
        Weight::from_ref_time(4_017_000)
    }

    /// The weight of reporting the status of a transaction.
    pub fn report_transact_status(&self) -> (w: Weight)
        ensures
            w.ref_time == clamp(
                20_465_000 + clamp(5 * self.db_weight.read)
                    + clamp(3 * self.db_weight.write),
            ),
            w.proof_size == 0,
    {
        Weight::from_ref_time(20_465_000)
            .saturating_add(self.db_weight.reads(5))
            .saturating_add(self.db_weight.writes(3))
    }

    /// The weight of clearing the status of a transaction.
    pub fn clear_transact_status(&self) -> (w: Weight)
        ensures
            w.ref_time == 3_723_000,
            w.proof_size == 0,
    {
        Weight::from_ref_time(3_723_000)
    }

    /// The weight of setting the topic.
    pub fn set_topic(&self) -> (w: Weight)
        ensures
            w.ref_time == 3_687_000,
            w.proof_size == 0,
    {
        Weight::from_ref_time(3_687_000)
    }

    /// The weight of clearing the topic.
    pub fn clear_topic(&self) -> (w: Weight)
        ensures
            w.ref_time == 3_654_000,
            w.proof_size == 0,
    {
        Weight::from_ref_time(3_654_000)
    }

    /// The weight of setting the fees mode.
    pub fn set_fees_mode(&self) -> (w: Weight)
        ensures
            w.ref_time == 3_721_000,
            w.proof_size == 0,
    {
        Weight::from_ref_time(3_721_000)
    }

    /// The weight of unpaid execution.
    pub fn unpaid_execution(&self) -> (w: Weight)
        ensures
            w.ref_time == 3_111_000,
            w.proof_size == 0,
    {
        Weight::from_ref_time(3_111_000)
    }
}

} // verus!
