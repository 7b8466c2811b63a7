//! The core of statement distribution for asynchronous backing: who may be
//! told what about which candidate, and what has been said already.

use vstd::prelude::*;

pub mod candidates;
pub mod cluster;
pub mod engine;
pub mod groups;
pub mod implicit_view;
pub mod laws;
pub mod lists;
pub mod messages;
pub mod peers;
pub mod primitives;
pub mod relay_parent;
pub mod reputation;
pub mod requests;
pub mod session;
pub mod signature;
pub mod statement_store;
pub mod vec_map;
pub mod weights;

verus! {

/// The number of votes a candidate needs before it counts as backed: two,
/// or the size of the group where the group is smaller than that.
pub open spec fn minimum_votes_spec(n_validators: nat) -> nat {
    if n_validators < 2 {
        n_validators
    } else {
        2
    }
}

/// How many votes are needed to consider a candidate backed.
pub fn minimum_votes(n_validators: usize) -> (votes: usize)
    ensures
        votes == minimum_votes_spec(n_validators as nat),
{
    if n_validators < 2 {
        n_validators
    } else {
        2
    }
}

} // verus!
