use vstd::prelude::*;

pub mod abi;
pub mod action;
pub mod commitment;
pub mod input;
pub mod minimax;
pub mod random_agent;
pub mod receipts;
pub mod reader;
pub mod reducer;
pub mod setup_cache;
pub mod simulator;
pub mod state;
pub mod traits;

verus! {

/// The sum of two integers.
pub fn add(left: u64, right: u64) -> (r: u64)
    requires
        left + right <= u64::MAX,
    ensures
        r == left + right,
{
    left + right
}

} // verus!
