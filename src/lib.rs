use vstd::prelude::*;

pub mod authorization;
pub mod dispute_resolution;
pub mod errors;
pub mod gasless;
pub mod keyed;
pub mod multisig_governance;
pub mod proposals;
pub mod rebalancer;
pub mod trustline;
pub mod upgrade_utils;

verus! {

} // verus!
