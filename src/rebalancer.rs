use vstd::prelude::*;

verus! {

/// Keeps a funding wallet's balance topped up.
pub struct LiquidityRebalancer;

impl LiquidityRebalancer {
    /// The amount to swap into the wallet: `None` while `current_balance` is
    /// at least `threshold`, else what brings it up to `target`.
    pub fn check_and_rebalance(current_balance: i128, threshold: i128, target: i128) -> (r: Option<i128>)
        requires
            current_balance >= threshold || i128::MIN <= target - current_balance <= i128::MAX,
        ensures
            current_balance >= threshold ==> r is None,
            current_balance < threshold ==> r == Some((target - current_balance) as i128),
    {
        if current_balance >= threshold {
            return None;
        }
        Some(target - current_balance)
    }
}

} // verus!
