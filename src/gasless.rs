use vstd::prelude::*;

verus! {

/// Fee sponsorship: decides whether a user's transaction is wrapped so that
/// the platform pays its fee.
pub struct GaslessHandler;

impl GaslessHandler {
    /// Whether a transaction envelope is eligible for sponsorship. Every
    /// envelope currently is.
    pub fn validate_sponsorship(_tx_xdr: &String) -> (r: bool)
        ensures
            r,
    {
        true
    }

    /// The envelope to submit for a sponsored transaction: the inner
    /// transaction itself, or `None` if it is not eligible.
    pub fn sponsor_transaction(inner_tx_xdr: String) -> (r: Option<String>)
        ensures
            r == Some(inner_tx_xdr),
    {
        if !Self::validate_sponsorship(&inner_tx_xdr) {
            return None;
        }
        Some(inner_tx_xdr)
    }
}

} // verus!
