use vstd::prelude::*;

verus! {

/// Housekeeping decisions around protocol upgrades and storage lifetime.
pub struct UpgradeHandler;

impl UpgradeHandler {
    /// Whether the ledger's current protocol version is at least `min_version`.
    pub fn check_protocol_version(current_version: u32, min_version: u32) -> (r: bool)
        ensures
            r == (current_version >= min_version),
    {
        current_version >= min_version
    }

    /// Whether storage needs optimising; nothing is ever left to do.
    pub fn optimize_storage() -> (r: bool)
        ensures
            r,
    {
        true
    }
}

} // verus!
