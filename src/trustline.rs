use vstd::prelude::*;

verus! {

/// A request that `user` trusts the asset `asset_code` issued by `asset_issuer`.
pub struct TrustlineRequest {
    pub user: String,
    pub asset_code: String,
    pub asset_issuer: String,
}

/// Sets up the trustlines that let a wallet receive payments.
pub struct TrustlineHandler;

impl TrustlineHandler {
    /// The trustline for the platform's USDC; the user's own address stands
    /// in for the issuer.
    pub fn setup_usdc_trustline(user: String) -> (r: TrustlineRequest)
        ensures
            r.user@ == user@,
            r.asset_code@ == "USDC"@,
            r.asset_issuer@ == user@,
    {
        let issuer = user.clone();
        TrustlineRequest { user, asset_code: String::from_str("USDC"), asset_issuer: issuer }
    }
}

} // verus!
