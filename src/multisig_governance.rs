use vstd::prelude::*;
use crate::authorization::{configure_error, AuthorizationLedger, Scope, Signer, ThresholdClass};
use crate::errors::ContractError;
use crate::proposals::{sign_effect, sign_result, ProposalStatus, ProposalStore, SignOutcome};

verus! {

/// Weighted multi-party authorisation: the scopes with their signers and
/// thresholds, and the proposals that gather signatures against them.
pub struct MultisigGovernance {
    pub ledger: AuthorizationLedger,
    pub proposals: ProposalStore,
}

impl MultisigGovernance {
    /// No scope and no proposal.
    pub fn new() -> (r: Self)
        ensures
            r.ledger.scopes@.len() == 0,
            r.proposals.proposals@.len() == 0,
    {
        MultisigGovernance { ledger: AuthorizationLedger::new(), proposals: ProposalStore::new() }
    }

    /// Creates or replaces the configuration of `scope_id`; see
    /// `AuthorizationLedger::configure_scope`. Proposals are left as they are.
    pub fn configure_multisig(
        &mut self,
        scope_id: String,
        owner: String,
        signers: Vec<Signer>,
        low: u64,
        med: u64,
        high: u64,
    ) -> (r: Result<(), ContractError>)
        ensures
            r is Err <==> configure_error(old(self).ledger.scope(scope_id@), owner@, signers@, low, med, high) is Some,
            r is Err ==> r->Err_0 == configure_error(old(self).ledger.scope(scope_id@), owner@, signers@, low, med, high)->Some_0
                && *final(self) == *old(self),
            r is Ok ==> final(self).ledger.scope(scope_id@) == Some(
                Scope { scope_id, owner, signers, low, med, high },
            ),
            forall|k: Seq<char>| k != scope_id@ ==> #[trigger] final(self).ledger.scope(k) == old(self).ledger.scope(k),
            final(self).proposals == old(self).proposals,
    {
        self.ledger.configure_scope(scope_id, owner, signers, low, med, high)
    }

    /// Adds `signer`'s signature to `action_id`; see `ProposalStore::sign`.
    pub fn sign(&mut self, action_id: String, scope_id: &String, class: ThresholdClass, signer: String) -> (r: Result<
        SignOutcome,
        ContractError,
    >)
        ensures
            r == sign_result(old(self).proposals, old(self).ledger, action_id@, scope_id@, class, signer@),
            sign_effect(old(self).proposals, final(self).proposals, old(self).ledger, action_id@, scope_id@, class, signer@),
            final(self).ledger == old(self).ledger,
    {
        self.proposals.sign(&self.ledger, action_id, scope_id, class, signer)
    }

    /// The status of `action_id`, `None` before its first signature.
    pub fn status(&self, action_id: &String) -> (r: Option<ProposalStatus>)
        ensures
            r == match self.proposals.proposal(action_id@) {
                Some(p) => Some(p.status),
                None => None::<ProposalStatus>,
            },
    {
        self.proposals.status(action_id)
    }
}

} // verus!
