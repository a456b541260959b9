use vstd::prelude::*;
use crate::authorization::{signer_weight, threshold_of, AuthorizationLedger, Signer, ThresholdClass};
use crate::errors::ContractError;
use crate::keyed::{find_by, lemma_find_first, lemma_find_none, lemma_find_push, lemma_find_update, same_id};

verus! {

#[derive(Clone, Copy, Debug, PartialEq, Eq, Structural)]
pub enum ProposalStatus {
    Pending,
    Executed,
}

/// One sensitive action awaiting, or having reached, its quorum.
pub struct Proposal {
    pub action_id: String,
    pub signers: Vec<String>,
    pub status: ProposalStatus,
}

/// What a signature did: the weight gathered so far, and whether this very
/// call crossed the threshold.
#[derive(Clone, Copy, Debug, PartialEq, Eq, Structural)]
pub struct SignOutcome {
    pub accumulated_weight: u128,
    pub quorum_reached: bool,
}

/// Every proposal, keyed by action id.
pub struct ProposalStore {
    pub proposals: Vec<Proposal>,
}

pub open spec fn proposal_key() -> spec_fn(Proposal) -> Seq<char> {
    |p: Proposal| p.action_id@
}

pub open spec fn ids_of(v: Seq<String>) -> Seq<Seq<char>> {
    v.map_values(|s: String| s@)
}

/// The identities that have signed `p`, in signing order.
pub open spec fn signed_by(p: Proposal) -> Seq<Seq<char>> {
    ids_of(p.signers@)
}

/// The sum of the weights, among `members`, of the identities in `ids`.
pub open spec fn accumulated(members: Seq<Signer>, ids: Seq<Seq<char>>) -> int
    decreases ids.len(),
{
    if ids.len() == 0 {
        0
    } else {
        accumulated(members, ids.drop_last()) + signer_weight(members, ids.last())
    }
}

pub proof fn lemma_accumulated_bound(members: Seq<Signer>, ids: Seq<Seq<char>>)
    ensures
        0 <= accumulated(members, ids) <= ids.len() * (u64::MAX as int),
    decreases ids.len(),
{
    if ids.len() > 0 {
        lemma_accumulated_bound(members, ids.drop_last());
        let w = find_by(members, crate::authorization::signer_key(), ids.last());
        if w is Some {
            assert(w->Some_0.weight <= u64::MAX);
        }
    }
}

/// What signing `action` as `signer` against the `class` threshold of
/// `scope_id` returns, given the store and the ledger beforehand.
pub open spec fn sign_result(
    store: ProposalStore,
    ledger: AuthorizationLedger,
    action: Seq<char>,
    scope_id: Seq<char>,
    class: ThresholdClass,
    signer: Seq<char>,
) -> Result<SignOutcome, ContractError> {
    let prior = store.proposal(action);
    let scope = ledger.scope(scope_id);
    let before = store.signers_of(action);
    if prior is Some && prior->Some_0.status == ProposalStatus::Executed {
        Err(ContractError::AlreadyExecuted)
    } else if scope is None {
        Err(ContractError::ScopeNotFound)
    } else if before.contains(signer) {
        Ok(
            SignOutcome {
                accumulated_weight: accumulated(scope->Some_0.signers@, before) as u128,
                quorum_reached: false,
            },
        )
    } else {
        let weight = accumulated(scope->Some_0.signers@, before.push(signer));
        Ok(
            SignOutcome {
                accumulated_weight: weight as u128,
                quorum_reached: weight >= threshold_of(scope->Some_0, class),
            },
        )
    }
}

/// How signing changes the store: only a new signature is recorded, and only on
/// `action`, which becomes Executed exactly when the call reports the quorum.
pub open spec fn sign_effect(
    before: ProposalStore,
    after: ProposalStore,
    ledger: AuthorizationLedger,
    action: Seq<char>,
    scope_id: Seq<char>,
    class: ThresholdClass,
    signer: Seq<char>,
) -> bool {
    let r = sign_result(before, ledger, action, scope_id, class, signer);
    if r is Ok && !before.signers_of(action).contains(signer) {
        &&& after.proposal(action) is Some
        &&& after.signers_of(action) == before.signers_of(action).push(signer)
        &&& after.proposal(action)->Some_0.status == (if r->Ok_0.quorum_reached {
            ProposalStatus::Executed
        } else {
            ProposalStatus::Pending
        })
        &&& forall|k: Seq<char>| k != action ==> #[trigger] after.proposal(k) == before.proposal(k)
    } else {
        after == before
    }
}

proof fn lemma_accumulated_remove(members: Seq<Signer>, ids: Seq<Seq<char>>, k: int)
    requires
        0 <= k < ids.len(),
    ensures
        accumulated(members, ids) == accumulated(members, ids.remove(k)) + signer_weight(members, ids[k]),
    decreases ids.len(),
{
    if k == ids.len() - 1 {
        assert(ids.remove(k) =~= ids.drop_last());
    } else {
        lemma_accumulated_remove(members, ids.drop_last(), k);
        assert(ids.remove(k).drop_last() =~= ids.drop_last().remove(k));
        assert(ids.remove(k).last() == ids.last());
    }
}

/// Signing is order-independent: whenever the same distinct identities have
/// signed, in whatever order, the accumulated weight is the same, namely the
/// sum of their weights.
pub proof fn lemma_signing_order_irrelevant(members: Seq<Signer>, a: Seq<Seq<char>>, b: Seq<Seq<char>>)
    requires
        a.no_duplicates(),
        b.no_duplicates(),
        forall|x: Seq<char>| a.contains(x) <==> b.contains(x),
    ensures
        accumulated(members, a) == accumulated(members, b),
    decreases a.len(),
{
    if a.len() == 0 {
        if b.len() > 0 {
            assert(b.contains(b[0]));
        }
    } else {
        let x = a.last();
        assert(a.contains(x)) by {
            assert(a[a.len() - 1] == x);
        }
        let k = choose|k: int| 0 <= k < b.len() && b[k] == x;
        let a2 = a.drop_last();
        let b2 = b.remove(k);
        assert(a2.no_duplicates()) by {
            assert forall|i: int, j: int| 0 <= i < a2.len() && 0 <= j < a2.len() && i != j implies a2[i] != a2[j] by {
                assert(a2[i] == a[i] && a2[j] == a[j]);
            }
        }
        assert(b2.no_duplicates()) by {
            assert forall|i: int, j: int| 0 <= i < b2.len() && 0 <= j < b2.len() && i != j implies b2[i] != b2[j] by {
                let ii = if i < k { i } else { i + 1 };
                let jj = if j < k { j } else { j + 1 };
                assert(b2[i] == b[ii] && b2[j] == b[jj]);
            }
        }
        assert forall|y: Seq<char>| a2.contains(y) <==> b2.contains(y) by {
            if a2.contains(y) {
                let i = choose|i: int| 0 <= i < a2.len() && a2[i] == y;
                assert(a[i] == y);
                assert(a.contains(y));
                assert(y != x);
                let j = choose|j: int| 0 <= j < b.len() && b[j] == y;
                assert(j != k);
                if j < k {
                    assert(b2[j] == y);
                } else {
                    assert(b2[j - 1] == y);
                }
            }
            if b2.contains(y) {
                let j = choose|j: int| 0 <= j < b2.len() && b2[j] == y;
                let jj = if j < k { j } else { j + 1 };
                assert(b[jj] == y);
                assert(jj != k);
                assert(y != x);
                assert(b.contains(y));
                let i = choose|i: int| 0 <= i < a.len() && a[i] == y;
                assert(i != a.len() - 1);
                assert(a2[i] == y);
            }
        }
        lemma_signing_order_irrelevant(members, a2, b2);
        lemma_accumulated_remove(members, b, k);
    }
}

/// Once a proposal is Executed, every further signature on it fails with
/// `AlreadyExecuted` and leaves the store unchanged; and a call reports the
/// quorum only on a proposal that was not yet Executed.
pub proof fn lemma_executed_is_final(
    store: ProposalStore,
    after: ProposalStore,
    ledger: AuthorizationLedger,
    action: Seq<char>,
    scope_id: Seq<char>,
    class: ThresholdClass,
    signer: Seq<char>,
)
    requires
        sign_effect(store, after, ledger, action, scope_id, class, signer),
    ensures
        store.proposal(action) is Some && store.proposal(action)->Some_0.status == ProposalStatus::Executed
            ==> sign_result(store, ledger, action, scope_id, class, signer) == Err::<SignOutcome, ContractError>(
            ContractError::AlreadyExecuted,
        ) && after == store,
        ({
            let r = sign_result(store, ledger, action, scope_id, class, signer);
            r is Ok && r->Ok_0.quorum_reached ==> (store.proposal(action) is None || store.proposal(
                action,
            )->Some_0.status == ProposalStatus::Pending) && after.proposal(action)->Some_0.status
                == ProposalStatus::Executed
        }),
{
}

impl ProposalStore {
    pub open spec fn proposal(&self, action_id: Seq<char>) -> Option<Proposal> {
        find_by(self.proposals@, proposal_key(), action_id)
    }

    /// The identities that have signed `action_id` so far (none if it was never signed).
    pub open spec fn signers_of(&self, action_id: Seq<char>) -> Seq<Seq<char>> {
        match self.proposal(action_id) {
            Some(p) => signed_by(p),
            None => Seq::empty(),
        }
    }

    /// A store with no proposal.
    pub fn new() -> (r: Self)
        ensures
            r.proposals@.len() == 0,
    {
        ProposalStore { proposals: Vec::new() }
    }

    fn proposal_index(&self, action_id: &String) -> (r: Option<usize>)
        ensures
            match r {
                Some(i) => i < self.proposals@.len() && self.proposals@[i as int].action_id@ == action_id@
                    && (forall|j: int| 0 <= j < i ==> proposal_key()(#[trigger] self.proposals@[j]) != action_id@)
                    && self.proposal(action_id@) == Some(self.proposals@[i as int]),
                None => self.proposal(action_id@) is None,
            },
    {
        let mut i: usize = 0;
        while i < self.proposals.len()
            invariant
                i <= self.proposals@.len(),
                forall|j: int| 0 <= j < i ==> proposal_key()(#[trigger] self.proposals@[j]) != action_id@,
            decreases self.proposals@.len() - i,
        {
            if same_id(&self.proposals[i].action_id, action_id) {
                proof {
                    lemma_find_first(self.proposals@, proposal_key(), action_id@, i as int);
                }
                return Some(i);
            }
            i = i + 1;
        }
        proof {
            lemma_find_none(self.proposals@, proposal_key(), action_id@);
        }
        None
    }

    /// Records `signer`'s signature on `action_id`, checked against the `class`
    /// threshold of `scope_id`. A proposal is created by its first signature; a
    /// repeated signature changes nothing. The call whose signature first brings
    /// the weight of the distinct signers to the threshold marks the proposal
    /// Executed and is the only one to report the quorum; every later call on it
    /// fails with `AlreadyExecuted`.
    pub fn sign(
        &mut self,
        ledger: &AuthorizationLedger,
        action_id: String,
        scope_id: &String,
        class: ThresholdClass,
        signer: String,
    ) -> (r: Result<SignOutcome, ContractError>)
        ensures
            r == sign_result(*old(self), *ledger, action_id@, scope_id@, class, signer@),
            sign_effect(*old(self), *final(self), *ledger, action_id@, scope_id@, class, signer@),
    {
        let found = self.proposal_index(&action_id);
        if let Some(i) = found {
            if self.proposals[i].status == ProposalStatus::Executed {
                return Err(ContractError::AlreadyExecuted);
            }
        }
        let threshold = match ledger.threshold_for(scope_id, class) {
            Ok(t) => t,
            Err(e) => return Err(e),
        };
        let ghost members = ledger.scope(scope_id@)->Some_0.signers@;
        let ghost before_all = self.proposals@;
        match found {
            Some(i) => {
                if contains_id(&self.proposals[i].signers, &signer) {
                    let weight = weight_of_all(ledger, scope_id, &self.proposals[i].signers);
                    return Ok(SignOutcome { accumulated_weight: weight, quorum_reached: false });
                }
                let mut p = self.proposals.remove(i);
                let ghost prev = p.signers@;
                p.signers.push(signer);
                assert(ids_of(p.signers@) =~= ids_of(prev).push(p.signers@.last()@));
                let weight = weight_of_all(ledger, scope_id, &p.signers);
                let reached = weight >= threshold as u128;
                if reached {
                    p.status = ProposalStatus::Executed;
                }
                let ghost np = p;
                self.proposals.insert(i, p);
                proof {
                    assert(self.proposals@ =~= before_all.update(i as int, np));
                    assert forall|k: Seq<char>| true implies #[trigger] find_by(self.proposals@, proposal_key(), k) == (if k == proposal_key()(np) {
                        Some(np)
                    } else {
                        find_by(before_all, proposal_key(), k)
                    }) by {
                        lemma_find_update(before_all, proposal_key(), i as int, np, k);
                    }
                }
                Ok(SignOutcome { accumulated_weight: weight, quorum_reached: reached })
            },
            None => {
                let mut signers: Vec<String> = Vec::new();
                signers.push(signer);
                assert(ids_of(signers@) =~= Seq::<Seq<char>>::empty().push(signers@[0]@));
                let weight = weight_of_all(ledger, scope_id, &signers);
                let reached = weight >= threshold as u128;
                let status = if reached { ProposalStatus::Executed } else { ProposalStatus::Pending };
                let p = Proposal { action_id, signers, status };
                self.proposals.push(p);
                proof {
                    assert forall|k: Seq<char>| true implies #[trigger] find_by(self.proposals@, proposal_key(), k) == (if find_by(before_all, proposal_key(), k) is Some {
                        find_by(before_all, proposal_key(), k)
                    } else if proposal_key()(p) == k {
                        Some(p)
                    } else {
                        None
                    }) by {
                        lemma_find_push(before_all, proposal_key(), p, k);
                    }
                }
                Ok(SignOutcome { accumulated_weight: weight, quorum_reached: reached })
            },
        }
    }

    /// The status of `action_id`, or `None` if nobody has signed it yet.
    pub fn status(&self, action_id: &String) -> (r: Option<ProposalStatus>)
        ensures
            r == match self.proposal(action_id@) {
                Some(p) => Some(p.status),
                None => None::<ProposalStatus>,
            },
    {
        match self.proposal_index(action_id) {
            Some(i) => Some(self.proposals[i].status),
            None => None,
        }
    }
}

/// The weight that the identities in `ids` carry together in the scope `scope_id`.
fn weight_of_all(ledger: &AuthorizationLedger, scope_id: &String, ids: &Vec<String>) -> (r: u128)
    requires
        ledger.scope(scope_id@) is Some,
    ensures
        r as int == accumulated(ledger.scope(scope_id@)->Some_0.signers@, ids_of(ids@)),
{
    let ghost members = ledger.scope(scope_id@)->Some_0.signers@;
    let mut acc: u128 = 0;
    let mut i: usize = 0;
    while i < ids.len()
        invariant
            i <= ids@.len(),
            ledger.scope(scope_id@) is Some,
            members == ledger.scope(scope_id@)->Some_0.signers@,
            acc as int == accumulated(members, ids_of(ids@).take(i as int)),
        decreases ids@.len() - i,
    {
        proof {
            assert(ids_of(ids@).take(i + 1).drop_last() =~= ids_of(ids@).take(i as int));
            assert(ids_of(ids@).take(i + 1).last() == ids@[i as int]@);
            lemma_accumulated_bound(members, ids_of(ids@).take(i as int));
            assert(i * (u64::MAX as int) <= (usize::MAX as int) * (u64::MAX as int)) by (nonlinear_arith)
                requires i <= usize::MAX;
        }
        let w = ledger.weight_of(scope_id, &ids[i]);
        assert(w as int == signer_weight(members, ids@[i as int]@));
        assert(accumulated(members, ids_of(ids@).take(i + 1)) == accumulated(members, ids_of(ids@).take(i as int)) + signer_weight(members, ids@[i as int]@));
        acc = acc + w as u128;
        i = i + 1;
    }
    assert(ids_of(ids@).take(i as int) =~= ids_of(ids@));
    acc
}

/// Whether `id` occurs in `ids`.
fn contains_id(ids: &Vec<String>, id: &String) -> (r: bool)
    ensures
        r == ids_of(ids@).contains(id@),
{
    let mut i: usize = 0;
    while i < ids.len()
        invariant
            i <= ids@.len(),
            forall|j: int| 0 <= j < i ==> ids@[j]@ != id@,
        decreases ids@.len() - i,
    {
        if same_id(&ids[i], id) {
            assert(ids_of(ids@)[i as int] == id@);
            return true;
        }
        i = i + 1;
    }
    assert(!ids_of(ids@).contains(id@)) by {
        if ids_of(ids@).contains(id@) {
            let j = choose|j: int| 0 <= j < ids_of(ids@).len() && ids_of(ids@)[j] == id@;
            assert(ids@[j]@ == id@);
        }
    }
    false
}

} // verus!
