use vstd::prelude::*;
use crate::errors::ContractError;
use crate::keyed::{find_by, lemma_find_first, lemma_find_none, lemma_find_push, lemma_find_update, same_id};

verus! {

/// The three action classes; each needs its own accumulated weight.
#[derive(Clone, Copy, Debug, PartialEq, Eq, Structural)]
pub enum ThresholdClass {
    Low,
    Medium,
    High,
}

/// An identity allowed to authorise actions of a scope, with its weight.
pub struct Signer {
    pub id: String,
    pub weight: u64,
}

/// A named set of signers, the identity that may reconfigure it, and its thresholds.
pub struct Scope {
    pub scope_id: String,
    pub owner: String,
    pub signers: Vec<Signer>,
    pub low: u64,
    pub med: u64,
    pub high: u64,
}

/// Every configured scope, at most one per scope id.
pub struct AuthorizationLedger {
    pub scopes: Vec<Scope>,
}

pub open spec fn signer_key() -> spec_fn(Signer) -> Seq<char> {
    |s: Signer| s.id@
}

pub open spec fn scope_key() -> spec_fn(Scope) -> Seq<char> {
    |s: Scope| s.scope_id@
}

/// The weight that `id` carries among `signers`: 0 for a non-member.
pub open spec fn signer_weight(signers: Seq<Signer>, id: Seq<char>) -> int {
    match find_by(signers, signer_key(), id) {
        Some(s) => s.weight as int,
        None => 0,
    }
}

/// The sum of all weights in `signers`.
pub open spec fn weight_total(signers: Seq<Signer>) -> int
    decreases signers.len(),
{
    if signers.len() == 0 {
        0
    } else {
        weight_total(signers.drop_last()) + signers.last().weight
    }
}

/// No identity occurs twice.
pub open spec fn ids_distinct(signers: Seq<Signer>) -> bool {
    forall|i: int, j: int| 0 <= i < j < signers.len() ==> signers[i].id@ != signers[j].id@
}

pub open spec fn threshold_of(scope: Scope, class: ThresholdClass) -> int {
    match class {
        ThresholdClass::Low => scope.low as int,
        ThresholdClass::Medium => scope.med as int,
        ThresholdClass::High => scope.high as int,
    }
}

/// The error, if any, that a configuration of `scope_id` by `owner` is rejected with.
pub open spec fn configure_error(
    existing: Option<Scope>,
    owner: Seq<char>,
    signers: Seq<Signer>,
    low: u64,
    med: u64,
    high: u64,
) -> Option<ContractError> {
    if existing is Some && existing->Some_0.owner@ != owner {
        Some(ContractError::Unauthorized)
    } else if low > med || med > high {
        Some(ContractError::InvalidThresholds)
    } else if !ids_distinct(signers) {
        Some(ContractError::DuplicateSigner)
    } else if weight_total(signers) < high {
        Some(ContractError::UnreachableThreshold)
    } else {
        None
    }
}

/// A configuration is rejected whenever its thresholds are out of order or
/// its signers' weights cannot reach `high`.
pub proof fn lemma_bad_configuration_rejected(
    existing: Option<Scope>,
    owner: Seq<char>,
    signers: Seq<Signer>,
    low: u64,
    med: u64,
    high: u64,
)
    requires
        weight_total(signers) < high || low > med || med > high,
    ensures
        configure_error(existing, owner, signers, low, med, high) is Some,
{
}

pub proof fn lemma_weight_total_bound(signers: Seq<Signer>)
    ensures
        0 <= weight_total(signers) <= signers.len() * (u64::MAX as int),
    decreases signers.len(),
{
    if signers.len() > 0 {
        lemma_weight_total_bound(signers.drop_last());
    }
}

/// Position of the first signer with identity `id`.
fn signer_index(signers: &Vec<Signer>, id: &String) -> (r: Option<usize>)
    ensures
        match r {
            Some(i) => i < signers@.len() && signers@[i as int].id@ == id@ && find_by(
                signers@,
                signer_key(),
                id@,
            ) == Some(signers@[i as int]),
            None => find_by(signers@, signer_key(), id@) is None,
        },
{
    let mut i: usize = 0;
    while i < signers.len()
        invariant
            i <= signers@.len(),
            forall|j: int| 0 <= j < i ==> signer_key()(#[trigger] signers@[j]) != id@,
        decreases signers@.len() - i,
    {
        if same_id(&signers[i].id, id) {
            proof {
                lemma_find_first(signers@, signer_key(), id@, i as int);
            }
            return Some(i);
        }
        i = i + 1;
    }
    proof {
        lemma_find_none(signers@, signer_key(), id@);
    }
    None
}

/// Sum of the weights of `signers`, computed without overflow.
fn total_weight(signers: &Vec<Signer>) -> (r: u128)
    ensures
        r as int == weight_total(signers@),
{
    let mut acc: u128 = 0;
    let mut i: usize = 0;
    while i < signers.len()
        invariant
            i <= signers@.len(),
            acc as int == weight_total(signers@.take(i as int)),
        decreases signers@.len() - i,
    {
        proof {
            assert(signers@.take(i + 1).drop_last() =~= signers@.take(i as int));
            lemma_weight_total_bound(signers@.take(i as int));
            assert(i * (u64::MAX as int) <= (usize::MAX as int) * (u64::MAX as int)) by (nonlinear_arith)
                requires i <= usize::MAX;
        }
        acc = acc + signers[i].weight as u128;
        i = i + 1;
    }
    assert(signers@.take(i as int) =~= signers@);
    acc
}

/// Whether no identity occurs twice among `signers`.
fn distinct_ids(signers: &Vec<Signer>) -> (r: bool)
    ensures
        r == ids_distinct(signers@),
{
    let mut i: usize = 0;
    while i < signers.len()
        invariant
            i <= signers@.len(),
            forall|a: int, b: int| 0 <= a < b < i ==> signers@[a].id@ != signers@[b].id@,
        decreases signers@.len() - i,
    {
        let mut j: usize = 0;
        while j < i
            invariant
                i < signers@.len(),
                j <= i,
                forall|a: int, b: int| 0 <= a < b < i ==> signers@[a].id@ != signers@[b].id@,
                forall|a: int| 0 <= a < j ==> signers@[a].id@ != signers@[i as int].id@,
            decreases i - j,
        {
            if same_id(&signers[j].id, &signers[i].id) {
                return false;
            }
            j = j + 1;
        }
        i = i + 1;
    }
    true
}

impl Scope {
    /// The weight required for actions of `class`.
    pub fn threshold(&self, class: ThresholdClass) -> (r: u64)
        ensures
            r as int == threshold_of(*self, class),
    {
        match class {
            ThresholdClass::Low => self.low,
            ThresholdClass::Medium => self.med,
            ThresholdClass::High => self.high,
        }
    }

    /// The weight of `signer` in this scope: 0 for a non-member.
    pub fn weight_of(&self, signer: &String) -> (r: u64)
        ensures
            r as int == signer_weight(self.signers@, signer@),
    {
        match signer_index(&self.signers, signer) {
            Some(i) => self.signers[i].weight,
            None => 0,
        }
    }
}

impl AuthorizationLedger {
    pub open spec fn scope(&self, scope_id: Seq<char>) -> Option<Scope> {
        find_by(self.scopes@, scope_key(), scope_id)
    }

    /// A ledger with no scope.
    pub fn new() -> (r: Self)
        ensures
            r.scopes@.len() == 0,
    {
        AuthorizationLedger { scopes: Vec::new() }
    }

    pub(crate) fn scope_index(&self, scope_id: &String) -> (r: Option<usize>)
        ensures
            match r {
                Some(i) => i < self.scopes@.len() && self.scopes@[i as int].scope_id@ == scope_id@
                    && (forall|j: int| 0 <= j < i ==> scope_key()(#[trigger] self.scopes@[j]) != scope_id@)
                    && self.scope(scope_id@) == Some(self.scopes@[i as int]),
                None => self.scope(scope_id@) is None,
            },
    {
        let mut i: usize = 0;
        while i < self.scopes.len()
            invariant
                i <= self.scopes@.len(),
                forall|j: int| 0 <= j < i ==> scope_key()(#[trigger] self.scopes@[j]) != scope_id@,
            decreases self.scopes@.len() - i,
        {
            if same_id(&self.scopes[i].scope_id, scope_id) {
                proof {
                    lemma_find_first(self.scopes@, scope_key(), scope_id@, i as int);
                }
                return Some(i);
            }
            i = i + 1;
        }
        proof {
            lemma_find_none(self.scopes@, scope_key(), scope_id@);
        }
        None
    }

    /// Creates or replaces the configuration of `scope_id`. A scope that is
    /// already configured may be replaced only by its owner; the thresholds must
    /// be ordered `low <= med <= high`, the signers distinct, and their weights
    /// must add up to at least `high`. On any error nothing changes.
    pub fn configure_scope(
        &mut self,
        scope_id: String,
        owner: String,
        signers: Vec<Signer>,
        low: u64,
        med: u64,
        high: u64,
    ) -> (r: Result<(), ContractError>)
        ensures
            r is Err <==> configure_error(old(self).scope(scope_id@), owner@, signers@, low, med, high) is Some,
            r is Err ==> r->Err_0 == configure_error(old(self).scope(scope_id@), owner@, signers@, low, med, high)->Some_0
                && *final(self) == *old(self),
            r is Ok ==> final(self).scope(scope_id@) == Some(
                Scope { scope_id, owner, signers, low, med, high },
            ),
            forall|k: Seq<char>| k != scope_id@ ==> #[trigger] final(self).scope(k) == old(self).scope(k),
    {
        let found = self.scope_index(&scope_id);
        if let Some(i) = found {
            if !same_id(&self.scopes[i].owner, &owner) {
                return Err(ContractError::Unauthorized);
            }
        }
        if low > med || med > high {
            return Err(ContractError::InvalidThresholds);
        }
        if !distinct_ids(&signers) {
            return Err(ContractError::DuplicateSigner);
        }
        if total_weight(&signers) < high as u128 {
            return Err(ContractError::UnreachableThreshold);
        }
        let ghost before = self.scopes@;
        let scope = Scope { scope_id, owner, signers, low, med, high };
        match found {
            Some(i) => {
                self.scopes.set(i, scope);
                proof {
                    assert forall|k: Seq<char>| true implies #[trigger] find_by(self.scopes@, scope_key(), k) == (if k == scope_key()(scope) {
                        Some(scope)
                    } else {
                        find_by(before, scope_key(), k)
                    }) by {
                        lemma_find_update(before, scope_key(), i as int, scope, k);
                    }
                }
            },
            None => {
                self.scopes.push(scope);
                proof {
                    assert forall|k: Seq<char>| true implies #[trigger] find_by(self.scopes@, scope_key(), k) == (if find_by(before, scope_key(), k) is Some {
                        find_by(before, scope_key(), k)
                    } else if scope_key()(scope) == k {
                        Some(scope)
                    } else {
                        None
                    }) by {
                        lemma_find_push(before, scope_key(), scope, k);
                    }
                }
            },
        }
        Ok(())
    }

    /// The weight of `signer` in `scope_id`: 0 where either is unknown.
    pub fn weight_of(&self, scope_id: &String, signer: &String) -> (r: u64)
        ensures
            r as int == match self.scope(scope_id@) {
                Some(s) => signer_weight(s.signers@, signer@),
                None => 0,
            },
    {
        match self.scope_index(scope_id) {
            Some(i) => self.scopes[i].weight_of(signer),
            None => 0,
        }
    }

    /// The weight that actions of `class` need in `scope_id`.
    pub fn threshold_for(&self, scope_id: &String, class: ThresholdClass) -> (r: Result<u64, ContractError>)
        ensures
            match self.scope(scope_id@) {
                Some(s) => r == Ok::<u64, ContractError>(threshold_of(s, class) as u64),
                None => r == Err::<u64, ContractError>(ContractError::ScopeNotFound),
            },
    {
        match self.scope_index(scope_id) {
            Some(i) => Ok(self.scopes[i].threshold(class)),
            None => Err(ContractError::ScopeNotFound),
        }
    }
}

} // verus!
