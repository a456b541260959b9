use vstd::prelude::*;
use crate::authorization::ThresholdClass;
use crate::errors::ContractError;
use crate::keyed::{find_by, lemma_find_first, lemma_find_none, lemma_find_push, lemma_find_update, same_id};
use crate::multisig_governance::MultisigGovernance;
use crate::proposals::{sign_effect, sign_result};

verus! {

/// Active: opened, no evidence yet; EvidenceOpen: evidence has come in;
/// Resolved: adjudicated, terminal.
#[derive(Clone, Copy, Debug, PartialEq, Eq, Structural)]
pub enum DisputeState {
    Active,
    EvidenceOpen,
    Resolved,
}

/// One piece of evidence, immutable once stored.
pub struct Evidence {
    pub submitter: String,
    pub content_ref: String,
    pub submitted_at: u64,
}

/// The outcome of an adjudication: the share (in percent) for the freelancer,
/// and the arbiter whose signature completed the quorum.
pub struct Resolution {
    pub split_ratio: u32,
    pub arbiter: String,
}

/// A contested escrow and everything submitted in it.
pub struct Dispute {
    pub case_id: String,
    pub disputer: String,
    pub state: DisputeState,
    pub evidence: Vec<Evidence>,
    pub resolution: Option<Resolution>,
}

/// The instruction handed to the payout executor once a case is resolved.
pub struct PayoutInstruction {
    pub case_id: String,
    pub split_ratio: u32,
    pub disputer: String,
}

/// What an adjudication call achieved.
pub enum AdjudicationOutcome {
    /// The signature was recorded; co-signers are still needed.
    Pending { accumulated_weight: u128 },
    /// The quorum was reached by this call and the case is resolved.
    Resolved(PayoutInstruction),
}

/// The dispute registry: every case, keyed by case id.
pub struct DisputeResolutionCourt {
    pub disputes: Vec<Dispute>,
}

pub open spec fn dispute_key() -> spec_fn(Dispute) -> Seq<char> {
    |d: Dispute| d.case_id@
}

/// The proposal under which arbiters sign the adjudication of `case_id`.
pub open spec fn adjudication_action(case_id: Seq<char>) -> Seq<char> {
    "dispute:"@ + case_id + ":adjudicate"@
}

/// Builds the action id `dispute:<case_id>:adjudicate`.
pub fn adjudication_action_id(case_id: &String) -> (r: String)
    ensures
        r@ == adjudication_action(case_id@),
{
    String::from_str("dispute:").concat(case_id.as_str()).concat(":adjudicate")
}

impl DisputeResolutionCourt {
    pub open spec fn dispute(&self, case_id: Seq<char>) -> Option<Dispute> {
        find_by(self.disputes@, dispute_key(), case_id)
    }

    /// A registry with no case.
    pub fn new() -> (r: Self)
        ensures
            r.disputes@.len() == 0,
    {
        DisputeResolutionCourt { disputes: Vec::new() }
    }

    fn dispute_index(&self, case_id: &String) -> (r: Option<usize>)
        ensures
            match r {
                Some(i) => i < self.disputes@.len() && self.disputes@[i as int].case_id@ == case_id@
                    && (forall|j: int| 0 <= j < i ==> dispute_key()(#[trigger] self.disputes@[j]) != case_id@)
                    && self.dispute(case_id@) == Some(self.disputes@[i as int]),
                None => self.dispute(case_id@) is None,
            },
    {
        let mut i: usize = 0;
        while i < self.disputes.len()
            invariant
                i <= self.disputes@.len(),
                forall|j: int| 0 <= j < i ==> dispute_key()(#[trigger] self.disputes@[j]) != case_id@,
            decreases self.disputes@.len() - i,
        {
            if same_id(&self.disputes[i].case_id, case_id) {
                proof {
                    lemma_find_first(self.disputes@, dispute_key(), case_id@, i as int);
                }
                return Some(i);
            }
            i = i + 1;
        }
        proof {
            lemma_find_none(self.disputes@, dispute_key(), case_id@);
        }
        None
    }

    /// Puts `d` back at `i`, where it was taken out of `before`.
    fn reinsert(&mut self, i: usize, d: Dispute, Ghost(before): Ghost<Seq<Dispute>>)
        requires
            i < before.len(),
            old(self).disputes@ == before.remove(i as int),
            d.case_id@ == before[i as int].case_id@,
            forall|j: int| 0 <= j < i ==> dispute_key()(#[trigger] before[j]) != d.case_id@,
        ensures
            find_by(final(self).disputes@, dispute_key(), d.case_id@) == Some(d),
            forall|k: Seq<char>| k != d.case_id@ ==> #[trigger] find_by(final(self).disputes@, dispute_key(), k) == find_by(before, dispute_key(), k),
    {
        let ghost nd = d;
        self.disputes.insert(i, d);
        proof {
            assert(self.disputes@ =~= before.update(i as int, nd));
            assert forall|k: Seq<char>| true implies #[trigger] find_by(self.disputes@, dispute_key(), k) == (if k == dispute_key()(nd) {
                Some(nd)
            } else {
                find_by(before, dispute_key(), k)
            }) by {
                lemma_find_update(before, dispute_key(), i as int, nd, k);
            }
        }
    }

    /// Opens a case in state Active, with no evidence. Fails with
    /// `DuplicateCase`, changing nothing, if the case id is taken.
    pub fn initiate_dispute(&mut self, case_id: String, disputer: String) -> (r: Result<(), ContractError>)
        ensures
            old(self).dispute(case_id@) is Some ==> r == Err::<(), ContractError>(ContractError::DuplicateCase)
                && *final(self) == *old(self),
            old(self).dispute(case_id@) is None ==> r is Ok && final(self).dispute(case_id@) is Some && ({
                let d = final(self).dispute(case_id@)->Some_0;
                &&& d.case_id@ == case_id@
                &&& d.disputer@ == disputer@
                &&& d.state == DisputeState::Active
                &&& d.evidence@.len() == 0
                &&& d.resolution is None
            }),
            forall|k: Seq<char>| k != case_id@ ==> #[trigger] final(self).dispute(k) == old(self).dispute(k),
    {
        if self.dispute_index(&case_id).is_some() {
            return Err(ContractError::DuplicateCase);
        }
        let ghost before = self.disputes@;
        let d = Dispute {
            case_id,
            disputer,
            state: DisputeState::Active,
            evidence: Vec::new(),
            resolution: None,
        };
        let ghost nd = d;
        self.disputes.push(d);
        proof {
            assert forall|k: Seq<char>| true implies #[trigger] find_by(self.disputes@, dispute_key(), k) == (if find_by(before, dispute_key(), k) is Some {
                find_by(before, dispute_key(), k)
            } else if dispute_key()(nd) == k {
                Some(nd)
            } else {
                None
            }) by {
                lemma_find_push(before, dispute_key(), nd, k);
            }
        }
        Ok(())
    }

    /// Appends evidence to an open case; its first evidence moves it from
    /// Active to EvidenceOpen. Fails with `CaseNotFound` or, on a resolved case,
    /// `CaseClosed`, changing nothing.
    pub fn submit_evidence(
        &mut self,
        case_id: &String,
        submitter: String,
        content_ref: String,
        submitted_at: u64,
    ) -> (r: Result<(), ContractError>)
        ensures
            ({
                let prior = old(self).dispute(case_id@);
                if prior is None {
                    r == Err::<(), ContractError>(ContractError::CaseNotFound) && *final(self) == *old(self)
                } else if prior->Some_0.state == DisputeState::Resolved {
                    r == Err::<(), ContractError>(ContractError::CaseClosed) && *final(self) == *old(self)
                } else {
                    let d = prior->Some_0;
                    &&& r is Ok
                    &&& final(self).dispute(case_id@) == Some(
                        Dispute {
                            state: DisputeState::EvidenceOpen,
                            evidence: final(self).dispute(case_id@)->Some_0.evidence,
                            ..d
                        },
                    )
                    &&& final(self).dispute(case_id@)->Some_0.evidence@ == d.evidence@.push(
                        Evidence { submitter, content_ref, submitted_at },
                    )
                }
            }),
            forall|k: Seq<char>| k != case_id@ ==> #[trigger] final(self).dispute(k) == old(self).dispute(k),
    {
        let i = match self.dispute_index(case_id) {
            Some(i) => i,
            None => return Err(ContractError::CaseNotFound),
        };
        if self.disputes[i].state == DisputeState::Resolved {
            return Err(ContractError::CaseClosed);
        }
        let ghost before = self.disputes@;
        let mut d = self.disputes.remove(i);
        d.evidence.push(Evidence { submitter, content_ref, submitted_at });
        d.state = DisputeState::EvidenceOpen;
        self.reinsert(i, d, Ghost(before));
        Ok(())
    }

    /// An arbiter's signature on the adjudication of `case_id` with the given
    /// split. The ratio is checked first, then that the case exists and is not
    /// resolved, all before anything is touched. The signature then goes to the
    /// proposal `dispute:<case_id>:adjudicate` against the High threshold of
    /// `scope_id`. Without quorum the case is left as it is; the call that
    /// reaches the quorum resolves the case with its own ratio and arbiter and
    /// returns the payout instruction.
    pub fn adjudicate(
        &mut self,
        governance: &mut MultisigGovernance,
        case_id: &String,
        split_ratio: u32,
        arbiter: String,
        scope_id: &String,
    ) -> (r: Result<AdjudicationOutcome, ContractError>)
        ensures
            ({
                let d = old(self).dispute(case_id@);
                let action = adjudication_action(case_id@);
                let s = sign_result(
                    old(governance).proposals,
                    old(governance).ledger,
                    action,
                    scope_id@,
                    ThresholdClass::High,
                    arbiter@,
                );
                if split_ratio > 100 {
                    r == Err::<AdjudicationOutcome, ContractError>(ContractError::InvalidRatio)
                        && *final(self) == *old(self) && *final(governance) == *old(governance)
                } else if d is None {
                    r == Err::<AdjudicationOutcome, ContractError>(ContractError::CaseNotFound)
                        && *final(self) == *old(self) && *final(governance) == *old(governance)
                } else if d->Some_0.state == DisputeState::Resolved {
                    r == Err::<AdjudicationOutcome, ContractError>(ContractError::AlreadyResolved)
                        && *final(self) == *old(self) && *final(governance) == *old(governance)
                } else {
                    &&& final(governance).ledger == old(governance).ledger
                    &&& sign_effect(
                        old(governance).proposals,
                        final(governance).proposals,
                        old(governance).ledger,
                        action,
                        scope_id@,
                        ThresholdClass::High,
                        arbiter@,
                    )
                    &&& if s is Err {
                        r == Err::<AdjudicationOutcome, ContractError>(s->Err_0) && *final(self) == *old(self)
                    } else if !s->Ok_0.quorum_reached {
                        &&& r == Ok::<AdjudicationOutcome, ContractError>(
                            AdjudicationOutcome::Pending { accumulated_weight: s->Ok_0.accumulated_weight },
                        )
                        &&& *final(self) == *old(self)
                    } else {
                        &&& r is Ok
                        &&& r->Ok_0 matches AdjudicationOutcome::Resolved(p) && p.case_id@ == case_id@
                            && p.split_ratio == split_ratio && p.disputer@ == d->Some_0.disputer@
                        &&& final(self).dispute(case_id@) == Some(
                            Dispute {
                                state: DisputeState::Resolved,
                                resolution: Some(Resolution { split_ratio, arbiter }),
                                ..d->Some_0
                            },
                        )
                    }
                }
            }),
            forall|k: Seq<char>| k != case_id@ ==> #[trigger] final(self).dispute(k) == old(self).dispute(k),
    {
        if split_ratio > 100 {
            return Err(ContractError::InvalidRatio);
        }
        let i = match self.dispute_index(case_id) {
            Some(i) => i,
            None => return Err(ContractError::CaseNotFound),
        };
        if self.disputes[i].state == DisputeState::Resolved {
            return Err(ContractError::AlreadyResolved);
        }
        let action_id = adjudication_action_id(case_id);
        let outcome = match governance.sign(action_id, scope_id, ThresholdClass::High, arbiter.clone()) {
            Ok(o) => o,
            Err(e) => return Err(e),
        };
        if !outcome.quorum_reached {
            return Ok(AdjudicationOutcome::Pending { accumulated_weight: outcome.accumulated_weight });
        }
        let payout = PayoutInstruction {
            case_id: case_id.clone(),
            split_ratio,
            disputer: self.disputes[i].disputer.clone(),
        };
        match self.finalize(case_id, split_ratio, arbiter) {
            Ok(()) => Ok(AdjudicationOutcome::Resolved(payout)),
            Err(e) => Err(e),
        }
    }

    /// The state of `case_id`, `None` for an unknown case.
    pub fn state_of(&self, case_id: &String) -> (r: Option<DisputeState>)
        ensures
            r == match self.dispute(case_id@) {
                Some(d) => Some(d.state),
                None => None::<DisputeState>,
            },
    {
        match self.dispute_index(case_id) {
            Some(i) => Some(self.disputes[i].state),
            None => None,
        }
    }

    /// The content references of the evidence of `case_id`, in submission order.
    pub fn evidence_refs(&self, case_id: &String) -> (r: Option<Vec<String>>)
        ensures
            match self.dispute(case_id@) {
                Some(d) => r is Some && r->Some_0@.len() == d.evidence@.len() && forall|j: int|
                    0 <= j < d.evidence@.len() ==> #[trigger] r->Some_0@[j]@ == d.evidence@[j].content_ref@,
                None => r is None,
            },
    {
        let i = match self.dispute_index(case_id) {
            Some(i) => i,
            None => return None,
        };
        let evidence = &self.disputes[i].evidence;
        let mut refs: Vec<String> = Vec::new();
        let mut j: usize = 0;
        while j < evidence.len()
            invariant
                j <= evidence@.len(),
                refs@.len() == j,
                forall|a: int| 0 <= a < j ==> #[trigger] refs@[a]@ == evidence@[a].content_ref@,
            decreases evidence@.len() - j,
        {
            refs.push(evidence[j].content_ref.clone());
            j = j + 1;
        }
        Some(refs)
    }

    /// The ratio and the arbiter that resolved `case_id`, `None` while it is unresolved or unknown.
    pub fn resolution_of(&self, case_id: &String) -> (r: Option<(u32, String)>)
        ensures
            match self.dispute(case_id@) {
                Some(d) => match d.resolution {
                    Some(res) => r is Some && r->Some_0.0 == res.split_ratio && r->Some_0.1@ == res.arbiter@,
                    None => r is None,
                },
                None => r is None,
            },
    {
        let i = match self.dispute_index(case_id) {
            Some(i) => i,
            None => return None,
        };
        match &self.disputes[i].resolution {
            Some(res) => Some((res.split_ratio, res.arbiter.clone())),
            None => None,
        }
    }

    /// Records the resolution of `case_id`. Fails with `InvalidRatio` if
    /// `split_ratio` exceeds 100, `CaseNotFound`, or `AlreadyResolved` on a
    /// second attempt; on failure nothing changes, so the first resolution stays.
    pub(crate) fn finalize(&mut self, case_id: &String, split_ratio: u32, arbiter: String) -> (r: Result<
        (),
        ContractError,
    >)
        ensures
            r == finalize_result(*old(self), case_id@, split_ratio),
            r is Err ==> *final(self) == *old(self),
            r is Ok ==> final(self).dispute(case_id@) == Some(
                Dispute {
                    state: DisputeState::Resolved,
                    resolution: Some(Resolution { split_ratio, arbiter }),
                    ..old(self).dispute(case_id@)->Some_0
                },
            ),
            forall|k: Seq<char>| k != case_id@ ==> #[trigger] final(self).dispute(k) == old(self).dispute(k),
    {
        if split_ratio > 100 {
            return Err(ContractError::InvalidRatio);
        }
        let i = match self.dispute_index(case_id) {
            Some(i) => i,
            None => return Err(ContractError::CaseNotFound),
        };
        if self.disputes[i].state == DisputeState::Resolved {
            return Err(ContractError::AlreadyResolved);
        }
        let ghost before = self.disputes@;
        let mut d = self.disputes.remove(i);
        d.state = DisputeState::Resolved;
        d.resolution = Some(Resolution { split_ratio, arbiter });
        self.reinsert(i, d, Ghost(before));
        Ok(())
    }
}

/// A case is resolved at most once: on a resolved case every further
/// finalisation fails (with `AlreadyResolved` for a valid ratio), and the
/// failing call leaves the first resolution in place.
pub proof fn lemma_resolution_is_final(court: DisputeResolutionCourt, case_id: Seq<char>, split_ratio: u32)
    requires
        court.dispute(case_id) is Some,
        court.dispute(case_id)->Some_0.state == DisputeState::Resolved,
    ensures
        finalize_result(court, case_id, split_ratio) is Err,
        split_ratio <= 100 ==> finalize_result(court, case_id, split_ratio) == Err::<(), ContractError>(
            ContractError::AlreadyResolved,
        ),
{
}

/// What `finalize` returns on a registry.
pub open spec fn finalize_result(court: DisputeResolutionCourt, case_id: Seq<char>, split_ratio: u32) -> Result<
    (),
    ContractError,
> {
    if split_ratio > 100 {
        Err(ContractError::InvalidRatio)
    } else if court.dispute(case_id) is None {
        Err(ContractError::CaseNotFound)
    } else if court.dispute(case_id)->Some_0.state == DisputeState::Resolved {
        Err(ContractError::AlreadyResolved)
    } else {
        Ok(())
    }
}

} // verus!
