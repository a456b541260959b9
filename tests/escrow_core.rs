use escrow_contracts::authorization::{AuthorizationLedger, Signer, ThresholdClass};
use escrow_contracts::dispute_resolution::{
    adjudication_action_id, AdjudicationOutcome, DisputeResolutionCourt, DisputeState,
};
use escrow_contracts::errors::{ContractError, ErrorKind};
use escrow_contracts::gasless::GaslessHandler;
use escrow_contracts::multisig_governance::MultisigGovernance;
use escrow_contracts::proposals::{ProposalStatus, SignOutcome};
use escrow_contracts::rebalancer::LiquidityRebalancer;
use escrow_contracts::trustline::TrustlineHandler;
use escrow_contracts::upgrade_utils::UpgradeHandler;

fn s(text: &str) -> String {
    text.to_string()
}

fn signer(id: &str, weight: u64) -> Signer {
    Signer { id: s(id), weight }
}

fn three_signer_governance() -> MultisigGovernance {
    let mut gov = MultisigGovernance::new();
    let signers = vec![signer("A", 1), signer("B", 1), signer("C", 1)];
    gov.configure_multisig(s("S"), s("owner"), signers, 1, 2, 2).unwrap();
    gov
}

#[test]
fn quorum_scenario_two_of_three() {
    let mut gov = three_signer_governance();
    let mut court = DisputeResolutionCourt::new();
    court.initiate_dispute(s("7"), s("client")).unwrap();

    let first = court.adjudicate(&mut gov, &s("7"), 60, s("A"), &s("S")).unwrap();
    match first {
        AdjudicationOutcome::Pending { accumulated_weight } => assert_eq!(accumulated_weight, 1),
        AdjudicationOutcome::Resolved(_) => panic!("quorum reached too early"),
    }
    assert_eq!(court.state_of(&s("7")), Some(DisputeState::Active));

    let second = court.adjudicate(&mut gov, &s("7"), 60, s("B"), &s("S")).unwrap();
    match second {
        AdjudicationOutcome::Resolved(p) => {
            assert_eq!(p.case_id, "7");
            assert_eq!(p.split_ratio, 60);
            assert_eq!(p.disputer, "client");
        }
        AdjudicationOutcome::Pending { .. } => panic!("quorum not reached"),
    }
    assert_eq!(court.state_of(&s("7")), Some(DisputeState::Resolved));
    assert_eq!(court.resolution_of(&s("7")), Some((60, s("B"))));

    let third = court.adjudicate(&mut gov, &s("7"), 40, s("C"), &s("S"));
    assert!(matches!(third, Err(ContractError::AlreadyResolved) | Err(ContractError::AlreadyExecuted)));
    assert_eq!(third.err().unwrap().kind(), ErrorKind::Conflict);
    assert_eq!(court.resolution_of(&s("7")), Some((60, s("B"))));
}

#[test]
fn evidence_scenario_keeps_order() {
    let mut court = DisputeResolutionCourt::new();
    court.initiate_dispute(s("case-1"), s("disputer")).unwrap();
    court.submit_evidence(&s("case-1"), s("disputer"), s("hash1"), 10).unwrap();
    court.submit_evidence(&s("case-1"), s("other"), s("hash2"), 11).unwrap();
    assert_eq!(court.state_of(&s("case-1")), Some(DisputeState::EvidenceOpen));
    assert_eq!(court.evidence_refs(&s("case-1")), Some(vec![s("hash1"), s("hash2")]));
}

#[test]
fn out_of_range_ratio_rejected_before_any_change() {
    let mut gov = three_signer_governance();
    let mut court = DisputeResolutionCourt::new();
    court.initiate_dispute(s("case-9"), s("client")).unwrap();
    let r = court.adjudicate(&mut gov, &s("case-9"), 150, s("A"), &s("S"));
    assert_eq!(r.err(), Some(ContractError::InvalidRatio));
    assert_eq!(ContractError::InvalidRatio.kind(), ErrorKind::InvalidInput);
    assert_eq!(gov.status(&adjudication_action_id(&s("case-9"))), None);
    assert_eq!(court.state_of(&s("case-9")), Some(DisputeState::Active));
}

#[test]
fn ratio_over_limit_fails_even_with_quorum_possible() {
    let mut gov = MultisigGovernance::new();
    gov.configure_multisig(s("solo"), s("owner"), vec![signer("A", 5)], 0, 1, 1).unwrap();
    let mut court = DisputeResolutionCourt::new();
    court.initiate_dispute(s("c"), s("client")).unwrap();
    assert_eq!(court.adjudicate(&mut gov, &s("c"), 101, s("A"), &s("solo")).err(), Some(ContractError::InvalidRatio));
    assert!(court.adjudicate(&mut gov, &s("c"), 100, s("A"), &s("solo")).is_ok());
    assert_eq!(court.resolution_of(&s("c")), Some((100, s("A"))));
}

#[test]
fn signing_order_does_not_change_weight() {
    let mut gov = MultisigGovernance::new();
    let signers = vec![signer("A", 3), signer("B", 5), signer("C", 7)];
    gov.configure_multisig(s("S"), s("owner"), signers, 1, 10, 15).unwrap();
    let mut other = MultisigGovernance::new();
    let signers = vec![signer("A", 3), signer("B", 5), signer("C", 7)];
    other.configure_multisig(s("S"), s("owner"), signers, 1, 10, 15).unwrap();

    let mut last = 0;
    for who in ["A", "B", "C"] {
        last = gov.sign(s("act"), &s("S"), ThresholdClass::High, s(who)).unwrap().accumulated_weight;
    }
    let mut last_other = 0;
    for who in ["C", "A", "B"] {
        last_other = other.sign(s("act"), &s("S"), ThresholdClass::High, s(who)).unwrap().accumulated_weight;
    }
    assert_eq!(last, 15);
    assert_eq!(last_other, 15);
}

#[test]
fn repeated_signature_is_not_counted_twice() {
    let mut gov = three_signer_governance();
    let first = gov.sign(s("act"), &s("S"), ThresholdClass::High, s("A")).unwrap();
    let again = gov.sign(s("act"), &s("S"), ThresholdClass::High, s("A")).unwrap();
    assert_eq!(first, SignOutcome { accumulated_weight: 1, quorum_reached: false });
    assert_eq!(again, SignOutcome { accumulated_weight: 1, quorum_reached: false });
    assert_eq!(gov.status(&s("act")), Some(ProposalStatus::Pending));
}

#[test]
fn quorum_reported_once_then_already_executed() {
    let mut gov = three_signer_governance();
    gov.sign(s("act"), &s("S"), ThresholdClass::Medium, s("A")).unwrap();
    let crossing = gov.sign(s("act"), &s("S"), ThresholdClass::Medium, s("B")).unwrap();
    assert_eq!(crossing, SignOutcome { accumulated_weight: 2, quorum_reached: true });
    assert_eq!(gov.status(&s("act")), Some(ProposalStatus::Executed));
    assert_eq!(gov.sign(s("act"), &s("S"), ThresholdClass::Medium, s("C")), Err(ContractError::AlreadyExecuted));
    assert_eq!(gov.sign(s("act"), &s("S"), ThresholdClass::Medium, s("A")), Err(ContractError::AlreadyExecuted));
}

#[test]
fn unknown_signer_contributes_nothing() {
    let mut gov = three_signer_governance();
    let r = gov.sign(s("act"), &s("S"), ThresholdClass::High, s("Z")).unwrap();
    assert_eq!(r, SignOutcome { accumulated_weight: 0, quorum_reached: false });
    assert_eq!(gov.ledger.weight_of(&s("S"), &s("Z")), 0);
    assert_eq!(gov.ledger.weight_of(&s("S"), &s("B")), 1);
}

#[test]
fn sign_against_unknown_scope_fails() {
    let mut gov = three_signer_governance();
    let r = gov.sign(s("act"), &s("missing"), ThresholdClass::Low, s("A"));
    assert_eq!(r, Err(ContractError::ScopeNotFound));
    assert_eq!(ContractError::ScopeNotFound.kind(), ErrorKind::NotFound);
    assert_eq!(gov.status(&s("act")), None);
    assert_eq!(gov.ledger.threshold_for(&s("missing"), ThresholdClass::High), Err(ContractError::ScopeNotFound));
}

#[test]
fn thresholds_are_looked_up_by_class() {
    let gov = three_signer_governance();
    assert_eq!(gov.ledger.threshold_for(&s("S"), ThresholdClass::Low), Ok(1));
    assert_eq!(gov.ledger.threshold_for(&s("S"), ThresholdClass::Medium), Ok(2));
    assert_eq!(gov.ledger.threshold_for(&s("S"), ThresholdClass::High), Ok(2));
}

#[test]
fn configure_rejects_unreachable_or_unordered_thresholds() {
    let mut ledger = AuthorizationLedger::new();
    let r = ledger.configure_scope(s("S"), s("o"), vec![signer("A", 1), signer("B", 1)], 1, 2, 3);
    assert_eq!(r, Err(ContractError::UnreachableThreshold));
    assert_eq!(ContractError::UnreachableThreshold.kind(), ErrorKind::UnreachableThreshold);
    let r = ledger.configure_scope(s("S"), s("o"), vec![signer("A", 5)], 3, 2, 4);
    assert_eq!(r, Err(ContractError::InvalidThresholds));
    let r = ledger.configure_scope(s("S"), s("o"), vec![signer("A", 5)], 1, 4, 3);
    assert_eq!(r, Err(ContractError::InvalidThresholds));
    let r = ledger.configure_scope(s("S"), s("o"), vec![signer("A", 5), signer("A", 1)], 1, 2, 3);
    assert_eq!(r, Err(ContractError::DuplicateSigner));
    assert_eq!(ledger.threshold_for(&s("S"), ThresholdClass::Low), Err(ContractError::ScopeNotFound));
    assert!(ledger.configure_scope(s("S"), s("o"), vec![signer("A", 1), signer("B", 2)], 1, 2, 3).is_ok());
}

#[test]
fn configure_accepts_weights_beyond_u64_sum() {
    let mut ledger = AuthorizationLedger::new();
    let signers = vec![signer("A", u64::MAX), signer("B", u64::MAX)];
    assert!(ledger.configure_scope(s("S"), s("o"), signers, u64::MAX, u64::MAX, u64::MAX).is_ok());
}

#[test]
fn reconfiguration_only_by_owner() {
    let mut gov = three_signer_governance();
    let r = gov.configure_multisig(s("S"), s("intruder"), vec![signer("X", 9)], 1, 1, 1);
    assert_eq!(r, Err(ContractError::Unauthorized));
    assert_eq!(ContractError::Unauthorized.kind(), ErrorKind::Unauthorized);
    assert_eq!(gov.ledger.weight_of(&s("S"), &s("X")), 0);
    gov.configure_multisig(s("S"), s("owner"), vec![signer("X", 9)], 1, 1, 9).unwrap();
    assert_eq!(gov.ledger.weight_of(&s("S"), &s("X")), 9);
    assert_eq!(gov.ledger.weight_of(&s("S"), &s("A")), 0);
    assert_eq!(gov.ledger.threshold_for(&s("S"), ThresholdClass::High), Ok(9));
}

#[test]
fn duplicate_case_is_rejected() {
    let mut court = DisputeResolutionCourt::new();
    court.initiate_dispute(s("c1"), s("p")).unwrap();
    assert_eq!(court.initiate_dispute(s("c1"), s("q")), Err(ContractError::DuplicateCase));
    assert_eq!(ContractError::DuplicateCase.kind(), ErrorKind::Conflict);
}

#[test]
fn evidence_on_missing_or_closed_case_fails() {
    let mut gov = MultisigGovernance::new();
    gov.configure_multisig(s("solo"), s("owner"), vec![signer("A", 1)], 1, 1, 1).unwrap();
    let mut court = DisputeResolutionCourt::new();
    assert_eq!(court.submit_evidence(&s("nope"), s("p"), s("h"), 1), Err(ContractError::CaseNotFound));
    assert_eq!(ContractError::CaseNotFound.kind(), ErrorKind::NotFound);
    court.initiate_dispute(s("c"), s("p")).unwrap();
    court.adjudicate(&mut gov, &s("c"), 30, s("A"), &s("solo")).unwrap();
    assert_eq!(court.submit_evidence(&s("c"), s("p"), s("h"), 2), Err(ContractError::CaseClosed));
    assert_eq!(court.evidence_refs(&s("c")), Some(vec![]));
    assert_eq!(court.evidence_refs(&s("nope")), None);
}

#[test]
fn adjudicating_unknown_case_fails_without_signature() {
    let mut gov = three_signer_governance();
    let mut court = DisputeResolutionCourt::new();
    let r = court.adjudicate(&mut gov, &s("ghost"), 50, s("A"), &s("S"));
    assert_eq!(r.err(), Some(ContractError::CaseNotFound));
    assert_eq!(gov.status(&adjudication_action_id(&s("ghost"))), None);
}

#[test]
fn adjudication_action_id_format() {
    assert_eq!(adjudication_action_id(&s("case-1")), "dispute:case-1:adjudicate");
}

#[test]
fn dispute_resolved_without_evidence() {
    let mut gov = three_signer_governance();
    let mut court = DisputeResolutionCourt::new();
    court.initiate_dispute(s("bare"), s("client")).unwrap();
    court.adjudicate(&mut gov, &s("bare"), 0, s("A"), &s("S")).unwrap();
    court.adjudicate(&mut gov, &s("bare"), 0, s("C"), &s("S")).unwrap();
    assert_eq!(court.state_of(&s("bare")), Some(DisputeState::Resolved));
    assert_eq!(court.resolution_of(&s("bare")), Some((0, s("C"))));
    assert_eq!(gov.status(&s("dispute:bare:adjudicate")), Some(ProposalStatus::Executed));
}

#[test]
fn peripheral_decisions() {
    assert_eq!(GaslessHandler::sponsor_transaction(s("AAAA")), Some(s("AAAA")));
    assert!(GaslessHandler::validate_sponsorship(&s("AAAA")));
    assert_eq!(LiquidityRebalancer::check_and_rebalance(150_000_000, 200_000_000, 500_000_000), Some(350_000_000));
    assert_eq!(LiquidityRebalancer::check_and_rebalance(150_000_000, 100_000_000, 500_000_000), None);
    assert_eq!(LiquidityRebalancer::check_and_rebalance(5, 5, 10), None);
    assert!(UpgradeHandler::check_protocol_version(21, 20));
    assert!(UpgradeHandler::check_protocol_version(21, 21));
    assert!(!UpgradeHandler::check_protocol_version(20, 21));
    assert!(UpgradeHandler::optimize_storage());
    let t = TrustlineHandler::setup_usdc_trustline(s("GUSER"));
    assert_eq!(t.asset_code, "USDC");
    assert_eq!(t.user, "GUSER");
    assert_eq!(t.asset_issuer, "GUSER");
}
