use dytallix_fast_node::block_meter::{FeeProfile, PriceEntry, RecoveryCeilings, SharedBlockMeter};
use dytallix_fast_node::ordinary_fee_settlement::{
    plan_fee_accounting, AccountingEnd, AccountingTrace, ActionDisposition, ActionWork, ApplicationRule, BookAccount,
    FeeHistory, FeeReceipt, OrdinaryRequest, OrdinaryTerms, Outcome, PlanError, PlanningResult, PlanningState,
    Preacceptance, RetainedProfile, RetainedReceipt, retain_runtime_receipt,
};
use dytallix_fast_node::transaction_meter::{MeterSummary, OrdinaryMeter};
use dytallix_fast_node::ordinary_meter::{LogicalField, LogicalRecord, LogicalValue};
use dytallix_fast_node::transaction_meter::{ActionKind, MeteredBody, WireEncoding};

fn profile() -> FeeProfile {
    FeeProfile {
        valid: true,
        digest: [7; 32],
        max_block_transaction_gas: 10_000,
        max_block_transaction_bytes: 1_000_000,
        max_block_signature_checks: 100,
        wire_byte_cost: 0,
        transaction_overhead: 2,
        read_byte_cost: 0,
        write_byte_cost: 0,
        receipt_metadata_cost: 5,
        minimum_gas: 1,
        gas_price: 2,
        action_costs: [10; 12],
        signature_costs: vec![PriceEntry { algorithm: "mldsa65".to_string(), cost: 3 }],
        validator_proof_costs: vec![PriceEntry { algorithm: "mldsa65".to_string(), cost: 4 }],
    }
}

fn block(p: &FeeProfile) -> SharedBlockMeter {
    SharedBlockMeter::new(p, RecoveryCeilings { max_gas: 10_000, max_bytes: 1_000_000, max_signatures: 100, mandatory_expiry_gas: 100 })
        .unwrap()
}

fn terms() -> OrdinaryTerms {
    OrdinaryTerms { contract_version: 1, profile_version: 1, profile_digest: [8; 32], activation_height: 1, max_actions: 16 }
}

fn request(actions: Vec<ActionKind>, gas_limit: u64) -> OrdinaryRequest {
    OrdinaryRequest {
        body: MeteredBody {
            gas_limit,
            algorithm: "mldsa65".to_string(),
            actions,
            wire: WireEncoding::Bytes(100),
            request_valid: true,
        },
        transaction_id: [1; 32],
        envelope_hash: [2; 32],
        actor: [3; 32],
        spending_nonce: 0,
        maximum_fee: 2000,
        binding_matches: true,
    }
}

fn state(deferred: Vec<(u16, u64)>) -> PlanningState {
    PlanningState {
        book_height: 5,
        accounts: vec![BookAccount { id: [3; 32], spending_nonce: 0 }],
        mirrors_valid: true,
        grants_valid: true,
        balance_entries: 1,
        eligible_entries: 1,
        nonce_entries: 1,
        eligible_consistent: true,
        payer_balance: 10_000,
        payer_eligible: 10_000,
        withheld_udrt: 0,
        request_matches: true,
        requirements: Ok(vec![(2000, 10_000)]),
        preacceptance: Ok(Preacceptance { registry_requirements: 0, deferred_claims: deferred, nonce_after: 1 }),
        snapshot_digest: [9; 32],
    }
}

fn empty_history() -> FeeHistory {
    FeeHistory { receipts: Vec::new(), profiles: Vec::new() }
}

fn record(key: &[u8]) -> LogicalRecord {
    LogicalRecord::new(key, &[LogicalField { id: 1, value: LogicalValue::U64(1) }], 10_000).unwrap()
}

fn trace(count: usize) -> AccountingTrace {
    AccountingTrace {
        validation_reads: vec![record(b"account")],
        actions: (0..count)
            .map(|_| ActionWork { reads: vec![record(b"state")], writes: vec![record(b"state")], end: AccountingEnd::Applied })
            .collect(),
    }
}

fn prepared(result: Result<PlanningResult, PlanError>) -> dytallix_fast_node::ordinary_fee_settlement::FeePlan {
    match result {
        Ok(PlanningResult::Prepared(plan)) => plan,
        Ok(PlanningResult::ExactRetainedRetry(_)) => panic!("unexpected retry"),
        Err(e) => panic!("unexpected error {e:?}"),
    }
}

#[test]
fn measured_success_releases_cap_and_keeps_supply() {
    let p = profile();
    let (result, meter) =
        plan_fee_accounting(&p, &request(vec![ActionKind::Data], 1000), &state(Vec::new()), &empty_history(), &terms(), 5, 0, &trace(1), block(&p));
    let plan = prepared(result);
    let r = plan.receipt;
    assert_eq!(r.outcome, Outcome::Success);
    assert_eq!(r.gas_used, 2 + 3 + 5 + 10);
    assert_eq!(r.charge, 40);
    assert_eq!(r.released_cap, 2000 - 40);
    assert_eq!((r.nonce_before, r.nonce_after), (0, 1));
    assert_eq!(plan.disposition, ActionDisposition::KeepProposed);
    assert!(plan.grants_advance);
    assert!(!plan.is_executable());
    assert_eq!(plan.checkpoint.balance + r.charge, 10_000);
    assert_eq!(plan.checkpoint.withheld_udrt, 40);
    assert_eq!(plan.history.receipts.len(), 1);
    assert_eq!(plan.history.profiles.len(), 1);
    assert_eq!(plan.history.validate(), Ok(()));
    assert_eq!(meter.usage().gas, r.gas_used);
}

#[test]
fn immature_claim_is_measured_failure_and_discards_grants() {
    let p = profile();
    let (result, _) = plan_fee_accounting(
        &p,
        &request(vec![ActionKind::Data, ActionKind::DmsClaim], 1000),
        &state(vec![(1, 9)]),
        &empty_history(),
        &terms(),
        5,
        0,
        &trace(2),
        block(&p),
    );
    let plan = prepared(result);
    assert_eq!(plan.receipt.outcome, Outcome::ApplicationFailure);
    assert_eq!(plan.receipt.failing_action, Some(1));
    assert_eq!(plan.receipt.rule_class, Some(ApplicationRule::InactivityDelay.class()));
    assert_eq!(plan.receipt.rule_code, Some("DMS_INACTIVITY_DELAY"));
    assert_eq!(plan.receipt.failure_phase, Some("action"));
    assert_eq!(plan.disposition, ActionDisposition::DiscardAll);
    assert!(!plan.grants_advance);
}

#[test]
fn accepted_out_of_gas_charges_the_limit_once() {
    let p = profile();
    let (result, _) =
        plan_fee_accounting(&p, &request(vec![ActionKind::Data], 15), &state(Vec::new()), &empty_history(), &terms(), 5, 0, &trace(1), block(&p));
    let plan = prepared(result);
    assert_eq!(plan.receipt.outcome, Outcome::OutOfGas);
    assert_eq!(plan.receipt.gas_used, 15);
    assert_eq!(plan.receipt.charge, 30);
    assert_eq!(plan.receipt.rule_code, Some("OUT_OF_GAS"));
    assert_eq!(plan.receipt.failing_action, Some(0));
}

#[test]
fn exact_retained_retry_returns_old_receipt_and_other_positions_are_rejected() {
    let p = profile();
    let (result, _) =
        plan_fee_accounting(&p, &request(vec![ActionKind::Data], 1000), &state(Vec::new()), &empty_history(), &terms(), 5, 0, &trace(1), block(&p));
    let plan = prepared(result);
    let mut st = state(Vec::new());
    st.accounts[0].spending_nonce = 1;
    let (again, meter) = plan_fee_accounting(&p, &request(vec![ActionKind::Data], 1000), &st, &plan.history, &terms(), 5, 0, &trace(1), block(&p));
    match again {
        Ok(PlanningResult::ExactRetainedRetry(r)) => assert_eq!(r, plan.receipt),
        _ => panic!("expected the retained receipt"),
    }
    assert_eq!(meter.usage().gas, 0);
    let (moved, _) = plan_fee_accounting(&p, &request(vec![ActionKind::Data], 1000), &st, &plan.history, &terms(), 5, 1, &trace(1), block(&p));
    assert_eq!(moved.err(), Some(PlanError::Rejected("Ordinary transaction ID already accepted")));
    let (behind, _) = plan_fee_accounting(&p, &request(vec![ActionKind::Data], 1000), &state(Vec::new()), &plan.history, &terms(), 5, 0, &trace(1), block(&p));
    assert_eq!(behind.err(), Some(PlanError::Internal("Retained receipt is ahead of the staged authority checkpoint")));
}

#[test]
fn planning_refusals_come_in_order() {
    let p = profile();
    let mut unbound = request(vec![ActionKind::Data], 1000);
    unbound.binding_matches = false;
    let (r, _) = plan_fee_accounting(&p, &unbound, &state(Vec::new()), &empty_history(), &terms(), 5, 0, &trace(1), block(&p));
    assert_eq!(r.err(), Some(PlanError::Rejected("Ordinary fee profile binding or activation mismatch")));
    let mut poor = state(Vec::new());
    poor.requirements = Ok(vec![(2000, 1999)]);
    let (r, _) = plan_fee_accounting(&p, &request(vec![ActionKind::Data], 1000), &poor, &empty_history(), &terms(), 5, 0, &trace(1), block(&p));
    assert_eq!(r.err(), Some(PlanError::Rejected("Current eligible liquidity cannot fund signed cap and action debits")));
    let (r, _) = plan_fee_accounting(&p, &request(vec![ActionKind::Data], 1000), &state(Vec::new()), &empty_history(), &terms(), 5, 0, &trace(2), block(&p));
    assert_eq!(r.err(), Some(PlanError::Internal("Accounting trace must cover the complete signed action list")));
    let mut faulty = trace(1);
    faulty.actions[0].end = AccountingEnd::InternalFault;
    let (r, _) = plan_fee_accounting(&p, &request(vec![ActionKind::Data], 1000), &state(Vec::new()), &empty_history(), &terms(), 5, 0, &faulty, block(&p));
    assert_eq!(r.err(), Some(PlanError::Internal("Unclassified application failure stops block preparation")));
    let mut registry = state(Vec::new());
    registry.preacceptance = Ok(Preacceptance { registry_requirements: 1, deferred_claims: Vec::new(), nonce_after: 1 });
    let (r, _) = plan_fee_accounting(&p, &request(vec![ActionKind::Data], 1000), &registry, &empty_history(), &terms(), 5, 0, &trace(1), block(&p));
    assert!(matches!(r, Err(PlanError::IntegrationUnavailable(_))));
}

fn retained(receipt: FeeReceipt) -> FeeHistory {
    FeeHistory {
        receipts: vec![RetainedReceipt { key: receipt.transaction_id, receipt, request_valid: true }],
        profiles: vec![RetainedProfile {
            key: [8; 32],
            digest: [8; 32],
            contract_version: 1,
            version: 1,
            receipt_metadata_cost: 5,
            minimum_gas: 1,
            gas_price: 2,
        }],
    }
}

fn good_receipt() -> FeeReceipt {
    FeeReceipt {
        version: 1,
        transaction_id: [1; 32],
        envelope_hash: [2; 32],
        actor: [3; 32],
        block_height: 5,
        block_index: 0,
        contract_version: 1,
        profile_version: 1,
        profile_digest: [8; 32],
        outcome: Outcome::Success,
        failing_action: None,
        failure_phase: None,
        rule_class: None,
        rule_code: None,
        gas_limit: 1000,
        gas_used: 20,
        metadata_gas: 5,
        reserved_cap: 2000,
        charge: 40,
        released_cap: 1960,
        nonce_before: 0,
        nonce_after: 1,
    }
}

#[test]
fn history_validation_names_each_broken_invariant() {
    assert_eq!(retained(good_receipt()).validate(), Ok(()));
    let mut wrong_charge = good_receipt();
    wrong_charge.charge = 41;
    assert_eq!(retained(wrong_charge).validate(), Err(PlanError::Internal("Retained ordinary fee conservation failed")));
    let mut unclassified = good_receipt();
    unclassified.rule_code = Some("OUT_OF_GAS");
    assert_eq!(retained(unclassified).validate(), Err(PlanError::Internal("Retained ordinary failure classification invalid")));
    let mut nonce = good_receipt();
    nonce.nonce_after = 2;
    assert_eq!(retained(nonce).validate(), Err(PlanError::Internal("Retained ordinary receipt invariant failed")));
    let mut h = retained(good_receipt());
    h.profiles[0].digest = [0; 32];
    assert_eq!(h.validate(), Err(PlanError::Internal("Retained fee profile digest mismatch")));
    let mut twice = retained(good_receipt());
    let mut second = good_receipt();
    second.transaction_id = [4; 32];
    twice.receipts.push(RetainedReceipt { key: [4; 32], receipt: second, request_valid: true });
    assert_eq!(twice.validate(), Err(PlanError::Internal("Retained ordinary receipt invariant failed")));
    let mut missing = retained(good_receipt());
    missing.profiles.clear();
    assert_eq!(missing.validate(), Err(PlanError::Internal("Retained receipt requires missing profile")));
}


fn summary_after(actions: usize, processed: usize) -> MeterSummary {
    let p = profile();
    let req = request(vec![ActionKind::Data; actions], 1000);
    let mut meter = OrdinaryMeter::new(&p, &req.body, block(&p)).ok().unwrap();
    meter.ordinary_signature().unwrap();
    meter.accept().unwrap();
    for i in 0..processed {
        meter.action(i as u16).unwrap();
    }
    meter.finish().0.unwrap()
}

#[test]
fn runtime_receipt_is_retained_with_its_profile() {
    let p = profile();
    let req = request(vec![ActionKind::Data], 1000);
    let summary = summary_after(1, 1);
    let used = summary.used_gas();
    let (history, receipt) =
        retain_runtime_receipt(&empty_history(), &req, &p, &terms(), &summary, 5, 3, Outcome::Success, None).unwrap();
    assert_eq!(receipt.charge, u128::from(used) * 2);
    assert_eq!(receipt.released_cap, 2000 - receipt.charge);
    assert_eq!((receipt.block_height, receipt.block_index), (5, 3));
    assert_eq!((receipt.nonce_before, receipt.nonce_after), (0, 1));
    assert_eq!(receipt.failing_action, None);
    assert_eq!(history.receipts.len(), 1);
    assert_eq!(history.receipts[0].key, [1; 32]);
    assert_eq!(history.profiles.len(), 1);
    assert_eq!(history.profiles[0].key, [8; 32]);
    // The same transaction cannot be retained twice.
    assert_eq!(
        retain_runtime_receipt(&history, &req, &p, &terms(), &summary, 5, 4, Outcome::Success, None).err(),
        Some(PlanError::Internal("Invalid runtime receipt predecessor"))
    );
}

#[test]
fn runtime_receipt_refuses_an_outcome_the_meter_did_not_reach() {
    let p = profile();
    let req = request(vec![ActionKind::Data, ActionKind::Data], 1000);
    let summary = summary_after(2, 1);
    // Success needs every action processed; out of gas needs an exhausted meter.
    assert_eq!(
        retain_runtime_receipt(&empty_history(), &req, &p, &terms(), &summary, 5, 0, Outcome::Success, None).err(),
        Some(PlanError::Internal("Invalid runtime receipt predecessor"))
    );
    assert_eq!(
        retain_runtime_receipt(
            &empty_history(),
            &req,
            &p,
            &terms(),
            &summary,
            5,
            0,
            Outcome::OutOfGas,
            Some((1, "ACTION", "", "OUT_OF_GAS"))
        )
        .err(),
        Some(PlanError::Internal("Invalid runtime receipt predecessor"))
    );
    let (_, failed) = retain_runtime_receipt(
        &empty_history(),
        &req,
        &p,
        &terms(),
        &summary,
        5,
        0,
        Outcome::ApplicationFailure,
        Some((1, "APPLICATION", "ACTION_STATE_PRECONDITION", "DMS_INACTIVITY_DELAY")),
    )
    .unwrap();
    assert_eq!(failed.failing_action, Some(1));
    assert_eq!(failed.rule_class, Some("ACTION_STATE_PRECONDITION"));
    let mut poor = request(vec![ActionKind::Data], 1000);
    poor.maximum_fee = 1;
    assert_eq!(
        retain_runtime_receipt(&empty_history(), &poor, &p, &terms(), &summary_after(1, 1), 5, 0, Outcome::Success, None)
            .err(),
        Some(PlanError::Internal("Charge exceeds cap"))
    );
}
