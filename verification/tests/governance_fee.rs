use dytallix_fast_node::block_meter::{FeeProfile, FeeProfileV3, PriceEntry, RecoveryCeilings, SharedBlockMeter};
use dytallix_fast_node::governance_v3_fee_settlement::{
    plan_governance_fee, ActionDisposition, ActionEnd, ActionWork, ContractTerms, GovernanceLedger,
    GovernanceRequest, Outcome, PlanError,
};
use dytallix_fast_node::governance_v3_meter::{GovernanceActionKind, MeteredGovernanceBody};
use dytallix_fast_node::ordinary_meter::{LogicalField, LogicalRecord, LogicalValue};
use dytallix_fast_node::transaction_meter::WireEncoding;

fn profile(minimum_gas: u64) -> FeeProfileV3 {
    FeeProfileV3 {
        digest: [9; 32],
        base: FeeProfile {
            valid: true,
            digest: [7; 32],
            max_block_transaction_gas: 1_000_000,
            max_block_transaction_bytes: 1_000_000,
            max_block_signature_checks: 100,
            wire_byte_cost: 1,
            transaction_overhead: 100,
            read_byte_cost: 2,
            write_byte_cost: 3,
            receipt_metadata_cost: 50,
            minimum_gas,
            gas_price: 2,
            action_costs: [10; 12],
            signature_costs: vec![PriceEntry { algorithm: "mldsa65".to_string(), cost: 300 }],
            validator_proof_costs: Vec::new(),
        },
        governance_action_costs: [400, 500, 600],
    }
}

fn block(p: &FeeProfileV3) -> SharedBlockMeter {
    SharedBlockMeter::new(
        &p.base,
        RecoveryCeilings { max_gas: 1000, max_bytes: 1000, max_signatures: 10, mandatory_expiry_gas: 1 },
    )
    .unwrap()
}

fn request(gas_limit: u64, maximum_fee: u128) -> GovernanceRequest {
    GovernanceRequest {
        body: MeteredGovernanceBody {
            gas_limit,
            algorithm: "mldsa65".to_string(),
            action: Some(GovernanceActionKind::Vote),
            wire: WireEncoding::Bytes(200),
            request_valid: true,
        },
        transaction_id: [1; 32],
        envelope_hash: [2; 32],
        actor: [3; 32],
        expiry_height: 20,
        maximum_fee,
        spending_nonce: 4,
        request_valid: true,
        proof_matches: true,
    }
}

fn ledger(balance: u128) -> GovernanceLedger {
    GovernanceLedger {
        staged_height: 10,
        account_count: 1,
        nonce_count: 1,
        balance_entries: 1,
        eligible_entries: 1,
        mirrors_valid: true,
        eligible_consistent: true,
        actor: [3; 32],
        actor_registered: true,
        authority_matches: true,
        balance,
        eligible: balance,
        withheld_udrt: 5,
    }
}

fn terms() -> ContractTerms {
    ContractTerms { max_expiry_lifetime: 100, contract_version: 1, profile_version: 3, profile_digest: [9; 32] }
}

fn record(key: &[u8], len: usize) -> LogicalRecord {
    LogicalRecord::new(key, &[LogicalField { id: 1, value: LogicalValue::Bytes(vec![0; len]) }], 10_000).unwrap()
}

fn work(end: ActionEnd) -> ActionWork {
    ActionWork {
        validation_reads: vec![record(b"acct", 10)],
        action_reads: vec![record(b"proposal", 20), record(b"acct", 10)],
        proposed_writes: vec![record(b"ballot", 15)],
        end,
    }
}

#[test]
fn success_reserves_full_cap_charges_measured_work_and_advances_the_nonce() {
    let p = profile(0);
    let (plan, meter) =
        plan_governance_fee(&p, &request(100_000, 100_000), &ledger(1_000_000), &terms(), 10, 2, &work(ActionEnd::Applied), block(&p));
    let plan = plan.unwrap();
    let used = plan.receipt.gas_used;
    assert_eq!(plan.receipt.outcome, Outcome::Success);
    assert_eq!(plan.receipt.failure_code, None);
    assert_eq!(plan.disposition, ActionDisposition::KeepProposed);
    assert_eq!(plan.receipt.charge, u128::from(used) * 2);
    assert_eq!(plan.receipt.released_cap, 100_000 - plan.receipt.charge);
    assert_eq!(plan.checkpoint.balance, 1_000_000 - plan.receipt.charge);
    assert_eq!(plan.checkpoint.eligible, 1_000_000 - plan.receipt.charge);
    assert_eq!(plan.checkpoint.withheld_udrt, 5 + plan.receipt.charge);
    assert_eq!((plan.receipt.nonce_before, plan.receipt.nonce_after, plan.checkpoint.nonce), (4, 5, 5));
    assert_eq!(plan.reservation.balance_while_reserved, 1_000_000 - 100_000);
    assert_eq!(plan.receipt.metadata_gas, 50);
    assert!(!meter.is_faulted());
    assert_eq!(meter.usage().gas, used);
}

#[test]
fn application_failure_keeps_fee_and_nonce_but_discards_proposed_effects() {
    let p = profile(0);
    let (plan, _) = plan_governance_fee(
        &p, &request(100_000, 100_000), &ledger(1_000_000), &terms(), 10, 2, &work(ActionEnd::ApplicationFailure), block(&p),
    );
    let plan = plan.unwrap();
    assert_eq!(plan.receipt.outcome, Outcome::ApplicationFailure);
    assert_eq!(plan.receipt.failure_code, Some("GOVERNANCE_APPLICATION_FAILURE"));
    assert_eq!(plan.disposition, ActionDisposition::DiscardAll);
    assert_eq!(plan.checkpoint.nonce, 5);
}

#[test]
fn minimum_gas_applies_to_charge_without_forging_measured_usage() {
    let p = profile(90_000);
    let (plan, _) =
        plan_governance_fee(&p, &request(100_000, 200_000), &ledger(1_000_000), &terms(), 10, 2, &work(ActionEnd::Applied), block(&p));
    let plan = plan.unwrap();
    assert!(plan.receipt.gas_used < 90_000);
    assert_eq!(plan.receipt.charge, 180_000);
}

#[test]
fn out_of_gas_after_acceptance_charges_the_signed_limit() {
    let p = profile(0);
    let measured = {
        let (plan, _) = plan_governance_fee(
            &p, &request(100_000, 100_000), &ledger(1_000_000), &terms(), 10, 2, &work(ActionEnd::Applied), block(&p),
        );
        plan.unwrap().receipt.gas_used
    };
    let limit = measured - 1;
    let (plan, _) =
        plan_governance_fee(&p, &request(limit, 100_000), &ledger(1_000_000), &terms(), 10, 2, &work(ActionEnd::Applied), block(&p));
    let plan = plan.unwrap();
    assert_eq!(plan.receipt.outcome, Outcome::OutOfGas);
    assert_eq!(plan.receipt.failure_code, Some("OUT_OF_GAS"));
    assert_eq!(plan.receipt.gas_used, limit);
    assert_eq!(plan.receipt.charge, u128::from(limit) * 2);
    assert_eq!(plan.disposition, ActionDisposition::DiscardAll);
}

#[test]
fn insufficient_full_cap_and_stale_checks_reject_before_meter_use() {
    let p = profile(0);
    let (plan, meter) =
        plan_governance_fee(&p, &request(100_000, 100_000), &ledger(99_999), &terms(), 10, 2, &work(ActionEnd::Applied), block(&p));
    assert_eq!(plan, Err(PlanError::Rejected("Insufficient uDRT balance for full signed fee cap")));
    assert_eq!(meter.usage().gas, 0);
    let (plan, _) =
        plan_governance_fee(&p, &request(100_000, 100_000), &ledger(1_000_000), &terms(), 11, 2, &work(ActionEnd::Applied), block(&p));
    assert_eq!(plan, Err(PlanError::Rejected("Governance staged recovery height differs")));
    let mut expired = request(100_000, 100_000);
    expired.expiry_height = 10;
    let (plan, _) = plan_governance_fee(&p, &expired, &ledger(1_000_000), &terms(), 10, 2, &work(ActionEnd::Applied), block(&p));
    assert_eq!(plan, Err(PlanError::Rejected("V3 transaction expired or exceeds lifetime")));
    let mut stale = ledger(1_000_000);
    stale.authority_matches = false;
    let (plan, _) = plan_governance_fee(&p, &request(100_000, 100_000), &stale, &terms(), 10, 2, &work(ActionEnd::Applied), block(&p));
    assert_eq!(plan, Err(PlanError::Rejected("Governance account authority or nonce differs")));
}

#[test]
fn signature_proof_must_bind_same_metered_envelope() {
    let p = profile(0);
    let mut req = request(100_000, 100_000);
    req.proof_matches = false;
    let (plan, _) = plan_governance_fee(&p, &req, &ledger(1_000_000), &terms(), 10, 2, &work(ActionEnd::Applied), block(&p));
    assert_eq!(plan, Err(PlanError::Rejected("V3 signature proof differs from metered envelope")));
}

#[test]
fn charge_above_the_cap_is_an_internal_fault() {
    let p = profile(90_000);
    let (plan, _) =
        plan_governance_fee(&p, &request(100_000, 100_000), &ledger(1_000_000), &terms(), 10, 2, &work(ActionEnd::Applied), block(&p));
    assert_eq!(plan, Err(PlanError::Internal("V3 charge exceeds signed reservation")));
}

#[test]
fn ledger_of_another_account_does_not_fund_the_signed_actor() {
    let p = profile(0);
    let mut other = ledger(1_000_000);
    other.actor = [8; 32];
    let (plan, _) = plan_governance_fee(&p, &request(100_000, 100_000), &other, &terms(), 10, 2, &work(ActionEnd::Applied), block(&p));
    assert_eq!(plan, Err(PlanError::Rejected("Unregistered governance actor")));
}
