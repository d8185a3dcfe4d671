use dytallix_fast_node::ordinary_authority::{KeyIdentity, RecoveryAccount, RecoveryBook, RecoveryDomain};
use dytallix_fast_node::ordinary_execution::{reconcile_receipt, FeeTotals};
use dytallix_fast_node::ordinary_fee_settlement::{FeeReceipt, Outcome, PlanError};
use dytallix_fast_node::ordinary_logical::AccountState;

fn registered(id: u8, address: &str) -> RecoveryAccount {
    RecoveryAccount {
        address: address.to_string(),
        domain: RecoveryDomain { network: 3, chain_id: "c".to_string(), genesis_digest: [7; 32], account_id: [id; 32] },
        active_key: KeyIdentity { algorithm: "mldsa65".to_string(), public_key: vec![id] },
        active_generation: 0,
        spending_nonce: 0,
        outgoing_allowed: true,
        address_id: Some([id; 32]),
    }
}

fn book() -> RecoveryBook {
    RecoveryBook { last_height: 5, structurally_valid: true, accounts: vec![registered(1, "a"), registered(2, "b")] }
}

fn state(udgt: u128, udrt: u128, nonce: u64) -> AccountState {
    AccountState { balances: vec![("udgt".to_string(), udgt), ("udrt".to_string(), udrt)], nonce }
}

fn accounts(a: AccountState, b: AccountState) -> Vec<(String, AccountState)> {
    vec![("a".to_string(), a), ("b".to_string(), b)]
}

fn receipt(outcome: Outcome) -> FeeReceipt {
    FeeReceipt {
        version: 1,
        transaction_id: [9; 32],
        envelope_hash: [8; 32],
        actor: [1; 32],
        block_height: 5,
        block_index: 0,
        contract_version: 1,
        profile_version: 1,
        profile_digest: [6; 32],
        outcome,
        failing_action: None,
        failure_phase: None,
        rule_class: None,
        rule_code: None,
        gas_limit: 100,
        gas_used: 20,
        metadata_gas: 5,
        reserved_cap: 100,
        charge: 40,
        released_cap: 60,
        nonce_before: 0,
        nonce_after: 1,
    }
}

fn totals() -> FeeTotals {
    FeeTotals { before: 0, reserved: 0, applied: 0, after: 40 }
}

#[test]
fn paid_failure_keeps_the_reservation_checkpoint() {
    let before = accounts(state(50, 1000, 0), state(5, 5, 0));
    let reserved = accounts(state(50, 900, 0), state(5, 5, 0));
    let applied = accounts(state(50, 900, 0), state(5, 5, 0));
    let after = accounts(state(50, 960, 1), state(5, 5, 0));
    let r = receipt(Outcome::ApplicationFailure);
    assert_eq!(reconcile_receipt(&before, &reserved, &applied, &after, totals(), &book(), &r), Ok(()));
    // A failure that kept action effects does not reconcile.
    let moved = accounts(state(40, 900, 0), state(15, 5, 0));
    assert_eq!(
        reconcile_receipt(&before, &reserved, &moved, &after, totals(), &book(), &r),
        Err(PlanError::Internal("Ordinary receipt reservation or rollback differs from account delta"))
    );
}

#[test]
fn success_keeps_action_effects_and_releases_the_unused_cap() {
    let before = accounts(state(50, 1000, 0), state(5, 5, 0));
    let reserved = accounts(state(50, 900, 0), state(5, 5, 0));
    let applied = accounts(state(40, 900, 0), state(15, 5, 0));
    let after = accounts(state(40, 960, 1), state(15, 5, 0));
    let r = receipt(Outcome::Success);
    assert_eq!(reconcile_receipt(&before, &reserved, &applied, &after, totals(), &book(), &r), Ok(()));
    let stale = accounts(state(40, 960, 0), state(15, 5, 0));
    assert_eq!(
        reconcile_receipt(&before, &reserved, &applied, &stale, totals(), &book(), &r),
        Err(PlanError::Internal("Ordinary receipt final account delta differs"))
    );
}

#[test]
fn receipt_custody_and_registry_are_checked_first() {
    let before = accounts(state(50, 1000, 0), state(5, 5, 0));
    let reserved = accounts(state(50, 900, 0), state(5, 5, 0));
    let after = accounts(state(50, 960, 1), state(5, 5, 0));
    let r = receipt(Outcome::OutOfGas);
    let wrong = FeeTotals { after: 41, ..totals() };
    assert_eq!(
        reconcile_receipt(&before, &reserved, &reserved, &after, wrong, &book(), &r),
        Err(PlanError::Internal("Ordinary receipt fee custody differs from transaction delta"))
    );
    let stranger = FeeReceipt { actor: [4; 32], ..r };
    assert_eq!(
        reconcile_receipt(&before, &reserved, &reserved, &after, totals(), &book(), &stranger),
        Err(PlanError::Internal("Receipt actor has no registered account"))
    );
    let over = FeeReceipt { charge: 101, ..r };
    assert_eq!(
        reconcile_receipt(&before, &reserved, &reserved, &after, totals(), &book(), &over),
        Err(PlanError::Internal("Receipt charge exceeds cap"))
    );
    let partial = vec![("a".to_string(), state(50, 960, 1))];
    assert_eq!(
        reconcile_receipt(&before, &reserved, &reserved, &partial, totals(), &book(), &r),
        Err(PlanError::Internal("Ordinary final account missing"))
    );
    let poor = accounts(state(50, 99, 0), state(5, 5, 0));
    assert_eq!(
        reconcile_receipt(&poor, &reserved, &reserved, &after, totals(), &book(), &r),
        Err(PlanError::Internal("Ordinary cap reservation exceeds balance"))
    );
}
