use dytallix_fast_node::ordinary_authority::{
    check_verified, check_verified_preacceptance, validate_grants, validate_nonce_mirrors, Action,
    AuthorityLimits, Denomination, KeyIdentity, OrdinaryBody, RecoveryAccount, RecoveryBook,
    RecoveryDomain, RegistryRequirement,
};
use dytallix_fast_node::ordinary_logical::DiscretionaryGrant;

fn key(byte: u8) -> KeyIdentity {
    KeyIdentity { algorithm: "mldsa65".to_string(), public_key: vec![byte; 1952] }
}

fn limits() -> AuthorityLimits {
    AuthorityLimits { limits_valid: true, body_encodes: true, max_expiry_lifetime: 100 }
}

fn account(id: u8) -> RecoveryAccount {
    RecoveryAccount {
        address: format!("dev-address-{id}"),
        domain: RecoveryDomain {
            network: 3,
            chain_id: "ordinary-model".to_string(),
            genesis_digest: [7; 32],
            account_id: [id; 32],
        },
        active_key: key(id),
        active_generation: 0,
        spending_nonce: 0,
        outgoing_allowed: true,
        address_id: Some([id; 32]),
    }
}

fn book() -> RecoveryBook {
    RecoveryBook { last_height: 10, structurally_valid: true, accounts: vec![account(1), account(2)] }
}

fn native_nonces(book: &RecoveryBook) -> Vec<(String, u64)> {
    book.accounts.iter().map(|a| (a.address.clone(), a.spending_nonce)).collect()
}

fn grant(owner: u8, beneficiary: u8) -> DiscretionaryGrant {
    DiscretionaryGrant {
        version: 1,
        owner: [owner; 32],
        beneficiary: [beneficiary; 32],
        owner_generation: 0,
        period_blocks: 2,
        last_active_height: 0,
    }
}

fn grants() -> Vec<DiscretionaryGrant> {
    vec![grant(1, 2), grant(2, 1)]
}

fn body(book: &RecoveryBook, id: u8, actions: Vec<Action>) -> OrdinaryBody {
    let state = book.accounts.iter().find(|a| a.domain.account_id == [id; 32]).unwrap();
    OrdinaryBody {
        domain: state.domain.clone(),
        key: state.active_key.clone(),
        authorization_generation: state.active_generation,
        spending_nonce: state.spending_nonce,
        expiry_height: 50,
        actions,
    }
}

fn actions() -> Vec<Action> {
    vec![
        Action::Send { recipient: [2; 32], denomination: Denomination::Udgt, amount: 1 },
        Action::Data,
        Action::DmsRegister { beneficiary: [2; 32], period_blocks: 2 },
        Action::DmsPing,
        Action::DmsClaim { owner: [2; 32], expected_grant_generation: 0 },
        Action::RewardBond { validator_id: "validator".to_string(), amount_udgt: 1 },
        Action::RewardBeginUnbond { validator_id: "validator".to_string(), amount_udgt: 1 },
        Action::RewardClaim,
        Action::ValidatorRegister { validator_id: "validator".to_string(), amount_udgt: 1 },
        Action::ValidatorRotateKey { validator_id: "validator".to_string() },
        Action::ValidatorExit { validator_id: "validator".to_string() },
        Action::ValidatorWithdraw { unbond_id: "unbond".to_string() },
    ]
}

fn prepare(
    book: &RecoveryBook,
    native: &Vec<(String, u64)>,
    grants: &Vec<DiscretionaryGrant>,
    height: u64,
    body: &OrdinaryBody,
) -> Result<dytallix_fast_node::ordinary_authority::AuthorityAssessment, &'static str> {
    check_verified(book, native, grants, height, body, &limits(), [0; 32], [0; 32])
}

fn set_account(book: &mut RecoveryBook, id: u8, f: impl Fn(&mut RecoveryAccount)) {
    let a = book.accounts.iter_mut().find(|a| a.domain.account_id == [id; 32]).unwrap();
    f(a);
}

#[test]
fn all_twelve_actions_identify_actor_fee_payer_and_actual_debit_owner() {
    let book = book();
    let native = native_nonces(&book);
    let grants = grants();
    for (index, action) in actions().into_iter().enumerate() {
        let result = prepare(&book, &native, &grants, 10, &body(&book, 1, vec![action])).unwrap();
        assert_eq!(result.actor, [1; 32]);
        assert_eq!(result.fee_payer, [1; 32]);
        let expected = if index == 4 { vec![[1; 32], [2; 32]] } else { vec![[1; 32]] };
        assert_eq!(result.action_owners[0].debit_owners, expected);
        assert_eq!(result.action_owners[0].index, 0);
        assert_eq!(result.prospective_nonce.before, 0);
        assert_eq!(result.prospective_nonce.after, 1);
        assert!(!result.is_executable());
        assert!(result.require_paid_execution().is_err());
    }
    assert_eq!(native, vec![("dev-address-1".to_string(), 0), ("dev-address-2".to_string(), 0)]);
}

#[test]
fn protection_blocks_all_actor_paths_and_owner_claims_but_allows_incoming_reference() {
    let mut book = book();
    let native = native_nonces(&book);
    let grants = grants();
    set_account(&mut book, 1, |a| a.outgoing_allowed = false);
    for action in actions() {
        assert!(prepare(&book, &native, &grants, 10, &body(&book, 1, vec![action])).is_err());
    }
    set_account(&mut book, 1, |a| a.outgoing_allowed = true);
    set_account(&mut book, 2, |a| a.outgoing_allowed = false);
    let claim = Action::DmsClaim { owner: [2; 32], expected_grant_generation: 0 };
    assert_eq!(
        prepare(&book, &native, &grants, 10, &body(&book, 1, vec![claim])).err(),
        Some("Protected account cannot authorize a discretionary action or debit")
    );
    let send = Action::Send { recipient: [2; 32], denomination: Denomination::Udrt, amount: 1 };
    assert!(prepare(&book, &native, &grants, 10, &body(&book, 1, vec![send])).is_ok());
}

#[test]
fn explicit_native_nonce_mirrors_are_required_and_never_repaired() {
    let mut book = book();
    let native = native_nonces(&book);
    let missing: Vec<(String, u64)> = native.iter().filter(|(a, _)| a != "dev-address-2").cloned().collect();
    assert_eq!(
        validate_nonce_mirrors(&book, &missing),
        Err("Ordinary native nonce mirror missing or unequal")
    );
    set_account(&mut book, 1, |a| a.spending_nonce = 1);
    assert!(validate_nonce_mirrors(&book, &native).is_err());
    assert_eq!(native.iter().map(|(_, n)| *n).collect::<Vec<_>>(), vec![0, 0]);
    let reconciled = native_nonces(&book);
    assert_eq!(validate_nonce_mirrors(&book, &reconciled), Ok(()));
    let mut alias = self::book();
    set_account(&mut alias, 1, |a| a.address = "legacy-address".to_string());
    assert!(validate_nonce_mirrors(&alias, &native).is_err());
    let mut moved = self::book();
    set_account(&mut moved, 1, |a| a.address_id = Some([9; 32]));
    assert_eq!(
        validate_nonce_mirrors(&moved, &native),
        Err("Ordinary account address mapping differs from stable ID")
    );
    let mut unknown = self::book();
    set_account(&mut unknown, 2, |a| a.domain.network = 4);
    assert_eq!(validate_nonce_mirrors(&unknown, &native), Err("Unknown ordinary account network"));
    let mut broken = self::book();
    broken.structurally_valid = false;
    assert_eq!(validate_nonce_mirrors(&broken, &native), Err("Recovery book is structurally invalid"));
}

#[test]
fn current_domain_key_generation_nonce_and_expiry_are_exact() {
    let book = book();
    let native = native_nonces(&book);
    let grants = grants();
    let first_body = body(&book, 1, vec![Action::Data]);
    for case in 0..7 {
        let mut tx = body(&book, 1, vec![Action::Data]);
        match case {
            0 => tx.domain.genesis_digest = [8; 32],
            1 => tx.key = key(3),
            2 => tx.authorization_generation = 1,
            3 => tx.spending_nonce = 1,
            4 => tx.expiry_height = 10,
            5 => tx.expiry_height = 111,
            _ => tx.domain.chain_id = "different".to_string(),
        }
        assert!(prepare(&book, &native, &grants, 10, &tx).is_err());
    }
    assert_eq!(
        prepare(&book, &native, &grants, 9, &first_body).err(),
        Some("Ordinary authority requires current block-start recovery state")
    );
    let restricted = AuthorityLimits { body_encodes: false, ..limits() };
    assert!(check_verified(&book, &native, &grants, 10, &first_body, &restricted, [0; 32], [0; 32]).is_err());
    assert!(prepare(&book, &native, &grants, 10, &first_body).is_ok());
}

#[test]
fn changed_generation_invalidates_grant_until_current_owner_registers_again() {
    let mut book = book();
    let native = native_nonces(&book);
    let grants = grants();
    set_account(&mut book, 2, |a| a.active_generation = 1);
    let claim = Action::DmsClaim { owner: [2; 32], expected_grant_generation: 0 };
    assert_eq!(
        prepare(&book, &native, &grants, 10, &body(&book, 1, vec![claim])).err(),
        Some("Discretionary grant generation is stale")
    );
    assert_eq!(
        prepare(&book, &native, &grants, 10, &body(&book, 2, vec![Action::DmsPing])).err(),
        Some("Stale grant requires owner registration, not ping")
    );
    let registration = prepare(
        &book,
        &native,
        &grants,
        10,
        &body(&book, 2, vec![Action::DmsRegister { beneficiary: [1; 32], period_blocks: 2 }]),
    )
    .unwrap();
    let owned = registration.prospective_grants.iter().find(|g| g.owner == [2; 32]).unwrap();
    assert_eq!(owned.owner_generation, 1);
    assert_eq!(grants[1].owner_generation, 0);
    book.last_height = 12;
    let result = prepare(
        &book,
        &native,
        &registration.prospective_grants,
        12,
        &body(&book, 1, vec![Action::DmsClaim { owner: [2; 32], expected_grant_generation: 1 }]),
    )
    .unwrap();
    assert!(!result.is_executable());
}

#[test]
fn ordered_grant_preparation_does_not_commit_nonce_or_modify_protocol_obligations() {
    let book = book();
    let native = native_nonces(&book);
    let grants: Vec<DiscretionaryGrant> = Vec::new();
    let result = prepare(
        &book,
        &native,
        &grants,
        10,
        &body(&book, 1, vec![Action::DmsRegister { beneficiary: [2; 32], period_blocks: 5 }, Action::DmsPing]),
    )
    .unwrap();
    assert_eq!(result.prospective_grants.len(), 1);
    assert_eq!(result.prospective_grants[0].last_active_height, 10);
    assert_eq!(result.prospective_grants[0].period_blocks, 5);
    assert!(grants.is_empty());
    assert_eq!(book.accounts[0].spending_nonce, 0);
    assert!(result.require_paid_execution().is_err());
    let mut future = result.prospective_grants.clone();
    future[0].owner_generation = 1;
    assert_eq!(validate_grants(&book, &future), Err("Discretionary grant contains a future generation"));
}

#[test]
fn exhausted_nonce_and_unmatured_or_wrong_beneficiary_claims_reject() {
    let mut book = book();
    let grants = grants();
    set_account(&mut book, 1, |a| a.spending_nonce = u64::MAX);
    let native = native_nonces(&book);
    let err = prepare(&book, &native, &grants, 10, &body(&book, 1, vec![Action::Data])).unwrap_err();
    assert!(err.contains("exhausted"));
    set_account(&mut book, 1, |a| a.spending_nonce = 0);
    let native = native_nonces(&book);
    let mut young = grants.clone();
    young[1].last_active_height = 10;
    let claim = Action::DmsClaim { owner: [2; 32], expected_grant_generation: 0 };
    assert_eq!(
        prepare(&book, &native, &young, 10, &body(&book, 1, vec![claim])).err(),
        Some("Discretionary grant is not mature")
    );
    let own = Action::DmsClaim { owner: [1; 32], expected_grant_generation: 0 };
    assert!(prepare(&book, &native, &grants, 10, &body(&book, 1, vec![own])).is_err());
}

#[test]
fn fee_preacceptance_defers_only_maturity_and_preserves_authority_rejections() {
    let book = book();
    let native = native_nonces(&book);
    let mut young = grants();
    young[1].last_active_height = 10;
    let tx = body(&book, 1, vec![Action::DmsClaim { owner: [2; 32], expected_grant_generation: 0 }]);
    assert!(prepare(&book, &native, &young, 10, &tx).is_err());
    let result =
        check_verified_preacceptance(&book, &native, &young, 10, &tx, &limits(), [3; 32], [4; 32]).unwrap();
    assert_eq!(result.deferred_claims, vec![(0u16, 12u64)]);
    assert_eq!(result.transaction_id, [3; 32]);
    assert_eq!(result.envelope_hash, [4; 32]);
    assert!(!result.is_executable());
    let stale = body(&book, 1, vec![Action::DmsClaim { owner: [2; 32], expected_grant_generation: 1 }]);
    assert!(check_verified_preacceptance(&book, &native, &young, 10, &stale, &limits(), [0; 32], [0; 32]).is_err());
    assert_eq!(young[1].last_active_height, 10);
}

#[test]
fn mature_claims_prepare_alike_with_and_without_deferral() {
    let book = book();
    let native = native_nonces(&book);
    let grants = grants();
    let tx = body(&book, 1, vec![Action::Data, Action::DmsClaim { owner: [2; 32], expected_grant_generation: 0 }]);
    let strict = prepare(&book, &native, &grants, 10, &tx).unwrap();
    let deferred =
        check_verified_preacceptance(&book, &native, &grants, 10, &tx, &limits(), [0; 32], [0; 32]).unwrap();
    assert!(strict.deferred_claims.is_empty());
    assert_eq!(deferred.deferred_claims, vec![(1u16, 2u64)]);
    assert_eq!(strict.action_owners[1].debit_owners, deferred.action_owners[1].debit_owners);
    assert_eq!(strict.prospective_grants, deferred.prospective_grants);
}

#[test]
fn registry_requirements_follow_action_order() {
    let book = book();
    let native = native_nonces(&book);
    let grants = grants();
    let tx = body(
        &book,
        1,
        vec![
            Action::ValidatorRegister { validator_id: "v".to_string(), amount_udgt: 5 },
            Action::RewardClaim,
            Action::ValidatorWithdraw { unbond_id: "u".to_string() },
        ],
    );
    let result = prepare(&book, &native, &grants, 10, &tx).unwrap();
    assert_eq!(
        result.registry_requirements,
        vec![
            RegistryRequirement::Validator { validator_id: "v".to_string(), actor: [1; 32] },
            RegistryRequirement::ValidatorProof { validator_id: "v".to_string(), actor: [1; 32] },
            RegistryRequirement::RewardEntitlement { owner: [1; 32] },
            RegistryRequirement::Unbond { unbond_id: "u".to_string(), owner: [1; 32] },
        ]
    );
    let zero = body(&book, 1, vec![Action::Send { recipient: [2; 32], denomination: Denomination::Udgt, amount: 0 }]);
    assert_eq!(prepare(&book, &native, &grants, 10, &zero).err(), Some("Ordinary transfer amount must be positive"));
    let stranger = body(&book, 1, vec![Action::Send { recipient: [5; 32], denomination: Denomination::Udgt, amount: 1 }]);
    assert_eq!(prepare(&book, &native, &grants, 10, &stranger).err(), Some("Unregistered ordinary account reference"));
}
