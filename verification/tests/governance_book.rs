use dytallix_fast_node::governance_signed_admission::{
    actor_authority, admission_stage, assess_signed, domain_matches_candidate, governance_ledger, ActorAuthority, AdmissionParent,
    GovernanceActionInput, SignedGovernance,
};
use dytallix_fast_node::ordinary_authority::{KeyIdentity, RecoveryAccount, RecoveryBook, RecoveryDomain};

fn key(byte: u8) -> KeyIdentity {
    KeyIdentity { algorithm: "mldsa65".to_string(), public_key: vec![byte; 32] }
}

fn domain(id: u8) -> RecoveryDomain {
    RecoveryDomain { network: 3, chain_id: "gov-model".to_string(), genesis_digest: [7; 32], account_id: [id; 32] }
}

fn account(id: u8, nonce: u64) -> RecoveryAccount {
    RecoveryAccount {
        address: format!("gov-address-{id}"),
        domain: domain(id),
        active_key: key(id),
        active_generation: 2,
        spending_nonce: nonce,
        outgoing_allowed: true,
        address_id: Some([id; 32]),
    }
}

fn book() -> RecoveryBook {
    RecoveryBook { last_height: 9, structurally_valid: true, accounts: vec![account(1, 0), account(3, 4)] }
}

fn mirrors(book: &RecoveryBook) -> Vec<(String, u64)> {
    book.accounts.iter().map(|a| (a.address.clone(), a.spending_nonce)).collect()
}

fn parent() -> AdmissionParent {
    AdmissionParent {
        candidate_valid: true,
        governance_valid: true,
        mirrors_valid: true,
        recovery_height: 9,
        finalized_height: 9,
        lifecycle_height: 9,
        app_hash: [5; 32],
        lifecycle_valid: true,
        chains_match: true,
        max_expiry_lifetime: 100,
        action_classes: vec![(1, 8)],
    }
}

fn signed() -> SignedGovernance {
    SignedGovernance {
        signature_valid: true,
        request_valid: true,
        domain_matches_candidate: true,
        transaction_id: [1; 32],
        envelope_hash: [2; 32],
        actor: [3; 32],
        spending_nonce: 4,
        expiry_height: 20,
        gas_limit: 1000,
        maximum_fee: 5000,
        contract_version: 1,
        profile_version: 7,
        profile_digest: [8; 32],
        actions: vec![GovernanceActionInput::Proposal {
            proposal_id: 3,
            action_class: 1,
            action_data: vec![1, 2],
            action_digest: [9; 32],
        }],
        digest_matches: true,
        proposer_bonded: true,
    }
}

#[test]
fn actor_authority_compares_the_registered_account() {
    let book = book();
    assert_eq!(
        actor_authority(&book, &domain(3), &key(3), 2),
        Some(ActorAuthority { account_id: [3; 32], domain_matches: true, key_current: true, spending_nonce: 4, outgoing_allowed: true })
    );
    assert_eq!(actor_authority(&book, &domain(9), &key(9), 2), None);
    let stale = actor_authority(&book, &domain(3), &key(3), 1).unwrap();
    assert!(!stale.key_current);
    let rotated = actor_authority(&book, &domain(3), &key(4), 2).unwrap();
    assert!(!rotated.key_current);
    let mut foreign = domain(3);
    foreign.chain_id = "other".to_string();
    assert!(!actor_authority(&book, &foreign, &key(3), 2).unwrap().domain_matches);
    let mut protected = RecoveryBook { last_height: 9, structurally_valid: true, accounts: book.accounts.clone() };
    protected.accounts[1].outgoing_allowed = false;
    assert!(!actor_authority(&protected, &domain(3), &key(3), 2).unwrap().outgoing_allowed);
}

#[test]
fn stage_from_the_book_admits_only_its_current_actor() {
    let book = book();
    let nonces = mirrors(&book);
    let stage = admission_stage(&book, &nonces, &domain(3), &key(3), 2, 3, vec![]);
    assert!(stage.mirrors_valid);
    assert_eq!(assess_signed(&signed(), &parent(), &stage).unwrap().nonce_after(), 5);
    let stale = admission_stage(&book, &nonces, &domain(3), &key(3), 1, 3, vec![]);
    assert_eq!(assess_signed(&signed(), &parent(), &stale).err(), Some("Governance key or generation is stale"));
    let absent = admission_stage(&book, &nonces, &domain(8), &key(8), 2, 3, vec![]);
    assert_eq!(assess_signed(&signed(), &parent(), &absent).err(), Some("Unregistered governance actor"));
    let drifted = admission_stage(&book, &vec![], &domain(3), &key(3), 2, 3, vec![]);
    assert!(!drifted.mirrors_valid);
    assert_eq!(
        assess_signed(&signed(), &parent(), &drifted).err(),
        Some("Governance nonce mirrors differ from the recovery book")
    );
}

#[test]
fn signed_domain_must_name_the_candidate_chain() {
    assert!(domain_matches_candidate(&domain(3), "gov-model", &[7; 32]));
    assert!(!domain_matches_candidate(&domain(3), "gov-other", &[7; 32]));
    assert!(!domain_matches_candidate(&domain(3), "gov-model", &[6; 32]));
}

#[test]
fn governance_fee_ledger_reads_the_actor_from_the_book() {
    let book = book();
    let nonces = mirrors(&book);
    let ledger = governance_ledger(&book, &nonces, &domain(3), &key(3), 2, 4, 2, 2, true, 900, 800, 5);
    assert_eq!((ledger.staged_height, ledger.account_count, ledger.nonce_count), (9, 2, 2));
    assert_eq!(ledger.actor, [3; 32]);
    assert!(ledger.mirrors_valid && ledger.actor_registered && ledger.authority_matches);
    assert_eq!((ledger.balance, ledger.eligible, ledger.withheld_udrt), (900, 800, 5));
    let stale_nonce = governance_ledger(&book, &nonces, &domain(3), &key(3), 2, 3, 2, 2, true, 900, 800, 5);
    assert!(stale_nonce.actor_registered && !stale_nonce.authority_matches);
    let absent = governance_ledger(&book, &nonces, &domain(8), &key(8), 2, 4, 2, 2, true, 900, 800, 5);
    assert!(!absent.actor_registered && !absent.authority_matches);
    let drifted = governance_ledger(&book, &vec![], &domain(3), &key(3), 2, 4, 2, 2, true, 900, 800, 5);
    assert!(!drifted.mirrors_valid);
    assert_eq!(drifted.nonce_count, 0);
}

#[test]
fn stage_of_another_account_does_not_authorize_the_signed_actor() {
    let book = book();
    let nonces = mirrors(&book);
    let mut other = signed();
    other.spending_nonce = 0;
    let stage = admission_stage(&book, &nonces, &domain(1), &key(1), 2, 3, vec![]);
    assert_eq!(stage.actor.unwrap().account_id, [1; 32]);
    assert_eq!(assess_signed(&other, &parent(), &stage).err(), Some("Unregistered governance actor"));
}
