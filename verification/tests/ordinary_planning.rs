use dytallix_fast_node::ordinary_authority::{
    Action, AuthorityLimits, Denomination, KeyIdentity, OrdinaryBody, RecoveryAccount, RecoveryBook, RecoveryDomain,
};
use dytallix_fast_node::ordinary_planning::{planning_state, requests_equal, FinancialSnapshot};
use dytallix_fast_node::ordinary_reservation::{reservation_request, AssetBalance, RequestInput, ReservationId};

fn account(id: u8, nonce: u64) -> RecoveryAccount {
    RecoveryAccount {
        address: format!("plan-address-{id}"),
        domain: RecoveryDomain { network: 3, chain_id: "plan-model".to_string(), genesis_digest: [7; 32], account_id: [id; 32] },
        active_key: KeyIdentity { algorithm: "mldsa65".to_string(), public_key: vec![id; 16] },
        active_generation: 0,
        spending_nonce: nonce,
        outgoing_allowed: true,
        address_id: Some([id; 32]),
    }
}

fn book() -> RecoveryBook {
    RecoveryBook { last_height: 10, structurally_valid: true, accounts: vec![account(1, 5), account(2, 0)] }
}

fn mirrors(book: &RecoveryBook) -> Vec<(String, u64)> {
    book.accounts.iter().map(|a| (a.address.clone(), a.spending_nonce)).collect()
}

fn send() -> Action {
    Action::Send { recipient: [2; 32], denomination: Denomination::Udrt, amount: 3 }
}

fn body(book: &RecoveryBook) -> OrdinaryBody {
    let a = &book.accounts[0];
    OrdinaryBody {
        domain: a.domain.clone(),
        key: a.active_key.clone(),
        authorization_generation: 0,
        spending_nonce: 5,
        expiry_height: 50,
        actions: vec![send()],
    }
}

fn limits() -> AuthorityLimits {
    AuthorityLimits { limits_valid: true, body_encodes: true, max_expiry_lifetime: 100 }
}

fn intent() -> RequestInput {
    RequestInput {
        transaction_id: [9; 32],
        actor: [1; 32],
        spending_nonce: 5,
        maximum_fee: 700,
        actions: vec![send()],
        wire_prefix_len: 8,
        signing_len: Ok(120),
        signature_size: Ok(3309),
    }
}

fn balances() -> Vec<AssetBalance> {
    vec![AssetBalance { owner: [1; 32], denomination: Denomination::Udrt, amount: 1000 }]
}

fn snapshot() -> FinancialSnapshot {
    FinancialSnapshot {
        balance_entries: 1,
        eligible_entries: 1,
        eligible_consistent: true,
        payer_balance: 1000,
        payer_eligible: 1000,
        withheld_udrt: 4,
        requirements: Ok(vec![(703, 1000)]),
        snapshot_digest: [6; 32],
    }
}

#[test]
fn planning_state_takes_its_checks_from_the_book_and_the_intent() {
    let book = book();
    let nonces = mirrors(&book);
    let request = reservation_request(&intent(), [5; 32], &balances()).unwrap();
    let st = planning_state(&book, &nonces, &vec![], 10, &body(&book), &limits(), [9; 32], [8; 32], &intent(), [5; 32], &balances(), &request, snapshot());
    assert_eq!(st.book_height, 10);
    assert_eq!(st.accounts.len(), 2);
    assert_eq!((st.accounts[0].id, st.accounts[0].spending_nonce), ([1; 32], 5));
    assert!(st.mirrors_valid && st.grants_valid && st.request_matches);
    assert_eq!(st.nonce_entries, 2);
    let pre = st.preacceptance.as_ref().unwrap();
    assert_eq!((pre.registry_requirements, pre.nonce_after), (0, 6));
    assert!(pre.deferred_claims.is_empty());
    assert_eq!(st.withheld_udrt, 4);
    assert_eq!(st.snapshot_digest, [6; 32]);
}

#[test]
fn planning_state_records_each_failed_check() {
    let book = book();
    let request = reservation_request(&intent(), [5; 32], &balances()).unwrap();
    let stale = vec![("plan-address-1".to_string(), 4), ("plan-address-2".to_string(), 0)];
    let st = planning_state(&book, &stale, &vec![], 10, &body(&book), &limits(), [9; 32], [8; 32], &intent(), [5; 32], &balances(), &request, snapshot());
    assert!(!st.mirrors_valid);
    assert!(st.preacceptance.is_err());
    let other_context = reservation_request(&intent(), [6; 32], &balances()).unwrap();
    let nonces = mirrors(&book);
    let st = planning_state(&book, &nonces, &vec![], 10, &body(&book), &limits(), [9; 32], [8; 32], &intent(), [5; 32], &balances(), &other_context, snapshot());
    assert!(!st.request_matches);
    let unencodable = RequestInput { signing_len: Err("Ordinary body does not encode within limits"), ..intent() };
    let st = planning_state(&book, &nonces, &vec![], 10, &body(&book), &limits(), [9; 32], [8; 32], &unencodable, [5; 32], &balances(), &request, snapshot());
    assert!(!st.request_matches);
    let late = planning_state(&book, &nonces, &vec![], 11, &body(&book), &limits(), [9; 32], [8; 32], &intent(), [5; 32], &balances(), &request, snapshot());
    assert_eq!(late.preacceptance.err(), Some("Ordinary authority requires current block-start recovery state"));
}

#[test]
fn requests_compare_every_field() {
    let a = reservation_request(&intent(), [5; 32], &balances()).unwrap();
    let mut b = a.clone();
    assert!(requests_equal(&a, &b));
    b.id = ReservationId::OrdinaryV3 { transaction_id: [9; 32], profile_digest: [0; 32] };
    assert!(!requests_equal(&a, &b));
    let mut c = a.clone();
    c.action_debits.clear();
    assert!(!requests_equal(&a, &c));
    let mut d = a.clone();
    d.signature_work += 1;
    assert!(!requests_equal(&a, &d));
}
