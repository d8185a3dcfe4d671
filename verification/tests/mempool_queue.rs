use dytallix_fast_node::mempool::{MempoolConfig, RejectionReason, Transaction, TxMessage};
use dytallix_fast_node::mempool_queue::{verify_envelope, LedgerView, Mempool};

fn ledger() -> LedgerView {
    let mut balances = Vec::new();
    for sender in ["a", "b", "c"] {
        balances.push((
            sender.to_string(),
            vec![("udgt".to_string(), 1_000_000_000u128), ("udrt".to_string(), 1_000_000_000u128)],
        ));
    }
    LedgerView { qualified_state: false, nonces: Vec::new(), balances }
}

fn set_nonce(ledger: &mut LedgerView, sender: &str, nonce: u64) {
    ledger.nonces.retain(|(s, _)| s != sender);
    ledger.nonces.push((sender.to_string(), nonce));
}

fn tx(hash: &str, sender: &str, nonce: u64) -> Transaction {
    Transaction::base(hash, sender, "receiver", 1_000, 100, nonce).with_gas(21_000, 1_000)
}

fn signed(mut tx: Transaction) -> Transaction {
    tx.signature = Some("c2ln".to_string());
    tx.public_key = Some("cGs=".to_string());
    tx
}

fn required(tx: &Transaction) -> Vec<(String, u128)> {
    vec![("udgt".to_string(), tx.amount + tx.fee)]
}

fn add(pool: &mut Mempool, ledger: &LedgerView, tx: Transaction) -> Result<(), RejectionReason> {
    let req = required(&tx);
    pool.add_transaction_trusted(ledger, tx, req, None)
}

fn nonces(pool: &Mempool, n: usize) -> Vec<(String, u64)> {
    pool.take_snapshot(n).iter().map(|t| (t.from.clone(), t.nonce)).collect()
}

#[test]
fn reserved_staking_payloads_are_rejected() {
    let mut balances = ledger().balances;
    balances.push((
        "dytallix1sender0000000000000000000000000000".to_string(),
        vec![("udgt".to_string(), 10_000_000u128)],
    ));
    let state = LedgerView { qualified_state: false, nonces: Vec::new(), balances };
    let tx = Transaction::base(
        "0xpolicytest",
        "dytallix1sender0000000000000000000000000000",
        "dytallix1receiver00000000000000000000000000",
        0,
        5_000,
        0,
    )
    .with_gas(5_000, 1_000)
    .with_messages(vec![TxMessage::Data {
        from: "dytallix1sender0000000000000000000000000000".to_string(),
        data: "stake:delegate:dytallix1validator:1000".to_string(),
    }]);
    let mut mempool = Mempool::new();
    let result = add(&mut mempool, &state, tx);
    assert!(matches!(result, Err(RejectionReason::PolicyViolation(_))));
    assert_eq!(mempool.total_count(), 0);
}

#[test]
fn queue_transitions_keep_ready_runs_and_evict_lowest_priority() {
    let mut state = ledger();
    let mut pool = Mempool::with_config(MempoolConfig { max_txs: 6, ..Default::default() });
    for (hash, sender, nonce) in
        [("a2", "a", 2), ("b0", "b", 0), ("a0", "a", 0), ("b2", "b", 2), ("a1", "a", 1), ("b1", "b", 1), ("c0", "c", 0)]
    {
        add(&mut pool, &state, tx(hash, sender, nonce)).unwrap();
        assert!(pool.total_count() <= 6);
    }
    // The seventh transaction evicted the lowest-priority entry: equal fees,
    // highest nonce, then the greater hash.
    assert!(!pool.contains("b2"));
    assert_eq!(pool.total_count(), 6);
    assert_eq!(pool.len(), 6);
    pool.drop_hashes(&vec!["b0".to_string()]);
    assert!(!pool.contains("b0"));
    assert_eq!(pool.total_count(), 5);
    assert_eq!(pool.len(), 4);
    add(&mut pool, &state, tx("b0-again", "b", 0)).unwrap();
    assert_eq!(pool.len(), 6);

    // A nonce change for another sender must prevent use of cached readiness.
    set_nonce(&mut state, "a", 1);
    pool.drop_hashes(&vec!["b0-again".to_string()]);
    add(&mut pool, &state, tx("c1", "c", 1)).unwrap();
    assert_eq!(pool.confirmed_nonce("a"), Some(1));
    assert_eq!(pool.total_count(), 6);
    assert_eq!(pool.len(), 4);
}

#[test]
fn nonce_intervals_handle_nonzero_and_exhaustion_boundaries() {
    for initial_nonce in [7, u64::MAX - 2] {
        let mut state = ledger();
        set_nonce(&mut state, "a", initial_nonce);
        let mut pool = Mempool::new();
        for nonce in [initial_nonce, initial_nonce + 1] {
            add(&mut pool, &state, tx(&format!("nonce-{nonce}"), "a", nonce)).unwrap();
        }
        assert_eq!(pool.len(), 2);
        assert_eq!(pool.total_count(), 2);
        assert_eq!(
            pool.take_snapshot(10).iter().map(|tx| tx.nonce).collect::<Vec<_>>(),
            vec![initial_nonce, initial_nonce + 1]
        );
        for nonce in [initial_nonce, initial_nonce + 1] {
            assert_eq!(
                add(&mut pool, &state, tx("duplicate-nonce", "a", nonce)),
                Err(RejectionReason::NonceGap { expected: initial_nonce + 2, got: nonce })
            );
            assert_eq!(pool.total_count(), 2);
        }
        assert_eq!(
            add(&mut pool, &state, tx("exhausted", "a", u64::MAX)),
            Err(RejectionReason::PolicyViolation("Account nonce exhausted".into()))
        );
        assert_eq!(pool.total_count(), 2);
        assert_eq!(pool.len(), 2);
    }
}

#[test]
fn rejected_insertions_leave_the_queue_unchanged() {
    let state = ledger();
    let mut pool = Mempool::new();
    add(&mut pool, &state, tx("a0", "a", 0)).unwrap();
    add(&mut pool, &state, tx("a2", "a", 2)).unwrap();
    let before = (pool.total_count(), pool.len(), pool.total_bytes(), nonces(&pool, 10));
    let mut unaffordable = tx("unaffordable", "a", 1);
    unaffordable.amount = 1_000_000_001;
    let expected = [
        RejectionReason::Duplicate("a0".to_string()),
        RejectionReason::NonceGap { expected: 1, got: 0 },
        RejectionReason::PolicyViolation("A pending transaction already uses this sender and nonce".to_string()),
        RejectionReason::PolicyViolation("Account nonce exhausted".to_string()),
        RejectionReason::InsufficientFunds {
            denom: "udgt".to_string(),
            required: 1_000_000_001 + 100 + 2 * 1_100,
            available: 1_000_000_000,
        },
    ];
    for (transaction, reason) in [
        tx("a0", "a", 1),
        tx("ready-duplicate", "a", 0),
        tx("deferred-duplicate", "a", 2),
        tx("exhausted", "a", u64::MAX),
        unaffordable,
    ]
    .into_iter()
    .zip(expected)
    {
        assert_eq!(add(&mut pool, &state, transaction), Err(reason));
        assert_eq!((pool.total_count(), pool.len(), pool.total_bytes(), nonces(&pool, 10)), before);
    }
}

#[test]
fn admission_refusals_come_in_order() {
    let mut state = ledger();
    let mut pool = Mempool::with_config(MempoolConfig { max_tx_bytes: 80, ..Default::default() });
    let t = tx("h", "a", 0);
    assert_eq!(pool.add_transaction(&state, t.clone(), vec![], false, None), Err(RejectionReason::InvalidSignature));
    assert_eq!(
        pool.add_transaction(&state, signed(tx("h", "a", 0)), vec![], true, Some("algorithm not allowed".to_string())),
        Err(RejectionReason::PolicyViolation("algorithm not allowed".to_string()))
    );
    let long = Transaction::base("a-very-long-hash-value-for-size", "a", "a-very-long-receiver-name", 1, 1, 0)
        .with_gas(21_000, 1_000);
    assert_eq!(add(&mut pool, &state, long), Err(RejectionReason::OversizedTx { max: 80, got: 113 }));
    let cheap = Transaction::base("cheap", "a", "receiver", 1, 1, 0).with_gas(21_000, 999);
    assert_eq!(add(&mut pool, &state, cheap), Err(RejectionReason::UnderpricedGas { min: 1000, got: 999 }));
    let thin = Transaction::base("thin", "a", "receiver", 1, 1, 0).with_gas(10, 1_000);
    assert_eq!(
        add(&mut pool, &state, thin),
        Err(RejectionReason::InternalError("GasValidationError: gas limit below intrinsic gas".to_string()))
    );
    set_nonce(&mut state, "a", 3);
    assert_eq!(add(&mut pool, &state, tx("old", "a", 2)), Err(RejectionReason::NonceGap { expected: 3, got: 2 }));
    state.qualified_state = true;
    assert!(matches!(add(&mut pool, &state, tx("q", "a", 3)), Err(RejectionReason::PolicyViolation(_))));
    assert!(matches!(pool.reconcile(&state, &vec![]), Err(RejectionReason::PolicyViolation(_))));
    let zero = Mempool::with_config(MempoolConfig { max_txs: 0, ..Default::default() });
    let mut zero = zero;
    state.qualified_state = false;
    assert_eq!(
        add(&mut zero, &state, tx("z", "a", 3)),
        Err(RejectionReason::PolicyViolation("Queue capacity is zero".to_string()))
    );
    assert_eq!(pool.total_count(), 0);
}

#[test]
fn snapshot_interleaves_senders_by_fee_and_keeps_nonce_order() {
    let state = ledger();
    let mut pool = Mempool::new();
    let priced = |hash: &str, sender: &str, nonce: u64, price: u64| {
        Transaction::base(hash, sender, "receiver", 1, 1, nonce).with_gas(21_000, price)
    };
    add(&mut pool, &state, priced("a0", "a", 0, 2_000)).unwrap();
    add(&mut pool, &state, priced("a1", "a", 1, 9_000)).unwrap();
    add(&mut pool, &state, priced("b0", "b", 0, 3_000)).unwrap();
    add(&mut pool, &state, priced("c5", "c", 5, 9_000)).unwrap();
    assert_eq!(pool.len(), 3);
    assert_eq!(pool.total_count(), 4);
    assert_eq!(
        nonces(&pool, 10),
        vec![("b".to_string(), 0), ("a".to_string(), 0), ("a".to_string(), 1)]
    );
    assert_eq!(nonces(&pool, 1), vec![("b".to_string(), 0)]);
    assert_eq!(pool.current_min_gas_price(), 2_000);
    assert_eq!(Mempool::new().current_min_gas_price(), 1_000);
}

#[test]
fn capacity_evicts_the_cheapest_transaction() {
    let state = ledger();
    let mut pool = Mempool::with_config(MempoolConfig { max_txs: 2, ..Default::default() });
    let priced = |hash: &str, sender: &str, price: u64| {
        Transaction::base(hash, sender, "receiver", 1, 1, 0).with_gas(21_000, price)
    };
    add(&mut pool, &state, priced("low", "a", 1_000)).unwrap();
    add(&mut pool, &state, priced("high", "b", 5_000)).unwrap();
    assert!(pool.is_full());
    add(&mut pool, &state, priced("mid", "c", 3_000)).unwrap();
    assert_eq!(pool.total_count(), 2);
    assert!(!pool.contains("low"));
    assert!(pool.contains("high") && pool.contains("mid"));
}

#[test]
fn reconcile_takes_committed_nonces_and_drops_included() {
    let mut state = ledger();
    let mut pool = Mempool::new();
    add(&mut pool, &state, tx("a0", "a", 0)).unwrap();
    add(&mut pool, &state, tx("a1", "a", 1)).unwrap();
    add(&mut pool, &state, tx("b0", "b", 0)).unwrap();
    set_nonce(&mut state, "a", 1);
    pool.reconcile(&state, &vec!["a0".to_string()]).unwrap();
    assert_eq!(pool.total_count(), 2);
    assert_eq!(pool.confirmed_nonce("a"), Some(1));
    assert_eq!(pool.len(), 2);
    pool.reconcile(&state, &vec!["b0".to_string()]).unwrap();
    assert_eq!(pool.confirmed_nonce("b"), None);
    assert_eq!(pool.total_bytes(), 67);
}

#[test]
fn push_admits_against_the_empty_ledger() {
    let mut pool = Mempool::new();
    let free = Transaction::base("free", "a", "receiver", 0, 0, 0).with_gas(21_000, 1_000);
    assert_eq!(pool.push(signed(free), vec![], true, None), Ok(()));
    assert!(pool.contains("free"));
    let funded = tx("funded", "a", 1);
    let req = required(&funded);
    assert!(matches!(pool.push(signed(funded), req, true, None), Err(RejectionReason::InsufficientFunds { .. })));
    assert_eq!(pool.push(tx("x", "b", 0), vec![], false, None), Err(RejectionReason::InvalidSignature));
    assert_eq!(pool.len(), 1);
}

#[test]
fn a_signed_admission_needs_a_signature_and_a_public_key() {
    let state = ledger();
    let mut pool = Mempool::new();
    let unsigned = tx("u", "a", 0);
    assert_eq!(pool.add_transaction(&state, unsigned.clone(), vec![], true, None), Err(RejectionReason::InvalidSignature));
    let mut keyless = signed(tx("k", "a", 0));
    keyless.public_key = None;
    assert_eq!(pool.add_transaction(&state, keyless, vec![], true, None), Err(RejectionReason::InvalidSignature));
    assert_eq!(pool.len(), 0);
    assert_eq!(pool.add_transaction(&state, signed(tx("s", "a", 0)), vec![], true, None), Ok(()));
    assert_eq!(add(&mut pool, &state, tx("t", "a", 1)), Ok(()));
    assert!(verify_envelope(&signed(tx("v", "a", 0)), true));
    assert!(!verify_envelope(&signed(tx("v", "a", 0)), false));
    assert!(!verify_envelope(&unsigned, true));
}

#[test]
fn snapshot_starts_with_the_best_head_and_never_repeats() {
    let state = ledger();
    let mut pool = Mempool::new();
    let cheap = Transaction::base("a0", "a", "receiver", 1, 1, 0).with_gas(21_000, 1_000);
    let rich = Transaction::base("b0", "b", "receiver", 1, 1, 0).with_gas(21_000, 5_000);
    let later = Transaction::base("b1", "b", "receiver", 1, 1, 1).with_gas(21_000, 9_000);
    for t in [cheap, rich, later] {
        let req = required(&t);
        pool.add_transaction_trusted(&state, t, req, None).unwrap();
    }
    let snapshot = pool.take_snapshot(10);
    let hashes: Vec<&str> = snapshot.iter().map(|t| t.hash.as_str()).collect();
    assert_eq!(hashes[0], "b0");
    assert_eq!(hashes.len(), 3);
    let mut unique = hashes.clone();
    unique.sort();
    unique.dedup();
    assert_eq!(unique.len(), 3);
}
