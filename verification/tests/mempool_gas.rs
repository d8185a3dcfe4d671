use dytallix_fast_node::mempool::{
    basic_validate, estimate_tx_size, unsupported_reserved_payload_reason, validate_gas, MempoolConfig,
    MempoolError, PendingTx, RejectionReason, Transaction, TxMessage, DEFAULT_MAX_TX_BYTES,
};

fn create_test_transaction(gas_limit: u64, gas_price: u64) -> Transaction {
    Transaction::new(
        "test_hash".to_string(),
        "dytallix1test_from".to_string(),
        "dytallix1test_to".to_string(),
        1000,
        10,
        1,
        Some("test_signature".to_string()),
    )
    .with_gas(gas_limit, gas_price)
}

#[test]
fn test_gas_validation_success() {
    let tx = create_test_transaction(25000, 1000);
    let result = validate_gas(&tx);
    assert!(result.is_ok());
}

#[test]
fn test_gas_validation_zero_price() {
    let tx = create_test_transaction(25000, 0);
    let result = validate_gas(&tx);
    assert!(result.is_err());
    assert!(result.unwrap_err().contains("gas price cannot be zero"));
}

#[test]
fn test_gas_validation_low_limit() {
    let tx = create_test_transaction(100, 1000);
    let result = validate_gas(&tx);
    assert!(result.is_err());
    assert!(result.unwrap_err().contains("GasValidationError"));
}

#[test]
fn test_estimate_tx_size() {
    let tx = create_test_transaction(25000, 1000);
    let size = estimate_tx_size(&tx);
    assert!(size > 50);
    assert!(size < 1000);
}

#[test]
fn test_basic_validate_with_gas() {
    let tx = create_test_transaction(25000, 1000);
    let result = validate_gas(&tx);
    assert!(result.is_ok());
}

#[test]
fn test_legacy_transaction_compatibility() {
    let legacy_tx = Transaction::new(
        "legacy_hash".to_string(),
        "dytallix1legacy_from".to_string(),
        "dytallix1legacy_to".to_string(),
        1000,
        10,
        1,
        Some("legacy_signature".to_string()),
    );
    assert_eq!(legacy_tx.gas_limit, 0);
    assert_eq!(legacy_tx.gas_price, 0);
}

#[test]
fn test_deterministic_gas_validation() {
    let tx1 = create_test_transaction(25000, 1000);
    let tx2 = create_test_transaction(25000, 1000);
    let result1 = validate_gas(&tx1);
    let result2 = validate_gas(&tx2);
    assert_eq!(result1.is_ok(), result2.is_ok());
}

fn base_tx(messages: Vec<TxMessage>) -> Transaction {
    Transaction::base(
        "0xpolicytest",
        "dytallix1sender0000000000000000000000000000",
        "dytallix1receiver00000000000000000000000000",
        0,
        5_000,
        0,
    )
    .with_gas(5_000, 1_000)
    .with_messages(messages)
}

#[test]
fn reserved_governance_payloads_are_detected() {
    let tx = base_tx(vec![TxMessage::Data {
        from: "dytallix1sender0000000000000000000000000000".to_string(),
        data: "governance:vote:7:yes".to_string(),
    }]);
    let reason = unsupported_reserved_payload_reason(&tx).unwrap();
    assert!(reason.contains("governance write payloads"));
}

#[test]
fn reserved_staking_payload_and_plain_data_are_told_apart() {
    let staking = base_tx(vec![TxMessage::Data {
        from: "s".to_string(),
        data: "stake:delegate:dytallix1validator:1000".to_string(),
    }]);
    assert!(unsupported_reserved_payload_reason(&staking).unwrap().starts_with("staking write payloads"));
    let plain = base_tx(vec![TxMessage::Data { from: "s".to_string(), data: "memo:stake:".to_string() }]);
    assert_eq!(unsupported_reserved_payload_reason(&plain), None);
    assert_eq!(unsupported_reserved_payload_reason(&base_tx(Vec::new())), None);
}

#[test]
fn estimated_size_counts_fields_and_caps_signature_bytes() {
    let tx = create_test_transaction(25000, 1000);
    assert_eq!(estimate_tx_size(&tx), 9 + 18 + 16 + 16 + 16 + 8 + 14 + 8 + 8);
    let long = Transaction::new("h".into(), "f".into(), "t".into(), 0, 0, 0, Some("x".repeat(1000)));
    assert_eq!(estimate_tx_size(&long), 3 + 16 + 16 + 8 + 256 + 8 + 8);
    let unsigned = Transaction::base("h", "f", "t", 0, 0, 0);
    assert_eq!(estimate_tx_size(&unsigned), 3 + 16 + 16 + 8 + 8 + 8);
}

#[test]
fn gas_limit_boundary_is_the_intrinsic_gas() {
    let size = estimate_tx_size(&create_test_transaction(0, 1)) as u64;
    let intrinsic = 500 + 10 * size;
    assert!(validate_gas(&create_test_transaction(intrinsic, 1)).is_ok());
    assert_eq!(
        validate_gas(&create_test_transaction(intrinsic - 1, 1)).unwrap_err(),
        "GasValidationError: gas limit below intrinsic gas"
    );
}

#[test]
fn rejection_reasons_have_labels_and_text() {
    let gap = RejectionReason::NonceGap { expected: 7, got: 3 };
    assert_eq!(gap.to_metric_label(), "nonce_gap");
    assert_eq!(gap.message(), "nonce gap: expected 7, got 3");
    let funds = RejectionReason::InsufficientFunds { denom: "udgt".into(), required: 10, available: 0 };
    assert_eq!(funds.to_metric_label(), "insufficient_funds");
    assert_eq!(funds.message(), "insufficient funds for udgt: required 10, available 0");
    assert_eq!(RejectionReason::Duplicate("ab".into()).message(), "duplicate tx ab");
    assert_eq!(RejectionReason::InvalidSignature.to_metric_label(), "invalid_signature");
    assert_eq!(
        RejectionReason::OversizedTx { max: 1024, got: 2048 }.message(),
        "oversized transaction: max 1024, got 2048"
    );
    assert_eq!(RejectionReason::UnderpricedGas { min: 1000, got: 1 }.to_metric_label(), "underpriced_gas");
    assert_eq!(RejectionReason::PolicyViolation("p".into()).message(), "policy violation: p");
    assert_eq!(RejectionReason::InternalError("i".into()).to_metric_label(), "internal_error");
}

#[test]
fn duplicate_rejection_becomes_the_legacy_duplicate_error() {
    assert!(matches!(MempoolError::from(RejectionReason::Duplicate("h".into())), MempoolError::Duplicate));
    match MempoolError::from(RejectionReason::InvalidSignature) {
        MempoolError::Rejection(RejectionReason::InvalidSignature) => {}
        other => panic!("unexpected {other:?}"),
    }
    assert_eq!(MempoolError::Full.message(), "full");
}

#[test]
fn default_config_uses_built_in_limits() {
    let config = MempoolConfig::default();
    assert_eq!(config.max_tx_bytes, DEFAULT_MAX_TX_BYTES);
    assert_eq!(config.min_gas_price, 1000);
    assert_eq!(config.max_txs, 10000);
    assert_eq!(config.max_bytes, 100 * 1024 * 1024);
}

#[test]
fn priority_orders_price_then_nonce_then_hash() {
    let cheap = PendingTx::received(Transaction::base("b", "s", "t", 0, 0, 0).with_gas(1, 5), 1);
    let rich = PendingTx::received(Transaction::base("c", "s", "t", 0, 0, 9).with_gas(1, 50), 1);
    assert!(rich.priority_key().precedes(&cheap.priority_key()));
    assert!(rich.priority_key() < cheap.priority_key());
    let early = PendingTx::received(Transaction::base("z", "s", "t", 0, 0, 1).with_gas(1, 5), 1);
    assert!(early.priority_key().precedes(&PendingTx::received(Transaction::base("a", "s", "t", 0, 0, 2).with_gas(1, 5), 1).priority_key()));
    let a = PendingTx::received(Transaction::base("a", "s", "t", 0, 0, 1).with_gas(1, 5), 1);
    assert!(a.priority_key().precedes(&early.priority_key()));
    assert!(!early.priority_key().precedes(&early.priority_key()));
    let now = PendingTx::new(Transaction::base("a", "s", "t", 0, 0, 1));
    assert_eq!(now.serialized_size, 1 + 1 + 1 + 16 + 16 + 8 + 8 + 8);
}

#[test]
fn basic_validate_checks_state_funds_then_gas() {
    let tx = create_test_transaction(25000, 1000);
    let balances = vec![("udgt".to_string(), 1010u128)];
    let required = vec![("udgt".to_string(), 1010u128)];
    assert_eq!(basic_validate(false, &balances, &required, &tx), Ok(()));
    let err = basic_validate(true, &balances, &required, &tx).unwrap_err();
    assert!(err.starts_with("Qualified account state requires consensus admission"));
    let short = vec![("udgt".to_string(), 1009u128)];
    assert_eq!(
        basic_validate(false, &short, &required, &tx).unwrap_err(),
        "insufficient funds for udgt: required 1010, available 1009"
    );
    let free = create_test_transaction(100, 1000);
    assert_eq!(
        basic_validate(false, &balances, &required, &free).unwrap_err(),
        "internal error: GasValidationError: gas limit below intrinsic gas"
    );
    let legacy = Transaction::new("h".into(), "f".into(), "t".into(), 1, 1, 0, None);
    assert_eq!(basic_validate(false, &balances, &Vec::new(), &legacy), Ok(()));
}
