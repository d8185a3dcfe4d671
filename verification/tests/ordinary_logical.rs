use dytallix_fast_node::ordinary_logical::{
    governance_state, grant, native_account, staking_pool, AccountState, DiscretionaryGrant,
};
use dytallix_fast_node::ordinary_meter::MeterError;

const MAX: u32 = 1_000_000;

// Independent layout oracle: no LogicalRecord::new calls.
fn blob(out: &mut Vec<u8>, v: &[u8]) {
    out.extend((v.len() as u32).to_be_bytes());
    out.extend(v);
}

fn record(key: &str, fields: Vec<(u16, u8, Vec<u8>)>) -> Vec<u8> {
    let mut b = b"DYTALLIX/ORDINARY-LOGICAL\0".to_vec();
    b.extend(1u16.to_be_bytes());
    b.extend((key.len() as u16).to_be_bytes());
    b.extend(key.as_bytes());
    b.extend((fields.len() as u16).to_be_bytes());
    for (id, tag, v) in fields {
        b.extend(id.to_be_bytes());
        b.push(tag);
        b.extend(v);
    }
    b
}

fn string(out: &mut Vec<u8>, s: &str) {
    out.extend((s.len() as u64).to_le_bytes());
    out.extend(s.as_bytes());
}

fn payload_record(key: &str, payload: Vec<u8>) -> Vec<u8> {
    let mut b = Vec::new();
    blob(&mut b, &payload);
    record(key, vec![(1, 3, b)])
}

/// Set a denomination's balance the way a sorted balance map would.
fn set(balances: &mut Vec<(String, u128)>, denom: &str, amount: u128) {
    balances.retain(|(d, _)| d != denom);
    balances.push((denom.to_string(), amount));
    balances.sort();
}

fn remove(balances: &mut Vec<(String, u128)>, denom: &str) {
    balances.retain(|(d, _)| d != denom);
}

#[test]
fn native_account_vector_always_includes_both_fixed_width_denominations() {
    let account = AccountState {
        balances: vec![("udgt".into(), 1), ("udrt".into(), u128::MAX)],
        nonce: u64::MAX,
    };
    let got = native_account("a", &account, MAX).unwrap();
    let mut address = Vec::new();
    blob(&mut address, b"a");
    assert_eq!(
        got.canonical_bytes(),
        record(
            "acct:account:a",
            vec![
                (1, 4, address),
                (2, 2, 1u128.to_be_bytes().to_vec()),
                (3, 2, u128::MAX.to_be_bytes().to_vec()),
                (4, 1, u64::MAX.to_be_bytes().to_vec()),
            ]
        )
    );
    let mut reserved = account.clone();
    remove(&mut reserved.balances, "udrt");
    let reserved_record = native_account("a", &reserved, MAX).unwrap();
    assert_eq!(got.byte_len(), reserved_record.byte_len());
    set(&mut reserved.balances, "udrt", 0);
    assert_eq!(reserved_record, native_account("a", &reserved, MAX).unwrap());
    set(&mut reserved.balances, "udrt", 7);
    assert_eq!(got.byte_len(), native_account("a", &reserved, MAX).unwrap().byte_len());
    reserved.balances.clear();
    reserved.nonce = 0;
    assert_eq!(got.byte_len(), native_account("a", &reserved, MAX).unwrap().byte_len());
    assert!(native_account("a", &account, got.byte_len() as u32 - 1).is_err());
    assert_eq!(got, native_account("a", &account, got.byte_len() as u32).unwrap());
}

#[test]
fn native_account_rejects_unknown_denominations_even_with_zero_balance() {
    for amount in [0, 1, u128::MAX] {
        let account = AccountState { balances: vec![("other".into(), amount)], nonce: 0 };
        assert!(matches!(
            native_account("a", &account, MAX),
            Err(MeterError::Internal("unsupported logical native denomination"))
        ));
    }
}

#[test]
fn grant_vectors_distinguish_absence_and_bind_generation_at_fixed_width() {
    let id = [2; 32];
    let key = format!("ordinary:grant:{}", hex::encode(id));
    assert_eq!(grant(&id, None, MAX).unwrap().canonical_bytes(), record(&key, vec![(1, 6, vec![0])]));
    let g = DiscretionaryGrant {
        version: 1,
        owner: id,
        beneficiary: [3; 32],
        owner_generation: 7,
        period_blocks: 9,
        last_active_height: 11,
    };
    let expected = record(
        &key,
        vec![
            (1, 6, vec![1]),
            (2, 5, id.to_vec()),
            (3, 5, vec![3; 32]),
            (4, 1, 7u64.to_be_bytes().to_vec()),
            (5, 1, 9u64.to_be_bytes().to_vec()),
            (6, 1, 11u64.to_be_bytes().to_vec()),
        ],
    );
    let got = grant(&id, Some(&g), MAX).unwrap();
    assert_eq!(got.canonical_bytes(), expected);
    let mut changed = g.clone();
    changed.owner_generation = u64::MAX;
    assert_eq!(got.byte_len(), grant(&id, Some(&changed), MAX).unwrap().byte_len());
    assert!(grant(&[4; 32], Some(&g), MAX).is_err());
    changed.version = 2;
    assert!(grant(&id, Some(&changed), MAX).is_err());
    assert!(grant(&id, Some(&g), got.byte_len() as u32 - 1).is_err());
    assert!(grant(&id, None, 0).is_err());
}

#[test]
fn staking_pool_vector_keeps_sixteen_byte_amount_and_exact_bound() {
    for amount in [0, 1, u128::MAX] {
        let got = staking_pool(amount, MAX).unwrap();
        assert_eq!(
            got.canonical_bytes(),
            record("emission:pool:staking_rewards", vec![(1, 2, amount.to_be_bytes().to_vec())])
        );
        assert_eq!(got, staking_pool(amount, got.byte_len() as u32).unwrap());
        assert!(staking_pool(amount, got.byte_len() as u32 - 1).is_err());
    }
}

#[test]
fn bound_failure_names_the_exceeded_bound() {
    assert_eq!(
        staking_pool(5, 10),
        Err(MeterError::Internal("logical record exceeds bound"))
    );
}

#[test]
fn governance_state_vector_uses_canonical_bounded_payload() {
    // The canonical encoding of a fresh governance state: version 1, chain
    // "c", candidate digest [3; 32], activation 7, next proposal 1, no
    // proposals.
    let mut payload = 1u16.to_le_bytes().to_vec();
    string(&mut payload, "c");
    payload.extend([3; 32]);
    payload.extend(7u64.to_le_bytes());
    payload.extend(1u64.to_le_bytes());
    payload.extend(0u64.to_le_bytes());
    let got = governance_state(payload.clone(), MAX).unwrap();
    assert_eq!(got.key(), b"governance:v1:state");
    assert_eq!(got.canonical_bytes(), payload_record("governance:v1:state", payload.clone()));
    assert!(governance_state(payload, got.byte_len() as u32 - 1).is_err());
}
