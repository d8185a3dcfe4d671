use dytallix_fast_node::genesis::{
    account_balances, check_timing, genesis_batch, decode_balances, genesis_digest_hex, genesis_marker, initialize, initialize_consensus, initialize_consensus_with_root,
    parse_amount, AllocationPlan, Delegation,
    Document, GenesisAccount, GenesisError, InitialStake, Initialization, RewardGenesisInput, RewardPositionInput,
    RewardValidatorInput, StoredGenesis, VestingInput, DGT_MAX_SUPPLY,
};
use sha2::{Digest, Sha256};

fn account(address: &str, balances: &[(&str, &str)], vesting: Option<VestingInput>) -> Result<GenesisAccount, GenesisError> {
    let entries: Vec<(String, String)> = balances.iter().map(|(d, a)| (d.to_string(), a.to_string())).collect();
    Ok(GenesisAccount { address: address.to_string(), balances: account_balances(&entries)?, vesting })
}

fn delegation(delegator: &str, amount: u128) -> Delegation {
    Delegation { delegator: delegator.to_string(), amount_udgt: amount }
}

fn document(accounts: Vec<GenesisAccount>, staking: Option<InitialStake>) -> Document {
    Document { chain_id: "test".to_string(), accounts, staking, reward_v2: None, adaptive_issuance: None }
}

/// The fixture: alice holds 100 uDGT and 9 uDRT, bob 50 uDGT; alice stakes
/// 40 and bob, as the user delegation, 10.
fn source() -> Document {
    document(
        vec![
            account("alice", &[("udgt", "100"), ("udrt", "9")], None).unwrap(),
            account("bob", &[("udgt", "50")], None).unwrap(),
        ],
        Some(InitialStake { delegations: vec![delegation("alice", 40)], user_delegation: Some(delegation("bob", 10)) }),
    )
}

const SOURCE: &[u8] = br#"{"chain_id":"test","accounts":[...]}"#;

fn empty_store() -> StoredGenesis {
    StoredGenesis {
        marker: None,
        mode: None,
        chain_id: None,
        drt_genesis: 0,
        reward_state: None,
        legacy_liabilities: false,
        qualified_state: false,
        empty: true,
        timing_keys: vec![],
        timing_state: None,
    }
}

fn reject(doc: Option<Document>) {
    let result = initialize(&empty_store(), "test", Some(SOURCE), doc, None, false);
    assert!(result.is_err(), "invalid genesis was accepted");
}

fn linear(total: u128, start: u64, cliff: u64, duration: u64, allow: bool) -> VestingInput {
    VestingInput::LinearAfterCliff {
        total_amount: total,
        start_time: start,
        cliff_duration: cliff,
        vesting_duration: duration,
        allow_staking: allow,
    }
}

fn position(owner: &str, amount: u128) -> RewardPositionInput {
    RewardPositionInput { owner: owner.to_string(), validator: "fixture-validator".to_string(), amount_udgt: amount }
}

fn reward(positions: Vec<RewardPositionInput>) -> RewardGenesisInput {
    RewardGenesisInput {
        version: 2,
        activation_height: 1,
        decimals: 6,
        profile: "development".to_string(),
        max_validators: 64,
        max_positions: 128,
        validators: vec![RewardValidatorInput { address: "fixture-validator".to_string(), active: true, jailed: false }],
        positions,
    }
}

fn reward_source(alice_vesting: VestingInput) -> Document {
    let mut doc = document(
        vec![
            account("alice", &[("udgt", "100"), ("udrt", "9")], Some(alice_vesting)).unwrap(),
            account("bob", &[("udgt", "50")], Some(VestingInput::Unlocked)).unwrap(),
        ],
        Some(InitialStake { delegations: vec![delegation("alice", 40)], user_delegation: Some(delegation("bob", 10)) }),
    );
    doc.reward_v2 = Some(reward(vec![position("alice", 40), position("bob", 10)]));
    doc
}

#[test]
fn native_genesis_rejects_legacy_totals_and_whole_token_aliases() {
    for amount in ["1000000000000000000", "1000000000000000000000000000"] {
        reject(Some(document(vec![account("fixture", &[("udgt", amount)], None).unwrap()], None)));
    }
    for denomination in ["DGT", "DRT", "dgt", "drt"] {
        reject(Some(document(vec![account("fixture", &[(denomination, "1")], None).unwrap()], None)));
    }
}

#[test]
fn malformed_late_accounts_and_amounts_leave_no_state() {
    for amount in ["-1", "+1", "1.5", "1e2", "", "340282366920938463463374607431768211456"] {
        let late = account("bob", &[("udgt", amount)], None);
        assert!(late.is_err());
        reject(late.ok().map(|bob| document(vec![account("alice", &[("udgt", "1")], None).unwrap(), bob], None)));
    }
    reject(Some(document(
        vec![account("alice", &[("udgt", "1")], None).unwrap(), account("bob", &[("other", "1")], None).unwrap()],
        None,
    )));
    reject(Some(document(vec![account("bad address", &[], None).unwrap()], None)));
}

#[test]
fn duplicate_representations_are_rejected_before_write() {
    reject(Some(document(vec![account("a", &[], None).unwrap(), account("a", &[], None).unwrap()], None)));
    let duplicate_denomination = account("a", &[("udgt", "1"), ("udgt", "2")], None);
    assert_eq!(duplicate_denomination.err(), Some(GenesisError::DuplicateDenomination));
    reject(None);
    reject(Some(document(
        vec![account("a", &[("udgt", "10")], None).unwrap()],
        Some(InitialStake { delegations: vec![delegation("a", 1), delegation("a", 1)], user_delegation: None }),
    )));
    reject(Some(document(
        vec![account("a", &[("udgt", "10")], None).unwrap()],
        Some(InitialStake { delegations: vec![delegation("a", 1)], user_delegation: Some(delegation("a", 1)) }),
    )));
}

#[test]
fn cap_and_aggregate_overflow_are_rejected() {
    let over = (DGT_MAX_SUPPLY + 1).to_string();
    reject(Some(document(vec![account("a", &[("udgt", &over)], None).unwrap()], None)));
    let max = u128::MAX.to_string();
    reject(Some(document(
        vec![account("a", &[("udrt", &max)], None).unwrap(), account("b", &[("udrt", "1")], None).unwrap()],
        None,
    )));
}

#[test]
fn missing_or_insufficient_stake_funding_is_rejected() {
    reject(Some(document(
        Vec::new(),
        Some(InitialStake { delegations: Vec::new(), user_delegation: Some(delegation("a", 1)) }),
    )));
    reject(Some(document(
        vec![account("a", &[("udgt", "1")], None).unwrap()],
        Some(InitialStake { delegations: Vec::new(), user_delegation: Some(delegation("a", 2)) }),
    )));
}

#[test]
fn reward_v2_positions_must_match_funded_owner_stake_without_duplicates() {
    let base = reward_source(linear(100, 0, 10, 30, true));
    let plan = AllocationPlan::build(base, "test").unwrap();
    assert!(plan.validate_reward().unwrap().is_some());
    let mut cases: Vec<Vec<RewardPositionInput>> = Vec::new();
    let mut unknown_owner = vec![position("alice", 40), position("bob", 10)];
    unknown_owner[0].owner = "unknown".to_string();
    cases.push(unknown_owner);
    let mut unknown_validator = vec![position("alice", 40), position("bob", 10)];
    unknown_validator[0].validator = "unknown".to_string();
    cases.push(unknown_validator);
    cases.push(vec![position("alice", 41), position("bob", 10)]);
    cases.push(vec![position("alice", 0), position("bob", 10)]);
    cases.push(vec![position("alice", 40), position("bob", 10), position("alice", 40)]);
    cases.push(vec![position("alice", 40)]);
    for positions in cases {
        let mut doc = reward_source(linear(100, 0, 10, 30, true));
        doc.reward_v2 = Some(reward(positions));
        reject(Some(doc));
    }
    let mut doc = reward_source(linear(100, 0, 10, 30, true));
    let mut input = reward(vec![position("alice", 40), position("bob", 10)]);
    input.validators.push(RewardValidatorInput { address: "fixture-validator".to_string(), active: true, jailed: false });
    doc.reward_v2 = Some(input);
    reject(Some(doc));
}

#[test]
fn reward_v2_requires_explicit_checked_vesting_and_permission_to_bond() {
    for vesting in [
        linear(99, 0, 10, 30, true),
        linear(100, 0, 30, 30, true),
        linear(100, u64::MAX, 10, 30, true),
        linear(100, 0, 10, 30, false),
    ] {
        reject(Some(reward_source(vesting)));
    }
    let mut doc = reward_source(linear(100, 0, 10, 30, true));
    doc.accounts[1].vesting = None;
    reject(Some(doc));
    // An explicit lock that forbids staking can be imported if no principal bonds.
    let mut doc = reward_source(linear(100, 0, 10, 30, false));
    doc.staking = Some(InitialStake { delegations: Vec::new(), user_delegation: Some(delegation("bob", 10)) });
    doc.reward_v2 = Some(reward(vec![position("bob", 10)]));
    assert!(initialize(&empty_store(), "test", Some(SOURCE), Some(doc), None, false).is_ok());
}

#[test]
fn fixture_plan_moves_stake_out_of_liquid_balances() {
    let plan = AllocationPlan::build(source(), "test").unwrap();
    assert_eq!(plan.accounts.len(), 2);
    assert_eq!((plan.accounts[0].address.as_str(), plan.accounts[0].udgt, plan.accounts[0].udrt), ("alice", 60, 9));
    assert_eq!((plan.accounts[1].address.as_str(), plan.accounts[1].udgt, plan.accounts[1].udrt), ("bob", 40, 0));
    assert_eq!((plan.dgt_total, plan.drt_total, plan.stake_total), (150, 9, 50));
    let liquid: u128 = plan.accounts.iter().map(|a| a.udgt).sum();
    assert_eq!(liquid + plan.stake_total, plan.dgt_total);
    assert_eq!(plan.delegations.len(), 2);
    assert_eq!((plan.delegations[1].delegator.as_str(), plan.delegations[1].amount), ("bob", 10));
}

#[test]
fn build_reports_each_refusal() {
    let mut other_chain = source();
    other_chain.chain_id = "other".to_string();
    assert_eq!(AllocationPlan::build(other_chain, "test").err(), Some(GenesisError::ChainIdMismatch));
    let mut adaptive = source();
    adaptive.adaptive_issuance = Some(4);
    assert_eq!(AllocationPlan::build(adaptive, "test").err(), Some(GenesisError::AdaptiveWithoutReward));
    let locked = document(vec![account("a", &[("udgt", "5")], Some(linear(5, 0, 1, 2, true))).unwrap()], None);
    assert_eq!(AllocationPlan::build(locked, "test").err(), Some(GenesisError::LockWithoutReward));
    let cap = document(vec![account("a", &[("udgt", &(DGT_MAX_SUPPLY + 1).to_string())], None).unwrap()], None);
    assert_eq!(AllocationPlan::build(cap, "test").err(), Some(GenesisError::SupplyCap));
    let exact = document(
        vec![
            account("a", &[("udgt", &DGT_MAX_SUPPLY.to_string()), ("udrt", "0")], None).unwrap(),
            account("b", &[("udgt", "0")], None).unwrap(),
        ],
        Some(InitialStake { delegations: Vec::new(), user_delegation: Some(delegation("a", DGT_MAX_SUPPLY)) }),
    );
    let plan = AllocationPlan::build(exact, "test").unwrap();
    assert_eq!((plan.accounts[0].udgt, plan.dgt_total, plan.stake_total), (0, DGT_MAX_SUPPLY, DGT_MAX_SUPPLY));
    let unfunded = document(
        Vec::new(),
        Some(InitialStake { delegations: Vec::new(), user_delegation: Some(delegation("a", 1)) }),
    );
    assert_eq!(AllocationPlan::build(unfunded, "test").err(), Some(GenesisError::UnfundedStake));
}

#[test]
fn amounts_are_plain_decimal_digits() {
    assert_eq!(parse_amount("0"), Ok(0));
    assert_eq!(parse_amount("007"), Ok(7));
    assert_eq!(parse_amount("340282366920938463463374607431768211455"), Ok(u128::MAX));
    assert_eq!(parse_amount("340282366920938463463374607431768211456"), Err(GenesisError::AmountOverflow));
    assert_eq!(parse_amount("99999999999999999999999999999999999999999x"), Err(GenesisError::AmountNotDecimal));
    assert_eq!(parse_amount(""), Err(GenesisError::AmountNotDecimal));
    assert_eq!(parse_amount("+1"), Err(GenesisError::AmountNotDecimal));
    assert_eq!(GenesisError::AmountOverflow.message(), "Genesis amount exceeds u128");
}

#[test]
fn marker_hashes_domain_chain_and_source() {
    let marker = genesis_marker("test", Some(SOURCE));
    let mut hash = Sha256::new();
    hash.update(b"dytallix-selected-node-genesis-monetary-v1");
    hash.update(4u64.to_be_bytes());
    hash.update(b"test");
    hash.update([1]);
    hash.update(SOURCE);
    let digest = hash.finalize();
    assert_eq!(marker[0], 1);
    assert_eq!(&marker[1..], digest.as_slice());
    assert_eq!(genesis_digest_hex(&marker), hex::encode(digest));
    let absent = genesis_marker("test", None);
    let mut hash = Sha256::new();
    hash.update(b"dytallix-selected-node-genesis-monetary-v1");
    hash.update(4u64.to_be_bytes());
    hash.update(b"test");
    hash.update([0]);
    assert_eq!(&absent[1..], hash.finalize().as_slice());
}

#[test]
fn empty_development_store_is_initialized_once() {
    let first = initialize(&empty_store(), "test", None, None, None, false).unwrap();
    assert_eq!(first.status, Initialization::Created);
    assert!(first.plan.accounts.is_empty());
    let written = StoredGenesis {
        marker: Some(first.marker.clone()),
        mode: None,
        chain_id: Some(b"test".to_vec()),
        drt_genesis: 0,
        reward_state: None,
        legacy_liabilities: false,
        qualified_state: false,
        empty: false,
        timing_keys: vec![],
        timing_state: None,
    };
    let again = initialize(&written, "test", None, None, None, false).unwrap();
    assert_eq!(again.status, Initialization::Existing);
    assert_eq!(
        initialize(&written, "test", Some(SOURCE), Some(source()), None, false).err(),
        Some(GenesisError::SourceDiffers)
    );
    assert_eq!(initialize(&written, "other", None, None, None, false).err(), Some(GenesisError::SourceDiffers));
    let mut other = written;
    other.marker = None;
    assert_eq!(initialize(&other, "test", None, None, None, false).err(), Some(GenesisError::UnmarkedStore));
}

#[test]
fn initialization_refusals_come_in_order() {
    assert_eq!(
        initialize(&empty_store(), "test", None, None, None, true).err(),
        Some(GenesisError::RootRequiresConsensus)
    );
    let mut qualified = empty_store();
    qualified.qualified_state = true;
    assert_eq!(initialize(&qualified, "test", None, None, None, false).err(), Some(GenesisError::QualifiedState));
    assert_eq!(initialize(&empty_store(), " \t", None, None, None, false).err(), Some(GenesisError::EmptyChainId));
    assert_eq!(
        initialize(&empty_store(), "test", Some(SOURCE), None, None, false).err(),
        Some(GenesisError::InvalidDocument)
    );
    assert_eq!(
        initialize(&empty_store(), "test", None, None, Some(b"config".as_slice()), false).err(),
        Some(GenesisError::ConsensusRequiresSource)
    );
    let created = initialize(&empty_store(), "test", Some(SOURCE), Some(source()), Some(b"config".as_slice()), true).unwrap();
    assert_eq!(created.status, Initialization::Created);
    assert_eq!(created.plan.drt_total, 9);
}

#[test]
fn consensus_initialization_bounds_its_configuration() {
    assert_eq!(
        initialize_consensus(&empty_store(), "test", SOURCE, Some(source()), &[]).err(),
        Some(GenesisError::ConsensusConfigSize)
    );
    let big = vec![1u8; 65_537];
    assert_eq!(
        initialize_consensus_with_root(&empty_store(), "test", SOURCE, Some(source()), &big, true).err(),
        Some(GenesisError::ConsensusConfigSizeDiffers)
    );
    assert_eq!(GenesisError::ConsensusConfigSize.message(), "Consensus configuration must contain 1 through 65536 bytes");
    let created = initialize_consensus(&empty_store(), "test", SOURCE, Some(source()), b"mode").unwrap();
    assert_eq!(created.status, Initialization::Created);
    let rooted = initialize_consensus_with_root(&empty_store(), "test", SOURCE, Some(source()), &[7u8; 65_536], true).unwrap();
    assert_eq!(rooted.status, Initialization::Created);
}

#[test]
fn account_balances_are_ordered_by_denomination() {
    let entries: Vec<(String, String)> =
        [("udrt", "9"), ("udgt", "100"), ("aaa", "0"), ("Zed", "3")].iter().map(|(d, a)| (d.to_string(), a.to_string())).collect();
    let ordered = account_balances(&entries).unwrap();
    assert_eq!(
        ordered,
        vec![("Zed".to_string(), 3), ("aaa".to_string(), 0), ("udgt".to_string(), 100), ("udrt".to_string(), 9)]
    );
    assert_eq!(decode_balances(&entries).unwrap()[0], ("udrt".to_string(), 9));
    let repeated: Vec<(String, String)> =
        [("udgt", "1"), ("udgt", "2")].iter().map(|(d, a)| (d.to_string(), a.to_string())).collect();
    assert_eq!(account_balances(&repeated), Err(GenesisError::DuplicateDenomination));
    assert_eq!(account_balances(&vec![]), Ok(vec![]));
}

#[test]
fn reopening_checks_the_stored_timing_records() {
    let first = initialize(&empty_store(), "test", None, None, None, false).unwrap();
    let written = |keys: Vec<&str>, state: Option<bool>| StoredGenesis {
        marker: Some(first.marker.clone()),
        mode: None,
        chain_id: Some(b"test".to_vec()),
        drt_genesis: 0,
        reward_state: None,
        legacy_liabilities: false,
        qualified_state: false,
        empty: false,
        timing_keys: keys.into_iter().map(|k| k.as_bytes().to_vec()).collect(),
        timing_state: state,
    };
    assert_eq!(initialize(&written(vec![], None), "test", None, None, None, false).unwrap().status, Initialization::Existing);
    for orphan in ["adaptive:v1:head", "adaptive:v1:event:orphan", "issuance:epoch:1"] {
        assert_eq!(
            initialize(&written(vec![orphan], Some(true)), "test", None, None, None, false).err(),
            Some(GenesisError::TimingStateUnexpected)
        );
    }
    assert_eq!(
        GenesisError::TimingStateUnexpected.message(),
        "Adaptive or issuance state has no matching genesis activation"
    );
}

#[test]
fn timing_records_are_bounded_named_and_verified() {
    let keys = |ks: &[&str]| ks.iter().map(|k| k.as_bytes().to_vec()).collect::<Vec<_>>();
    let journal = keys(&["adaptive:v1:event:0001", "adaptive:v1:head", "issuance:epoch:0"]);
    assert_eq!(check_timing(&journal, Some(1), Some(true)), Ok(()));
    assert_eq!(check_timing(&journal, Some(1), Some(false)), Err(GenesisError::TimingConfigDiffers));
    assert_eq!(check_timing(&journal, Some(1), None), Err(GenesisError::TimingStateInvalid));
    assert_eq!(check_timing(&journal, None, Some(true)), Err(GenesisError::TimingStateUnexpected));
    assert_eq!(check_timing(&vec![], None, None), Ok(()));
    assert_eq!(check_timing(&vec![], Some(u64::MAX), Some(true)), Err(GenesisError::TimingLimitOverflow));
    let five = keys(&["adaptive:v1:head", "issuance:a", "issuance:b", "issuance:c", "issuance:d"]);
    assert_eq!(check_timing(&five, Some(1), Some(true)), Err(GenesisError::TimingHistoryBound));
    assert_eq!(check_timing(&five, Some(2), Some(true)), Ok(()));
    let unknown = keys(&["adaptive:v2:head"]);
    assert_eq!(check_timing(&unknown, Some(1), Some(true)), Err(GenesisError::UnknownAdaptiveRecord));
}

fn entry(out: &mut Vec<u8>, denom: &str, amount: u128) {
    out.extend((denom.len() as u64).to_le_bytes());
    out.extend(denom.as_bytes());
    out.extend(amount.to_le_bytes());
}

#[test]
fn created_genesis_encodes_balances_counter_chain_and_marker() {
    let init = initialize(&empty_store(), "test", Some(SOURCE), Some(source()), None, false).unwrap();
    let batch = genesis_batch(&init, "test", None);
    let records = &batch.records;
    assert_eq!(records.len(), 5);
    let mut alice = 2u64.to_le_bytes().to_vec();
    entry(&mut alice, "udgt", 60);
    entry(&mut alice, "udrt", 9);
    assert_eq!(records[0], (b"acct:balances:alice".to_vec(), alice));
    let mut bob = 1u64.to_le_bytes().to_vec();
    entry(&mut bob, "udgt", 40);
    assert_eq!(records[1], (b"acct:balances:bob".to_vec(), bob));
    assert_eq!(records[2], (b"supply:drt_genesis".to_vec(), 9u128.to_le_bytes().to_vec()));
    assert_eq!(records[3], (b"meta:chain_id".to_vec(), b"test".to_vec()));
    assert_eq!(records[4], (b"genesis:monetary:v1".to_vec(), init.marker.clone()));
    assert_eq!(batch.mode, None);
    assert_eq!(batch.dgt_minted, 150u128.to_le_bytes().to_vec());
    assert_eq!(batch.stake_total, 50u128.to_le_bytes().to_vec());
    assert_eq!(batch.delegations, vec![("alice".to_string(), 40), ("bob".to_string(), 10)]);
    let empty = initialize(&empty_store(), "test", None, None, None, false).unwrap();
    assert_eq!(genesis_batch(&empty, "test", None).records.len(), 3);
}

#[test]
fn consensus_genesis_batch_carries_the_mode_configuration() {
    let created = initialize_consensus(&empty_store(), "test", SOURCE, Some(source()), b"config").unwrap();
    assert_eq!(created.status, Initialization::Created);
    let batch = genesis_batch(&created, "test", Some(b"config".as_slice()));
    assert_eq!(batch.mode, Some(b"config".to_vec()));
    for size in [0usize, 65537] {
        assert_eq!(
            initialize_consensus(&empty_store(), "test", SOURCE, Some(source()), &vec![1; size]).err(),
            Some(GenesisError::ConsensusConfigSize)
        );
    }
    assert_eq!(
        initialize_consensus(&empty_store(), "test", b"invalid", None, b"config").err(),
        Some(GenesisError::InvalidDocument)
    );
}
