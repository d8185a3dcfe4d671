//! Logical-record adapters: the typed state that ordinary metering measures.
//! These bytes measure typed state, not physical storage; every bound is
//! explicit, and encoding does not validate authority or module invariants.
use vstd::prelude::*;
use vstd::string::StringExecFns;
use vstd::utf8::encode_utf8;
use crate::bytes::push_all;
use crate::genesis::{hex_chars, hex_encode};
use crate::ordinary_meter::{
    failure_message, record_bytes, record_failure, LogicalField, LogicalRecord, LogicalValue, MeterError,
};
use crate::text::str_eq;

verus! {

/// A native account: balances by denomination, each listed once, and its
/// nonce.
#[derive(Clone, Debug, PartialEq, Eq)]
pub struct AccountState {
    pub balances: Vec<(String, u128)>,
    pub nonce: u64,
}

pub open spec fn native_denom(d: Seq<char>) -> bool {
    d == seq!['u', 'd', 'g', 't'] || d == seq!['u', 'd', 'r', 't']
}

/// The balance of the first entry for `d`, or zero.
pub open spec fn balance_in(b: Seq<(String, u128)>, d: Seq<char>, i: int) -> u128
    decreases b.len() - i,
{
    if i < 0 || i >= b.len() {
        0
    } else if b[i].0@ == d {
        b[i].1
    } else {
        balance_in(b, d, i + 1)
    }
}

impl AccountState {
    pub fn balance_of(&self, denom: &str) -> (r: u128)
        ensures
            r == balance_in(self.balances@, denom@, 0),
    {
        let mut i: usize = 0;
        while i < self.balances.len()
            invariant
                i <= self.balances@.len(),
                balance_in(self.balances@, denom@, 0) == balance_in(self.balances@, denom@, i as int),
            decreases self.balances@.len() - i,
        {
            if str_eq(self.balances[i].0.as_str(), denom) {
                return self.balances[i].1;
            }
            i = i + 1;
        }
        0
    }

    /// Whether every denomination is native DGT or DRT.
    pub fn native_only(&self) -> (r: bool)
        ensures
            r == (forall|i: int| 0 <= i < self.balances@.len() ==> native_denom(#[trigger] self.balances@[i].0@)),
    {
        let mut i: usize = 0;
        while i < self.balances.len()
            invariant
                i <= self.balances@.len(),
                forall|j: int| 0 <= j < i ==> native_denom(#[trigger] self.balances@[j].0@),
            decreases self.balances@.len() - i,
        {
            let a = str_eq(self.balances[i].0.as_str(), "udgt");
            let b = str_eq(self.balances[i].0.as_str(), "udrt");
            proof {
                reveal_strlit("udgt");
                reveal_strlit("udrt");
                assert("udgt"@ =~= seq!['u', 'd', 'g', 't']);
                assert("udrt"@ =~= seq!['u', 'd', 'r', 't']);
            }
            if !a && !b {
                return false;
            }
            i = i + 1;
        }
        true
    }
}

pub open spec fn native_fields(address: String, udgt: u128, udrt: u128, nonce: u64) -> Seq<LogicalField> {
    seq![
        LogicalField { id: 1, value: LogicalValue::Utf8(address) },
        LogicalField { id: 2, value: LogicalValue::U128(udgt) },
        LogicalField { id: 3, value: LogicalValue::U128(udrt) },
        LogicalField { id: 4, value: LogicalValue::U64(nonce) },
    ]
}

pub open spec fn native_key(address: Seq<char>) -> Seq<u8> {
    encode_utf8("acct:account:"@) + encode_utf8(address)
}

/// A record built from `fields` under `key`, or the bound it breaks.
pub open spec fn record_outcome(r: Result<LogicalRecord, MeterError>, key: Seq<u8>, fields: Seq<LogicalField>, max: u32) -> bool {
    match record_failure(key, fields, max as int) {
        None => r matches Ok(rec) && rec.key_view() == key && rec.bytes_view() == record_bytes(key, fields),
        Some(f) => r == Err::<LogicalRecord, MeterError>(MeterError::Internal(failure_message(f))),
    }
}

/// The native account record. Both native denominations are always encoded,
/// so restoring an unused fee cap cannot change the record's size.
pub fn native_account(address: &str, account: &AccountState, max: u32) -> (r: Result<LogicalRecord, MeterError>)
    ensures
        !(forall|i: int| 0 <= i < account.balances@.len() ==> native_denom(#[trigger] account.balances@[i].0@))
            ==> r == Err::<LogicalRecord, MeterError>(MeterError::Internal("unsupported logical native denomination")),
        (forall|i: int| 0 <= i < account.balances@.len() ==> native_denom(#[trigger] account.balances@[i].0@))
            ==> exists|s: String| s@ == address@ && record_outcome(
            r,
            native_key(address@),
            native_fields(
                s,
                balance_in(account.balances@, seq!['u', 'd', 'g', 't'], 0),
                balance_in(account.balances@, seq!['u', 'd', 'r', 't'], 0),
                account.nonce,
            ),
            max,
        ),
{
    if !account.native_only() {
        return Err(MeterError::Internal("unsupported logical native denomination"));
    }
    let mut key: Vec<u8> = Vec::new();
    push_all(&mut key, "acct:account:".as_bytes());
    push_all(&mut key, address.as_bytes());
    let name = String::from_str(address);
    let udgt = account.balance_of("udgt");
    let udrt = account.balance_of("udrt");
    proof {
        reveal_strlit("udgt");
        reveal_strlit("udrt");
        assert("udgt"@ =~= seq!['u', 'd', 'g', 't']);
        assert("udrt"@ =~= seq!['u', 'd', 'r', 't']);
    }
    let fields = vec![
        LogicalField { id: 1, value: LogicalValue::Utf8(name) },
        LogicalField { id: 2, value: LogicalValue::U128(udgt) },
        LogicalField { id: 3, value: LogicalValue::U128(udrt) },
        LogicalField { id: 4, value: LogicalValue::U64(account.nonce) },
    ];
    assert(fields@ =~= native_fields(name, udgt, udrt, account.nonce));
    let r = LogicalRecord::new(key.as_slice(), fields.as_slice(), max);
    assert(record_outcome(r, native_key(address@), native_fields(name, udgt, udrt, account.nonce), max));
    r
}

pub open spec fn staking_pool_key() -> Seq<u8> {
    encode_utf8("emission:pool:staking_rewards"@)
}

/// The staking reward pool record: one sixteen-byte amount.
pub fn staking_pool(amount: u128, max: u32) -> (r: Result<LogicalRecord, MeterError>)
    ensures
        record_outcome(r, staking_pool_key(), seq![LogicalField { id: 1, value: LogicalValue::U128(amount) }], max),
{
    let fields = vec![LogicalField { id: 1, value: LogicalValue::U128(amount) }];
    assert(fields@ =~= seq![LogicalField { id: 1, value: LogicalValue::U128(amount) }]);
    LogicalRecord::new("emission:pool:staking_rewards".as_bytes(), fields.as_slice(), max)
}

/// Future committed discretionary permission. This does not represent a
/// mandatory liability, validator schedule, penalty, reward accrual or
/// vesting obligation.
#[derive(Clone, Copy, Debug, PartialEq, Eq)]
pub struct DiscretionaryGrant {
    pub version: u16,
    pub owner: [u8; 32],
    pub beneficiary: [u8; 32],
    pub owner_generation: u64,
    pub period_blocks: u64,
    pub last_active_height: u64,
}

pub open spec fn grant_key(id: Seq<u8>) -> Seq<u8> {
    encode_utf8("ordinary:grant:"@ + hex_chars(id))
}

pub open spec fn grant_fields(g: Option<DiscretionaryGrant>) -> Seq<LogicalField> {
    match g {
        None => seq![LogicalField { id: 1, value: LogicalValue::U8(0) }],
        Some(g) => seq![
            LogicalField { id: 1, value: LogicalValue::U8(1) },
            LogicalField { id: 2, value: LogicalValue::Digest(g.owner) },
            LogicalField { id: 3, value: LogicalValue::Digest(g.beneficiary) },
            LogicalField { id: 4, value: LogicalValue::U64(g.owner_generation) },
            LogicalField { id: 5, value: LogicalValue::U64(g.period_blocks) },
            LogicalField { id: 6, value: LogicalValue::U64(g.last_active_height) },
        ],
    }
}

/// The grant record of account `id`: its presence byte, then the grant.
pub fn grant(id: &[u8; 32], entry: Option<&DiscretionaryGrant>, max: u32) -> (r: Result<LogicalRecord, MeterError>)
    ensures
        (entry matches Some(g) && (g.owner@ != id@ || g.version != 1)) ==> r == Err::<LogicalRecord, MeterError>(
            MeterError::Internal("logical grant identity or version differs"),
        ),
        !(entry matches Some(g) && (g.owner@ != id@ || g.version != 1)) ==> record_outcome(
            r,
            grant_key(id@),
            grant_fields(
                match entry {
                    Some(g) => Some(*g),
                    None => None,
                },
            ),
            max,
        ),
{
    let fields = match entry {
        None => vec![LogicalField { id: 1, value: LogicalValue::U8(0) }],
        Some(g) => {
            if !crate::block_meter::digest_eq(&g.owner, id) || g.version != 1 {
                return Err(MeterError::Internal("logical grant identity or version differs"));
            }
            vec![
                LogicalField { id: 1, value: LogicalValue::U8(1) },
                LogicalField { id: 2, value: LogicalValue::Digest(g.owner) },
                LogicalField { id: 3, value: LogicalValue::Digest(g.beneficiary) },
                LogicalField { id: 4, value: LogicalValue::U64(g.owner_generation) },
                LogicalField { id: 5, value: LogicalValue::U64(g.period_blocks) },
                LogicalField { id: 6, value: LogicalValue::U64(g.last_active_height) },
            ]
        },
    };
    let ghost g0 = match entry {
        Some(g) => Some(*g),
        None => None,
    };
    assert(fields@ =~= grant_fields(g0));
    let mut name = String::from_str("ordinary:grant:");
    let hex = hex_encode(id);
    name.append(hex.as_str());
    let mut key: Vec<u8> = Vec::new();
    push_all(&mut key, name.as_str().as_bytes());
    LogicalRecord::new(key.as_slice(), fields.as_slice(), max)
}

pub open spec fn governance_state_key() -> Seq<u8> {
    encode_utf8("governance:v1:state"@)
}

/// The governance state record: the state's canonical bounded encoding as
/// one blob field.
pub fn governance_state(encoded: Vec<u8>, max: u32) -> (r: Result<LogicalRecord, MeterError>)
    ensures
        record_outcome(r, governance_state_key(), seq![LogicalField { id: 1, value: LogicalValue::Bytes(encoded) }], max),
{
    let ghost e = encoded;
    let fields = vec![LogicalField { id: 1, value: LogicalValue::Bytes(encoded) }];
    assert(fields@ =~= seq![LogicalField { id: 1, value: LogicalValue::Bytes(e) }]);
    LogicalRecord::new("governance:v1:state".as_bytes(), fields.as_slice(), max)
}

} // verus!
