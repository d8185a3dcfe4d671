//! Mempool admission rules: rejection reasons, size accounting, gas checks,
//! reserved payload prefixes, priority keys and the legacy funds check.
use vstd::prelude::*;
use vstd::string::{StringExecFns, StrSliceExecFns};
use vstd::utf8::encode_utf8;
use crate::text::str_eq;
pub use crate::mempool_queue::{LedgerView, Mempool};

verus! {

pub const DEFAULT_MAX_TX_BYTES: usize = 1048576usize;
pub const DEFAULT_MIN_GAS_PRICE: u64 = 1000u64;
pub const DEFAULT_MEMPOOL_MAX_TXS: usize = 10000usize;
pub const DEFAULT_MEMPOOL_MAX_BYTES: usize = 104857600usize;

/// Error code for external API responses.
pub const TX_INVALID_SIG: &'static str = "TX_INVALID_SIG";

/// The decimal text of a number, most significant digit first.
pub open spec fn decimal_text(v: nat) -> Seq<char>
    decreases v,
{
    if v < 10 {
        seq![(48 + v) as char]
    } else {
        decimal_text(v / 10).push((48 + v % 10) as char)
    }
}

fn digit(d: u128) -> (r: &'static str)
    requires
        d < 10,
    ensures
        r@ == seq![(48 + d) as char],
{
    proof {
        reveal_strlit("0");
        reveal_strlit("1");
        reveal_strlit("2");
        reveal_strlit("3");
        reveal_strlit("4");
        reveal_strlit("5");
        reveal_strlit("6");
        reveal_strlit("7");
        reveal_strlit("8");
        reveal_strlit("9");
    }
    if d == 0 {
        "0"
    } else if d == 1 {
        "1"
    } else if d == 2 {
        "2"
    } else if d == 3 {
        "3"
    } else if d == 4 {
        "4"
    } else if d == 5 {
        "5"
    } else if d == 6 {
        "6"
    } else if d == 7 {
        "7"
    } else if d == 8 {
        "8"
    } else {
        "9"
    }
}

/// The decimal digits of an integer, with no sign, padding or separator.
fn decimal(v: u128) -> (r: String)
    ensures
        r@ == decimal_text(v as nat),
    decreases v,
{
    if v < 10 {
        String::from_str(digit(v))
    } else {
        let mut s = decimal(v / 10);
        s.append(digit(v % 10));
        s
    }
}

/// Why a transaction was refused.
#[derive(Debug, Clone, PartialEq)]
pub enum RejectionReason {
    InvalidSignature,
    NonceGap { expected: u64, got: u64 },
    InsufficientFunds { denom: String, required: u128, available: u128 },
    UnderpricedGas { min: u64, got: u64 },
    OversizedTx { max: usize, got: usize },
    Duplicate(String),
    PolicyViolation(String),
    InternalError(String),
}

/// The text of a rejection.
pub open spec fn reason_text(r: RejectionReason) -> Seq<char> {
    match r {
        RejectionReason::Duplicate(h) => "duplicate tx "@ + h@,
        RejectionReason::InvalidSignature => "invalid signature"@,
        RejectionReason::NonceGap { expected, got } => "nonce gap: expected "@ + decimal_text(expected as nat) + ", got "@
            + decimal_text(got as nat),
        RejectionReason::InsufficientFunds { denom, required, available } => "insufficient funds for "@ + denom@
            + ": required "@ + decimal_text(required as nat) + ", available "@ + decimal_text(available as nat),
        RejectionReason::UnderpricedGas { min, got } => "underpriced gas: min "@ + decimal_text(min as nat) + ", got "@
            + decimal_text(got as nat),
        RejectionReason::OversizedTx { max, got } => "oversized transaction: max "@ + decimal_text(max as nat)
            + ", got "@ + decimal_text(got as nat),
        RejectionReason::PolicyViolation(m) => "policy violation: "@ + m@,
        RejectionReason::InternalError(m) => "internal error: "@ + m@,
    }
}

impl RejectionReason {
    /// The metric label of the reason's kind.
    pub fn to_metric_label(&self) -> (r: &'static str)
        ensures
            r == match self {
                RejectionReason::InvalidSignature => "invalid_signature",
                RejectionReason::NonceGap { .. } => "nonce_gap",
                RejectionReason::InsufficientFunds { .. } => "insufficient_funds",
                RejectionReason::UnderpricedGas { .. } => "underpriced_gas",
                RejectionReason::OversizedTx { .. } => "oversized_tx",
                RejectionReason::Duplicate(_) => "duplicate",
                RejectionReason::PolicyViolation(_) => "policy_violation",
                RejectionReason::InternalError(_) => "internal_error",
            },
    {
        match self {
            RejectionReason::InvalidSignature => "invalid_signature",
            RejectionReason::NonceGap { .. } => "nonce_gap",
            RejectionReason::InsufficientFunds { .. } => "insufficient_funds",
            RejectionReason::UnderpricedGas { .. } => "underpriced_gas",
            RejectionReason::OversizedTx { .. } => "oversized_tx",
            RejectionReason::Duplicate(_) => "duplicate",
            RejectionReason::PolicyViolation(_) => "policy_violation",
            RejectionReason::InternalError(_) => "internal_error",
        }
    }

    /// The reason as text, as shown to API clients.
    pub fn message(&self) -> (r: String)
        ensures
            r@ == reason_text(*self),
    {
        match self {
            RejectionReason::Duplicate(h) => {
                let mut s = String::from_str("duplicate tx ");
                s.append(h.as_str());
                s
            },
            RejectionReason::InvalidSignature => String::from_str("invalid signature"),
            RejectionReason::NonceGap { expected, got } => {
                let mut s = String::from_str("nonce gap: expected ");
                s.append(decimal(*expected as u128).as_str());
                s.append(", got ");
                s.append(decimal(*got as u128).as_str());
                s
            },
            RejectionReason::InsufficientFunds { denom, required, available } => {
                let mut s = String::from_str("insufficient funds for ");
                s.append(denom.as_str());
                s.append(": required ");
                s.append(decimal(*required).as_str());
                s.append(", available ");
                s.append(decimal(*available).as_str());
                s
            },
            RejectionReason::UnderpricedGas { min, got } => {
                let mut s = String::from_str("underpriced gas: min ");
                s.append(decimal(*min as u128).as_str());
                s.append(", got ");
                s.append(decimal(*got as u128).as_str());
                s
            },
            RejectionReason::OversizedTx { max, got } => {
                let mut s = String::from_str("oversized transaction: max ");
                s.append(decimal(*max as u128).as_str());
                s.append(", got ");
                s.append(decimal(*got as u128).as_str());
                s
            },
            RejectionReason::PolicyViolation(m) => {
                let mut s = String::from_str("policy violation: ");
                s.append(m.as_str());
                s
            },
            RejectionReason::InternalError(m) => {
                let mut s = String::from_str("internal error: ");
                s.append(m.as_str());
                s
            },
        }
    }
}

/// Configuration for mempool.
#[derive(Debug, Clone, Copy, PartialEq, Eq, Structural)]
pub struct MempoolConfig {
    pub max_tx_bytes: usize,
    pub min_gas_price: u64,
    pub max_txs: usize,
    pub max_bytes: usize,
}

impl Default for MempoolConfig {
    /// The built-in limits; the node's environment may override each.
    fn default() -> (r: Self)
        ensures
            r == (MempoolConfig {
                max_tx_bytes: DEFAULT_MAX_TX_BYTES,
                min_gas_price: DEFAULT_MIN_GAS_PRICE,
                max_txs: DEFAULT_MEMPOOL_MAX_TXS,
                max_bytes: DEFAULT_MEMPOOL_MAX_BYTES,
            }),
    {
        MempoolConfig {
            max_tx_bytes: DEFAULT_MAX_TX_BYTES,
            min_gas_price: DEFAULT_MIN_GAS_PRICE,
            max_txs: DEFAULT_MEMPOOL_MAX_TXS,
            max_bytes: DEFAULT_MEMPOOL_MAX_BYTES,
        }
    }
}

/// A message carried by a transaction.
#[derive(Debug, Clone, PartialEq, Eq)]
pub enum TxMessage {
    Data { from: String, data: String },
}

/// A submitted transaction. A legacy transaction has zero gas limit and
/// price.
#[derive(Debug, Clone)]
pub struct Transaction {
    pub hash: String,
    pub from: String,
    pub to: String,
    pub amount: u128,
    pub fee: u128,
    pub nonce: u64,
    pub signature: Option<String>,
    pub public_key: Option<String>,
    pub gas_limit: u64,
    pub gas_price: u64,
    pub messages: Option<Vec<TxMessage>>,
}

impl Transaction {
    pub fn new(
        hash: String,
        from: String,
        to: String,
        amount: u128,
        fee: u128,
        nonce: u64,
        signature: Option<String>,
    ) -> (r: Transaction)
        ensures
            r.hash == hash && r.from == from && r.to == to,
            r.amount == amount && r.fee == fee && r.nonce == nonce,
            r.signature == signature && r.public_key is None,
            r.gas_limit == 0 && r.gas_price == 0 && r.messages is None,
    {
        Transaction {
            hash,
            from,
            to,
            amount,
            fee,
            nonce,
            signature,
            public_key: None,
            gas_limit: 0,
            gas_price: 0,
            messages: None,
        }
    }

    /// An unsigned transaction.
    pub fn base(hash: &str, from: &str, to: &str, amount: u128, fee: u128, nonce: u64) -> (r: Transaction)
        ensures
            r.hash@ == hash@ && r.from@ == from@ && r.to@ == to@,
            r.amount == amount && r.fee == fee && r.nonce == nonce,
            r.signature is None && r.public_key is None,
            r.gas_limit == 0 && r.gas_price == 0 && r.messages is None,
    {
        Transaction::new(String::from_str(hash), String::from_str(from), String::from_str(to), amount, fee, nonce, None)
    }

    pub fn with_gas(self, gas_limit: u64, gas_price: u64) -> (r: Transaction)
        ensures
            r == (Transaction { gas_limit, gas_price, ..self }),
    {
        Transaction { gas_limit, gas_price, ..self }
    }

    pub fn with_messages(self, messages: Vec<TxMessage>) -> (r: Transaction)
        ensures
            r == (Transaction { messages: Some(messages), ..self }),
    {
        Transaction { messages: Some(messages), ..self }
    }
}

/// The most signature bytes that size accounting counts.
pub const MAX_SIG_ACCOUNTING: usize = 256usize;

/// The byte length of a string.
pub open spec fn byte_len(s: String) -> nat {
    encode_utf8(s@).len()
}

/// The estimated serialized size of a transaction: its hash, sender and
/// recipient, fixed-width fields, and at most 256 signature bytes.
pub open spec fn tx_size_spec(tx: Transaction) -> nat {
    let sig = match tx.signature {
        Some(s) => if byte_len(s) < MAX_SIG_ACCOUNTING {
            byte_len(s)
        } else {
            MAX_SIG_ACCOUNTING as nat
        },
        None => 0,
    };
    byte_len(tx.hash) + byte_len(tx.from) + byte_len(tx.to) + 16 + 16 + 8 + sig + 8 + 8
}

/// Estimate transaction size for gas calculation and size limits.
pub fn estimate_tx_size(tx: &Transaction) -> (r: usize)
    requires
        tx_size_spec(*tx) <= usize::MAX,
    ensures
        r == tx_size_spec(*tx),
{
    let sig_len = match &tx.signature {
        Some(s) => {
            let n = s.as_str().as_bytes().len();
            if n < MAX_SIG_ACCOUNTING {
                n
            } else {
                MAX_SIG_ACCOUNTING
            }
        },
        None => 0,
    };
    tx.hash.as_str().as_bytes().len() + tx.from.as_str().as_bytes().len() + tx.to.as_str().as_bytes().len() + 16 + 16
        + 8 + sig_len + 8 + 8
}

/// Intrinsic gas of a transfer: a base charge plus a charge per byte of the
/// estimated size and per additional signature.
#[derive(Debug, Clone, Copy, PartialEq, Eq, Structural)]
pub struct GasSchedule {
    pub transfer_base: u64,
    pub per_byte: u64,
    pub per_additional_signature: u64,
}

impl Default for GasSchedule {
    /// The built-in schedule: 500 gas per transfer, 10 per byte of the
    /// estimated size and 1000 per signature beyond the first.
    fn default() -> (r: Self)
        ensures
            r == (GasSchedule { transfer_base: 500, per_byte: 10, per_additional_signature: 1000 }),
    {
        GasSchedule { transfer_base: 500, per_byte: 10, per_additional_signature: 1000 }
    }
}

pub open spec fn intrinsic_gas(s: GasSchedule, size: nat, extra_signatures: nat) -> int {
    s.transfer_base + s.per_byte * size + s.per_additional_signature * extra_signatures
}

/// The gas limit covers the intrinsic gas of the transaction.
pub fn validate_gas_limit(size: usize, extra_signatures: u64, gas_limit: u64, schedule: &GasSchedule) -> (r: bool)
    ensures
        r == (gas_limit >= intrinsic_gas(*schedule, size as nat, extra_signatures as nat)),
{
    let bytes = match (schedule.per_byte as u128).checked_mul(size as u128) {
        Some(v) => v,
        None => return false,
    };
    let sigs = match (schedule.per_additional_signature as u128).checked_mul(extra_signatures as u128) {
        Some(v) => v,
        None => return false,
    };
    let required = match (schedule.transfer_base as u128).checked_add(bytes) {
        Some(v) => match v.checked_add(sigs) {
            Some(t) => t,
            None => return false,
        },
        None => return false,
    };
    (gas_limit as u128) >= required
}

pub open spec fn gas_low_text() -> Seq<char> {
    "GasValidationError: gas limit below intrinsic gas"@
}

pub open spec fn gas_price_zero_text() -> Seq<char> {
    "GasValidationError: gas price cannot be zero"@
}

/// What gas validation of a transaction gives.
pub open spec fn gas_check(tx: Transaction) -> Option<Seq<char>> {
    if tx.gas_limit < intrinsic_gas(GasSchedule { transfer_base: 500, per_byte: 10, per_additional_signature: 1000 }, tx_size_spec(tx), 0) {
        Some(gas_low_text())
    } else if tx.gas_price == 0 {
        Some(gas_price_zero_text())
    } else {
        None
    }
}

/// Gas validation: the limit covers the transfer's intrinsic gas under the
/// default schedule, and the price is not zero.
pub fn validate_gas(tx: &Transaction) -> (r: Result<(), String>)
    requires
        tx_size_spec(*tx) <= usize::MAX,
    ensures
        match (r, gas_check(*tx)) {
            (Ok(()), None) => true,
            (Err(m), Some(t)) => m@ == t,
            _ => false,
        },
{
    let schedule = GasSchedule::default();
    let size = estimate_tx_size(tx);
    if !validate_gas_limit(size, 0, tx.gas_limit, &schedule) {
        return Err(String::from_str("GasValidationError: gas limit below intrinsic gas"));
    }
    if tx.gas_price == 0 {
        return Err(String::from_str("GasValidationError: gas price cannot be zero"));
    }
    Ok(())
}

/// Calls `std::time::SystemTime::now` and reads whole seconds since the Unix
/// epoch; `None` for a clock set before the epoch. Nothing is claimed of the
/// value: it depends on the machine's clock.
#[verifier::external_body]
fn unix_seconds() -> (r: Option<u64>) {
    std::time::SystemTime::now().duration_since(std::time::UNIX_EPOCH).ok().map(|d| d.as_secs())
}

/// Transaction with priority ordering.
#[derive(Debug, Clone)]
pub struct PendingTx {
    pub tx: Transaction,
    pub received_at: u64,
    pub serialized_size: usize,
}

/// Priority key for ordering transactions: gas price descending, then nonce
/// ascending, then hash ascending. The derived order compares the fields in
/// that order.
#[derive(Debug, Clone, PartialEq, Eq, PartialOrd, Ord)]
pub struct TxPriorityKey {
    gas_price_neg: u64,
    nonce: u64,
    hash: String,
}

impl TxPriorityKey {
    pub closed spec fn spec_fields(&self) -> (u64, u64, Seq<char>) {
        (self.gas_price_neg, self.nonce, self.hash@)
    }

    /// Whether this key orders strictly before `other`.
    pub fn precedes(&self, other: &TxPriorityKey) -> (r: bool)
        ensures
            r == key_before(self.spec_fields(), other.spec_fields()),
    {
        if self.gas_price_neg != other.gas_price_neg {
            return self.gas_price_neg < other.gas_price_neg;
        }
        if self.nonce != other.nonce {
            return self.nonce < other.nonce;
        }
        bytes_before(self.hash.as_str().as_bytes(), other.hash.as_str().as_bytes())
    }
}

/// Lexicographic byte order, a proper prefix first.
pub open spec fn seq_before(a: Seq<u8>, b: Seq<u8>) -> bool
    decreases a.len(),
{
    if a.len() == 0 {
        b.len() > 0
    } else if b.len() == 0 {
        false
    } else if a[0] != b[0] {
        a[0] < b[0]
    } else {
        seq_before(a.skip(1), b.skip(1))
    }
}

/// The byte order is strict: no sequence comes before itself or before one
/// that comes before it.
pub proof fn lemma_before_asymmetric(a: Seq<u8>, b: Seq<u8>)
    ensures
        !(seq_before(a, b) && seq_before(b, a)),
    decreases a.len(),
{
    if a.len() > 0 && b.len() > 0 && a[0] == b[0] {
        lemma_before_asymmetric(a.skip(1), b.skip(1));
    }
}

/// The byte order is total on distinct sequences.
pub proof fn lemma_before_total(a: Seq<u8>, b: Seq<u8>)
    requires
        a != b,
    ensures
        seq_before(a, b) || seq_before(b, a),
    decreases a.len(),
{
    if a.len() > 0 && b.len() > 0 && a[0] == b[0] {
        if a.skip(1) == b.skip(1) {
            assert(a =~= seq![a[0]] + a.skip(1));
            assert(b =~= seq![b[0]] + b.skip(1));
        }
        lemma_before_total(a.skip(1), b.skip(1));
    } else if a.len() == 0 && b.len() == 0 {
        assert(a =~= b);
    }
}

/// The byte order is transitive.
pub proof fn lemma_before_transitive(a: Seq<u8>, b: Seq<u8>, c: Seq<u8>)
    requires
        seq_before(a, b),
        seq_before(b, c),
    ensures
        seq_before(a, c),
    decreases a.len(),
{
    if a.len() > 0 && b.len() > 0 && c.len() > 0 && a[0] == b[0] && b[0] == c[0] {
        lemma_before_transitive(a.skip(1), b.skip(1), c.skip(1));
    }
}

/// The priority order: cheaper-negated price first, then nonce, then the
/// hash's bytes.
pub open spec fn key_before(a: (u64, u64, Seq<char>), b: (u64, u64, Seq<char>)) -> bool {
    if a.0 != b.0 {
        a.0 < b.0
    } else if a.1 != b.1 {
        a.1 < b.1
    } else {
        seq_before(encode_utf8(a.2), encode_utf8(b.2))
    }
}

pub(crate) fn bytes_before(a: &[u8], b: &[u8]) -> (r: bool)
    ensures
        r == seq_before(a@, b@),
{
    let mut i: usize = 0;
    assert(a@.skip(0) =~= a@);
    assert(b@.skip(0) =~= b@);
    while i < a.len() && i < b.len()
        invariant
            i <= a@.len(),
            i <= b@.len(),
            seq_before(a@, b@) == seq_before(a@.skip(i as int), b@.skip(i as int)),
        decreases a@.len() - i,
    {
        if a[i] != b[i] {
            proof {
                assert(a@.skip(i as int)[0] == a@[i as int]);
                assert(b@.skip(i as int)[0] == b@[i as int]);
            }
            return a[i] < b[i];
        }
        proof {
            assert(a@.skip(i as int).skip(1) =~= a@.skip(i as int + 1));
            assert(b@.skip(i as int).skip(1) =~= b@.skip(i as int + 1));
            assert(a@.skip(i as int)[0] == a@[i as int]);
            assert(b@.skip(i as int)[0] == b@[i as int]);
        }
        i = i + 1;
    }
    b.len() > i
}

impl PendingTx {
    /// A pending transaction received at `received_at`, with its size.
    pub fn received(tx: Transaction, received_at: u64) -> (r: PendingTx)
        requires
            tx_size_spec(tx) <= usize::MAX,
        ensures
            r.tx == tx,
            r.received_at == received_at,
            r.serialized_size == tx_size_spec(tx),
    {
        let serialized_size = estimate_tx_size(&tx);
        PendingTx { tx, received_at, serialized_size }
    }

    /// A pending transaction received now; a clock before the Unix epoch
    /// reads as zero.
    pub fn new(tx: Transaction) -> (r: PendingTx)
        requires
            tx_size_spec(tx) <= usize::MAX,
        ensures
            r.tx == tx,
            r.serialized_size == tx_size_spec(tx),
    {
        let now = match unix_seconds() {
            Some(s) => s,
            None => 0,
        };
        PendingTx::received(tx, now)
    }

    pub fn priority_key(&self) -> (r: TxPriorityKey)
        ensures
            r.spec_fields() == ((u64::MAX - self.tx.gas_price) as u64, self.tx.nonce, self.tx.hash@),
    {
        TxPriorityKey { gas_price_neg: u64::MAX - self.tx.gas_price, nonce: self.tx.nonce, hash: self.tx.hash.clone() }
    }
}

/// Whether `p`'s bytes begin `s`'s bytes.
pub open spec fn starts_with(s: Seq<char>, p: Seq<char>) -> bool {
    encode_utf8(p).len() <= encode_utf8(s).len() && encode_utf8(s).subrange(0, encode_utf8(p).len() as int)
        == encode_utf8(p)
}

fn has_prefix(s: &str, p: &str) -> (r: bool)
    ensures
        r == starts_with(s@, p@),
{
    let a = s.as_bytes();
    let b = p.as_bytes();
    if b.len() > a.len() {
        return false;
    }
    let mut i: usize = 0;
    while i < b.len()
        invariant
            i <= b@.len(),
            b@.len() <= a@.len(),
            a@ == encode_utf8(s@),
            b@ == encode_utf8(p@),
            forall|j: int| 0 <= j < i ==> a@[j] == b@[j],
        decreases b@.len() - i,
    {
        if a[i] != b[i] {
            proof {
                assert(a@.subrange(0, b@.len() as int)[i as int] != b@[i as int]);
            }
            return false;
        }
        i = i + 1;
    }
    assert(a@.subrange(0, b@.len() as int) =~= b@);
    true
}

pub open spec fn staking_payload_text() -> Seq<char> {
    "staking write payloads are not supported on the generic transaction submit path; use read-only staking routes until staking is explicitly enabled end-to-end"@
}

pub open spec fn governance_payload_text() -> Seq<char> {
    "governance write payloads are not supported on the generic transaction submit path; use public governance read routes until governance is explicitly enabled end-to-end"@
}

/// The refusal for the first data message at or after `i` that writes
/// staking or governance state, if any.
pub open spec fn reserved_from(m: Seq<TxMessage>, i: int) -> Option<Seq<char>>
    decreases m.len() - i,
{
    if i < 0 || i >= m.len() {
        None
    } else {
        match m[i] {
            TxMessage::Data { from, data } => if starts_with(data@, "stake:"@) {
                Some(staking_payload_text())
            } else if starts_with(data@, "governance:"@) {
                Some(governance_payload_text())
            } else {
                reserved_from(m, i + 1)
            },
        }
    }
}

pub open spec fn reserved_reason(tx: Transaction) -> Option<Seq<char>> {
    match tx.messages {
        None => None,
        Some(m) => reserved_from(m@, 0),
    }
}

/// Staking and governance writes are refused on the generic submit path.
pub fn unsupported_reserved_payload_reason(tx: &Transaction) -> (r: Option<String>)
    ensures
        match (r, reserved_reason(*tx)) {
            (None, None) => true,
            (Some(s), Some(t)) => s@ == t,
            _ => false,
        },
{
    let messages = match &tx.messages {
        None => return None,
        Some(m) => m,
    };
    let mut i: usize = 0;
    while i < messages.len()
        invariant
            i <= messages@.len(),
            tx.messages == Some(*messages),
            reserved_from(messages@, 0) == reserved_from(messages@, i as int),
        decreases messages@.len() - i,
    {
        match &messages[i] {
            TxMessage::Data { from: _, data } => {
                if has_prefix(data.as_str(), "stake:") {
                    return Some(String::from_str(
                        "staking write payloads are not supported on the generic transaction submit path; use read-only staking routes until staking is explicitly enabled end-to-end",
                    ));
                }
                if has_prefix(data.as_str(), "governance:") {
                    return Some(String::from_str(
                        "governance write payloads are not supported on the generic transaction submit path; use public governance read routes until governance is explicitly enabled end-to-end",
                    ));
                }
            },
        }
        i = i + 1;
    }
    None
}

pub open spec fn pair_views(b: Seq<(String, u128)>) -> Seq<(Seq<char>, u128)> {
    b.map_values(|e: (String, u128)| (e.0@, e.1))
}

/// The balance of the first entry for `denom` at or after `i`, or zero.
pub open spec fn balance_from(b: Seq<(Seq<char>, u128)>, denom: Seq<char>, i: int) -> u128
    decreases b.len() - i,
{
    if i < 0 || i >= b.len() {
        0
    } else if b[i].0 == denom {
        b[i].1
    } else {
        balance_from(b, denom, i + 1)
    }
}

/// The first requirement at or after `i` that the balances do not cover.
pub open spec fn shortfall_from(balances: Seq<(Seq<char>, u128)>, required: Seq<(Seq<char>, u128)>, i: int) -> Option<
    (Seq<char>, u128, u128),
>
    decreases required.len() - i,
{
    if i < 0 || i >= required.len() {
        None
    } else if balance_from(balances, required[i].0, 0) < required[i].1 {
        Some((required[i].0, required[i].1, balance_from(balances, required[i].0, 0)))
    } else {
        shortfall_from(balances, required, i + 1)
    }
}

pub open spec fn qualified_state_text() -> Seq<char> {
    "Qualified account state requires consensus admission; legacy and direct mutation routes are disabled"@
}

/// What the legacy validation gives for a sender's balances and the
/// transaction's balance requirements, in denomination order.
pub open spec fn basic_validate_spec(
    qualified_state: bool,
    balances: Seq<(Seq<char>, u128)>,
    required: Seq<(Seq<char>, u128)>,
    tx: Transaction,
) -> Option<Seq<char>> {
    if qualified_state {
        Some(qualified_state_text())
    } else {
        match shortfall_from(balances, required, 0) {
            Some((denom, need, have)) => Some(
                "insufficient funds for "@ + denom + ": required "@ + decimal_text(need as nat) + ", available "@
                    + decimal_text(have as nat),
            ),
            None => if tx.gas_limit > 0 || tx.gas_price > 0 {
                match gas_check(tx) {
                    Some(t) => Some("internal error: "@ + t),
                    None => None,
                }
            } else {
                None
            },
        }
    }
}

pub(crate) fn balance_of(balances: &Vec<(String, u128)>, denom: &str) -> (r: u128)
    ensures
        r == balance_from(pair_views(balances@), denom@, 0),
{
    let ghost v = pair_views(balances@);
    let mut i: usize = 0;
    while i < balances.len()
        invariant
            i <= balances@.len(),
            v == pair_views(balances@),
            balance_from(v, denom@, 0) == balance_from(v, denom@, i as int),
        decreases balances@.len() - i,
    {
        if str_eq(balances[i].0.as_str(), denom) {
            return balances[i].1;
        }
        i = i + 1;
    }
    0
}

/// Legacy validation before admission: the store must hold no qualified
/// account state, the sender's balances must cover each requirement, and a
/// transaction that states gas must pass gas validation.
pub fn basic_validate(
    qualified_state: bool,
    balances: &Vec<(String, u128)>,
    required: &Vec<(String, u128)>,
    tx: &Transaction,
) -> (r: Result<(), String>)
    requires
        tx_size_spec(*tx) <= usize::MAX,
    ensures
        match (r, basic_validate_spec(qualified_state, pair_views(balances@), pair_views(required@), *tx)) {
            (Ok(()), None) => true,
            (Err(m), Some(t)) => m@ == t,
            _ => false,
        },
{
    if qualified_state {
        return Err(String::from_str(
            "Qualified account state requires consensus admission; legacy and direct mutation routes are disabled",
        ));
    }
    let ghost bv = pair_views(balances@);
    let ghost rv = pair_views(required@);
    let mut i: usize = 0;
    while i < required.len()
        invariant
            i <= required@.len(),
            !qualified_state,
            bv == pair_views(balances@),
            rv == pair_views(required@),
            shortfall_from(bv, rv, 0) == shortfall_from(bv, rv, i as int),
        decreases required@.len() - i,
    {
        let available = balance_of(balances, required[i].0.as_str());
        assert(rv[i as int] == (required@[i as int].0@, required@[i as int].1));
        if available < required[i].1 {
            let reason = RejectionReason::InsufficientFunds {
                denom: required[i].0.clone(),
                required: required[i].1,
                available,
            };
            return Err(reason.message());
        }
        i = i + 1;
    }
    if tx.gas_limit > 0 || tx.gas_price > 0 {
        match validate_gas(tx) {
            Ok(()) => {},
            Err(m) => {
                let reason = RejectionReason::InternalError(m);
                return Err(reason.message());
            },
        }
    }
    Ok(())
}

/// Legacy error type for backward compatibility.
#[derive(Debug)]
pub enum MempoolError {
    Duplicate,
    Full,
    Rejection(RejectionReason),
}

impl MempoolError {
    pub fn message(&self) -> (r: String)
        ensures
            r@ == match self {
                MempoolError::Duplicate => "duplicate"@,
                MempoolError::Full => "full"@,
                MempoolError::Rejection(reason) => reason_text(*reason),
            },
    {
        match self {
            MempoolError::Duplicate => String::from_str("duplicate"),
            MempoolError::Full => String::from_str("full"),
            MempoolError::Rejection(reason) => reason.message(),
        }
    }
}

impl From<RejectionReason> for MempoolError {
    fn from(reason: RejectionReason) -> (r: MempoolError) {
        match reason {
            RejectionReason::Duplicate(_) => MempoolError::Duplicate,
            reason => MempoolError::Rejection(reason),
        }
    }
}

impl vstd::std_specs::convert::FromSpecImpl<RejectionReason> for MempoolError {
    open spec fn obeys_from_spec() -> bool {
        true
    }

    open spec fn from_spec(reason: RejectionReason) -> MempoolError {
        match reason {
            RejectionReason::Duplicate(_) => MempoolError::Duplicate,
            reason => MempoolError::Rejection(reason),
        }
    }
}

} // verus!
