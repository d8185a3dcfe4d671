//! The transaction queue: admission against committed state, readiness by
//! sender nonce, fee-priority ordering and bounded capacity.
//!
//! A transaction is ready when its nonce lies in its sender's run of
//! consecutive queued nonces that starts at the sender's confirmed nonce;
//! every other retained transaction is deferred until the gap below it
//! fills. Readiness, the byte total and the balances that queued
//! transactions reserve are all derived from the retained transactions and
//! the confirmed nonces.
use vstd::prelude::*;
use vstd::string::StringExecFns;
use crate::mempool::{
    balance_from, balance_of, estimate_tx_size, gas_check, key_before, pair_views, qualified_state_text,
    reserved_reason, tx_size_spec, unsupported_reserved_payload_reason, validate_gas, MempoolConfig,
    PendingTx, RejectionReason, Transaction, TxMessage,
};
use crate::ordinary_authority::{nonce_lookup, nonce_of};
use crate::text::str_eq;

verus! {

/// A retained transaction with the balances it reserves, by denomination.
#[derive(Debug, Clone)]
pub struct Queued {
    pub pending: PendingTx,
    pub required: Vec<(String, u128)>,
}

/// Committed state as admission reads it: whether the store holds
/// qualified account state, committed nonces by address (zero where an
/// address has none) and balances by address.
pub struct LedgerView {
    pub qualified_state: bool,
    pub nonces: Vec<(String, u64)>,
    pub balances: Vec<(String, Vec<(String, u128)>)>,
}

/// A refusal with its texts as character sequences.
pub enum Refusal {
    InvalidSignature,
    NonceGap { expected: u64, got: u64 },
    InsufficientFunds { denom: Seq<char>, required: u128, available: u128 },
    UnderpricedGas { min: u64, got: u64 },
    OversizedTx { max: usize, got: usize },
    Duplicate(Seq<char>),
    PolicyViolation(Seq<char>),
    InternalError(Seq<char>),
}

pub open spec fn refusal(r: RejectionReason) -> Refusal {
    match r {
        RejectionReason::InvalidSignature => Refusal::InvalidSignature,
        RejectionReason::NonceGap { expected, got } => Refusal::NonceGap { expected, got },
        RejectionReason::InsufficientFunds { denom, required, available } => Refusal::InsufficientFunds {
            denom: denom@,
            required,
            available,
        },
        RejectionReason::UnderpricedGas { min, got } => Refusal::UnderpricedGas { min, got },
        RejectionReason::OversizedTx { max, got } => Refusal::OversizedTx { max, got },
        RejectionReason::Duplicate(h) => Refusal::Duplicate(h@),
        RejectionReason::PolicyViolation(m) => Refusal::PolicyViolation(m@),
        RejectionReason::InternalError(m) => Refusal::InternalError(m@),
    }
}

pub open spec fn sender(e: Queued) -> Seq<char> {
    e.pending.tx.from@
}

pub open spec fn nonce(e: Queued) -> u64 {
    e.pending.tx.nonce
}

pub open spec fn hash(e: Queued) -> Seq<char> {
    e.pending.tx.hash@
}

/// The priority key of an entry: negated gas price, nonce, hash.
pub open spec fn key(e: Queued) -> (u64, u64, Seq<char>) {
    ((u64::MAX - e.pending.tx.gas_price) as u64, e.pending.tx.nonce, e.pending.tx.hash@)
}

pub open spec fn has_entry(es: Seq<Queued>, s: Seq<char>, k: int) -> bool {
    exists|j: int| 0 <= j < es.len() && #[trigger] sender(es[j]) == s && nonce(es[j]) == k
}

pub open spec fn has_sender(es: Seq<Queued>, s: Seq<char>) -> bool {
    exists|j: int| 0 <= j < es.len() && #[trigger] sender(es[j]) == s
}

pub open spec fn has_hash(es: Seq<Queued>, h: Seq<char>) -> bool {
    exists|j: int| 0 <= j < es.len() && #[trigger] hash(es[j]) == h
}

/// How many consecutive nonces from `k` on, each below the largest nonce,
/// sender `s` has queued.
pub open spec fn run_from(es: Seq<Queued>, s: Seq<char>, k: int) -> nat
    decreases u64::MAX - k,
{
    if k < 0 || k >= u64::MAX || !has_entry(es, s, k) {
        0
    } else {
        1 + run_from(es, s, k + 1)
    }
}

/// The confirmed nonce of a sender, zero where none is recorded.
pub open spec fn base_nonce(conf: Seq<(String, u64)>, s: Seq<char>) -> u64 {
    match nonce_of(conf, s, 0) {
        Some(c) => c,
        None => 0,
    }
}

/// Whether entry `i` is ready: its nonce lies in its sender's run of
/// consecutive nonces from the sender's confirmed nonce.
pub open spec fn is_ready(es: Seq<Queued>, conf: Seq<(String, u64)>, i: int) -> bool {
    let c = base_nonce(conf, sender(es[i]));
    c <= nonce(es[i]) && nonce(es[i]) < c + run_from(es, sender(es[i]), c as int)
}

/// The number of ready entries among the first `n`.
pub open spec fn count_ready(es: Seq<Queued>, conf: Seq<(String, u64)>, n: int) -> nat
    decreases n,
{
    if n <= 0 {
        0
    } else {
        count_ready(es, conf, n - 1) + if is_ready(es, conf, n - 1) {
            1nat
        } else {
            0nat
        }
    }
}

/// The bytes of the first `n` entries.
pub open spec fn bytes_sum(es: Seq<Queued>, n: int) -> nat
    decreases n,
{
    if n <= 0 || n > es.len() {
        0
    } else {
        bytes_sum(es, n - 1) + es[n - 1].pending.serialized_size as nat
    }
}

/// What the first `n` entries of sender `s` reserve in denomination `d`.
pub open spec fn reserved(es: Seq<Queued>, s: Seq<char>, d: Seq<char>, n: int) -> nat
    decreases n,
{
    if n <= 0 || n > es.len() {
        0
    } else {
        reserved(es, s, d, n - 1) + if sender(es[n - 1]) == s {
            balance_from(pair_views(es[n - 1].required@), d, 0) as nat
        } else {
            0nat
        }
    }
}

pub open spec fn ledger_nonce(l: LedgerView, s: Seq<char>) -> u64 {
    base_nonce(l.nonces@, s)
}

/// The balances recorded for `addr` from the `i`-th account on.
pub open spec fn balances_of(b: Seq<(String, Vec<(String, u128)>)>, addr: Seq<char>, i: int) -> Seq<(String, u128)>
    decreases b.len() - i,
{
    if i < 0 || i >= b.len() {
        Seq::empty()
    } else if b[i].0@ == addr {
        b[i].1@
    } else {
        balances_of(b, addr, i + 1)
    }
}

pub open spec fn ledger_balance(l: LedgerView, addr: Seq<char>, d: Seq<char>) -> u128 {
    balance_from(pair_views(balances_of(l.balances@, addr, 0)), d, 0)
}

pub open spec fn distinct_hashes(es: Seq<Queued>) -> bool {
    forall|i: int, j: int| 0 <= i < j < es.len() ==> hash(#[trigger] es[i]) != hash(#[trigger] es[j])
}

pub open spec fn distinct_slots(es: Seq<Queued>) -> bool {
    forall|i: int, j: int|
        0 <= i < j < es.len() ==> !(sender(#[trigger] es[i]) == sender(#[trigger] es[j]) && nonce(es[i]) == nonce(
            es[j],
        ))
}

pub open spec fn unique_keys(c: Seq<(String, u64)>) -> bool {
    forall|i: int, j: int| 0 <= i < j < c.len() ==> (#[trigger] c[i]).0@ != (#[trigger] c[j]).0@
}

pub open spec fn covered(c: Seq<(String, u64)>, es: Seq<Queued>) -> bool {
    forall|i: int| 0 <= i < es.len() ==> #[trigger] nonce_of(c, sender(es[i]), 0) is Some
}

pub open spec fn sized(es: Seq<Queued>) -> bool {
    forall|i: int| 0 <= i < es.len() ==> (#[trigger] es[i]).pending.serialized_size == tx_size_spec(es[i].pending.tx)
}

/// The queue's abstract state.
pub struct QueueView {
    pub config: MempoolConfig,
    pub confirmed: Seq<(String, u64)>,
    pub entries: Seq<Queued>,
}

/// The transaction queue.
pub struct Mempool {
    config: MempoolConfig,
    confirmed: Vec<(String, u64)>,
    entries: Vec<Queued>,
}

impl View for Mempool {
    type V = QueueView;

    closed spec fn view(&self) -> QueueView {
        QueueView { config: self.config, confirmed: self.confirmed@, entries: self.entries@ }
    }
}

impl QueueView {
    /// Hashes are distinct, each sender queues a nonce once, every sender
    /// has exactly one confirmed nonce, sizes are the estimated sizes and
    /// the bytes fit in the machine's size type.
    pub open spec fn wf(self) -> bool {
        &&& distinct_hashes(self.entries)
        &&& distinct_slots(self.entries)
        &&& unique_keys(self.confirmed)
        &&& covered(self.confirmed, self.entries)
        &&& sized(self.entries)
        &&& bytes_sum(self.entries, self.entries.len() as int) <= usize::MAX
    }

    pub open spec fn ready_len(self) -> nat {
        count_ready(self.entries, self.confirmed, self.entries.len() as int)
    }

    pub open spec fn bytes(self) -> nat {
        bytes_sum(self.entries, self.entries.len() as int)
    }
}

impl Mempool {
    /// An empty queue with the given limits.
    pub fn with_config(config: MempoolConfig) -> (r: Mempool)
        ensures
            r@.config == config,
            r@.confirmed.len() == 0,
            r@.entries.len() == 0,
            r@.wf(),
    {
        Mempool { config, confirmed: Vec::new(), entries: Vec::new() }
    }

    /// The queue's limits.
    pub fn config(&self) -> (r: &MempoolConfig)
        ensures
            *r == self@.config,
    {
        &self.config
    }

    /// The number of retained transactions, deferred ones included.
    pub fn total_count(&self) -> (r: usize)
        ensures
            r == self@.entries.len(),
    {
        self.entries.len()
    }

    /// The bytes of all retained transactions.
    pub fn total_bytes(&self) -> (r: usize)
        requires
            self@.wf(),
        ensures
            r == self@.bytes(),
    {
        let mut total: usize = 0;
        let mut i: usize = 0;
        while i < self.entries.len()
            invariant
                i <= self.entries@.len(),
                self@.wf(),
                total == bytes_sum(self.entries@, i as int),
            decreases self.entries@.len() - i,
        {
            proof {
                lemma_bytes_monotone(self.entries@, i + 1, self.entries@.len() as int);
            }
            total = total + self.entries[i].pending.serialized_size;
            i = i + 1;
        }
        total
    }

    /// The confirmed nonce recorded for `sender`.
    pub fn confirmed_nonce(&self, sender: &str) -> (r: Option<u64>)
        ensures
            r == nonce_of(self@.confirmed, sender@, 0),
    {
        nonce_lookup(&self.confirmed, sender)
    }

    /// Whether a transaction with this hash is retained.
    pub fn contains(&self, hash_text: &str) -> (r: bool)
        ensures
            r == has_hash(self@.entries, hash_text@),
    {
        find_hash(&self.entries, hash_text).is_some()
    }

    /// Whether the queue holds its most transactions or bytes.
    pub fn is_full(&self) -> (r: bool)
        requires
            self@.wf(),
        ensures
            r == (self@.entries.len() >= self@.config.max_txs || self@.bytes() >= self@.config.max_bytes),
    {
        self.total_count() >= self.config.max_txs || self.total_bytes() >= self.config.max_bytes
    }
}

pub proof fn lemma_bytes_monotone(es: Seq<Queued>, a: int, b: int)
    requires
        0 <= a <= b <= es.len(),
    ensures
        bytes_sum(es, a) <= bytes_sum(es, b),
    decreases b - a,
{
    if a < b {
        lemma_bytes_monotone(es, a, b - 1);
    }
}

/// The first entry with this hash.
fn find_hash(es: &Vec<Queued>, h: &str) -> (r: Option<usize>)
    ensures
        match r {
            Some(i) => i < es@.len() && hash(es@[i as int]) == h@,
            None => !has_hash(es@, h@),
        },
{
    let mut i: usize = 0;
    while i < es.len()
        invariant
            i <= es@.len(),
            forall|j: int| 0 <= j < i ==> hash(#[trigger] es@[j]) != h@,
        decreases es@.len() - i,
    {
        if str_eq(es[i].pending.tx.hash.as_str(), h) {
            return Some(i);
        }
        i = i + 1;
    }
    None
}

/// The first entry at or after `i` of sender `s` with nonce `k`, or -1.
pub open spec fn entry_index(es: Seq<Queued>, s: Seq<char>, k: int, i: int) -> int
    decreases es.len() - i,
{
    if i < 0 || i >= es.len() {
        -1
    } else if sender(es[i]) == s && nonce(es[i]) == k {
        i
    } else {
        entry_index(es, s, k, i + 1)
    }
}

/// The first entry of sender `s` with nonce `k`.
fn find_entry(es: &Vec<Queued>, s: &str, k: u64) -> (r: Option<usize>)
    ensures
        match r {
            Some(i) => i < es@.len() && sender(es@[i as int]) == s@ && nonce(es@[i as int]) == k
                && entry_index(es@, s@, k as int, 0) == i,
            None => !has_entry(es@, s@, k as int) && entry_index(es@, s@, k as int, 0) == -1,
        },
{
    let mut i: usize = 0;
    while i < es.len()
        invariant
            i <= es@.len(),
            forall|j: int| 0 <= j < i ==> !(sender(#[trigger] es@[j]) == s@ && nonce(es@[j]) == k),
            entry_index(es@, s@, k as int, 0) == entry_index(es@, s@, k as int, i as int),
        decreases es@.len() - i,
    {
        if es[i].pending.tx.nonce == k && str_eq(es[i].pending.tx.from.as_str(), s) {
            return Some(i);
        }
        i = i + 1;
    }
    None
}

/// The length of sender `s`'s run of consecutive queued nonces from `k`.
fn run_length(es: &Vec<Queued>, s: &str, k: u64) -> (r: u64)
    ensures
        r == run_from(es@, s@, k as int),
        k + r <= u64::MAX,
{
    let mut r: u64 = 0;
    while k + r < u64::MAX && find_entry(es, s, k + r).is_some()
        invariant
            k + r <= u64::MAX,
            run_from(es@, s@, k as int) == r + run_from(es@, s@, k + r),
        decreases u64::MAX - (k + r),
    {
        r = r + 1;
    }
    r
}

/// Under unique keys, the lookup finds the one entry of a key, and nothing
/// for a key that no entry holds.
pub proof fn lemma_lookup(c: Seq<(String, u64)>, s: Seq<char>, k: int)
    requires
        unique_keys(c),
        0 <= k,
    ensures
        forall|j: int| k <= j < c.len() && (#[trigger] c[j]).0@ == s ==> nonce_of(c, s, k) == Some(c[j].1),
        (forall|j: int| k <= j < c.len() ==> (#[trigger] c[j]).0@ != s) ==> nonce_of(c, s, k) is None,
    decreases c.len() - k,
{
    if k < c.len() {
        lemma_lookup(c, s, k + 1);
    }
}

/// The committed nonce of `address`, zero where none is recorded.
fn ledger_nonce_of(l: &LedgerView, address: &str) -> (r: u64)
    ensures
        r == ledger_nonce(*l, address@),
{
    match nonce_lookup(&l.nonces, address) {
        Some(n) => n,
        None => 0,
    }
}

/// The committed balance of `address` in `denom`, zero where none is
/// recorded.
fn ledger_balance_of(l: &LedgerView, address: &str, denom: &str) -> (r: u128)
    ensures
        r == ledger_balance(*l, address@, denom@),
{
    let mut i: usize = 0;
    while i < l.balances.len()
        invariant
            i <= l.balances@.len(),
            balances_of(l.balances@, address@, 0) == balances_of(l.balances@, address@, i as int),
        decreases l.balances@.len() - i,
    {
        if str_eq(l.balances[i].0.as_str(), address) {
            return balance_of(&l.balances[i].1, denom);
        }
        i = i + 1;
    }
    proof {
        assert(pair_views(Seq::<(String, u128)>::empty()) =~= Seq::<(Seq<char>, u128)>::empty());
    }
    0
}

pub proof fn lemma_reserved_monotone(es: Seq<Queued>, s: Seq<char>, d: Seq<char>, a: int, b: int)
    requires
        0 <= a <= b <= es.len(),
    ensures
        reserved(es, s, d, a) <= reserved(es, s, d, b),
    decreases b - a,
{
    if a < b {
        lemma_reserved_monotone(es, s, d, a, b - 1);
    }
}

/// What the queued transactions of `s` reserve in `denom`, or `None` where
/// the total exceeds the balance range.
fn reserved_of(es: &Vec<Queued>, s: &str, denom: &str) -> (r: Option<u128>)
    ensures
        match r {
            Some(v) => v == reserved(es@, s@, denom@, es@.len() as int),
            None => reserved(es@, s@, denom@, es@.len() as int) > u128::MAX,
        },
{
    let mut total: u128 = 0;
    let mut i: usize = 0;
    while i < es.len()
        invariant
            i <= es@.len(),
            total == reserved(es@, s@, denom@, i as int),
        decreases es@.len() - i,
    {
        if str_eq(es[i].pending.tx.from.as_str(), s) {
            let amount = balance_of(&es[i].required, denom);
            match total.checked_add(amount) {
                Some(t) => total = t,
                None => {
                    proof {
                        lemma_reserved_monotone(es@, s@, denom@, i + 1, es@.len() as int);
                    }
                    return None;
                },
            }
        }
        i = i + 1;
    }
    Some(total)
}

/// The first requirement from the `i`-th on that the sender's balance does
/// not cover together with what its queued transactions already reserve.
pub open spec fn funds_fault(es: Seq<Queued>, s: Seq<char>, l: LedgerView, req: Seq<(String, u128)>, i: int) -> Option<
    Refusal,
>
    decreases req.len() - i,
{
    if i < 0 || i >= req.len() {
        None
    } else {
        let d = req[i].0@;
        let total = reserved(es, s, d, es.len() as int) + req[i].1;
        let available = ledger_balance(l, s, d);
        if total > u128::MAX {
            Some(Refusal::InternalError("Reserved balance exceeds u128"@))
        } else if available < total {
            Some(Refusal::InsufficientFunds { denom: d, required: total as u128, available })
        } else {
            funds_fault(es, s, l, req, i + 1)
        }
    }
}

/// The confirmed nonce that admission starts a sender's ready run from:
/// the recorded one, else the committed one.
pub open spec fn cached_nonce(q: QueueView, s: Seq<char>, expected: u64) -> u64 {
    match nonce_of(q.confirmed, s, 0) {
        Some(c) => c,
        None => expected,
    }
}

/// The nonce just past a sender's ready run.
pub open spec fn ready_end(q: QueueView, s: Seq<char>, expected: u64) -> int {
    cached_nonce(q, s, expected) + run_from(q.entries, s, cached_nonce(q, s, expected) as int)
}

pub open spec fn min_usize(a: usize, b: usize) -> usize {
    if a < b {
        a
    } else {
        b
    }
}

/// Admission of a transaction, in the order the checks are made: the
/// committed nonce it is held against, or why it is refused.
/// Whether a transaction's envelope verifies: it carries a signature and a
/// public key, and the check of the signature under that key passed.
pub open spec fn envelope_ok(tx: Transaction, signature_valid: bool) -> bool {
    tx.signature is Some && tx.public_key is Some && signature_valid
}

/// Verify a transaction's envelope, given the result of the signature check
/// under its public key. A transaction without a signature or a public key
/// never verifies.
pub fn verify_envelope(tx: &Transaction, signature_valid: bool) -> (r: bool)
    ensures
        r == envelope_ok(*tx, signature_valid),
{
    tx.signature.is_some() && tx.public_key.is_some() && signature_valid
}

pub open spec fn admission(
    q: QueueView,
    l: LedgerView,
    tx: Transaction,
    req: Seq<(String, u128)>,
    signature_valid: bool,
    skip_signature: bool,
    policy_error: Option<String>,
) -> Result<u64, Refusal> {
    let size = tx_size_spec(tx);
    let from = tx.from@;
    let expected = ledger_nonce(l, from);
    let end = ready_end(q, from, expected);
    if l.qualified_state {
        Err(Refusal::PolicyViolation(qualified_state_text()))
    } else if !skip_signature && !envelope_ok(tx, signature_valid) {
        Err(Refusal::InvalidSignature)
    } else if policy_error is Some {
        Err(Refusal::PolicyViolation(policy_error->0@))
    } else if reserved_reason(tx) is Some {
        Err(Refusal::PolicyViolation(reserved_reason(tx)->0))
    } else if has_hash(q.entries, tx.hash@) {
        Err(Refusal::Duplicate(tx.hash@))
    } else if size > q.config.max_tx_bytes || size > q.config.max_bytes {
        Err(Refusal::OversizedTx { max: min_usize(q.config.max_tx_bytes, q.config.max_bytes), got: size as usize })
    } else if tx.gas_price < q.config.min_gas_price {
        Err(Refusal::UnderpricedGas { min: q.config.min_gas_price, got: tx.gas_price })
    } else if funds_fault(q.entries, from, l, req, 0) is Some {
        Err(funds_fault(q.entries, from, l, req, 0)->0)
    } else if (tx.gas_limit > 0 || tx.gas_price > 0) && gas_check(tx) is Some {
        Err(Refusal::InternalError(gas_check(tx)->0))
    } else if tx.nonce < expected {
        Err(Refusal::NonceGap { expected, got: tx.nonce })
    } else if tx.nonce == u64::MAX {
        Err(Refusal::PolicyViolation("Account nonce exhausted"@))
    } else if cached_nonce(q, from, expected) <= tx.nonce && tx.nonce < end {
        Err(Refusal::NonceGap { expected: end as u64, got: tx.nonce })
    } else if has_entry(q.entries, from, tx.nonce as int) {
        Err(Refusal::PolicyViolation("A pending transaction already uses this sender and nonce"@))
    } else if q.config.max_txs == 0 {
        Err(Refusal::PolicyViolation("Queue capacity is zero"@))
    } else {
        Ok(expected)
    }
}

impl Mempool {
    fn check_funds(&self, ledger: &LedgerView, tx: &Transaction, required: &Vec<(String, u128)>) -> (r: Result<
        (),
        RejectionReason,
    >)
        ensures
            match funds_fault(self@.entries, tx.from@, *ledger, required@, 0) {
                None => r is Ok,
                Some(v) => r is Err && refusal(r->Err_0) == v,
            },
    {
        let mut i: usize = 0;
        while i < required.len()
            invariant
                i <= required@.len(),
                funds_fault(self@.entries, tx.from@, *ledger, required@, 0) == funds_fault(
                    self@.entries,
                    tx.from@,
                    *ledger,
                    required@,
                    i as int,
                ),
            decreases required@.len() - i,
        {
            let denom = required[i].0.as_str();
            let held = match reserved_of(&self.entries, tx.from.as_str(), denom) {
                Some(v) => v,
                None => return Err(RejectionReason::InternalError(String::from_str("Reserved balance exceeds u128"))),
            };
            let total = match held.checked_add(required[i].1) {
                Some(t) => t,
                None => return Err(RejectionReason::InternalError(String::from_str("Reserved balance exceeds u128"))),
            };
            let available = ledger_balance_of(ledger, tx.from.as_str(), denom);
            if available < total {
                return Err(
                    RejectionReason::InsufficientFunds { denom: required[i].0.clone(), required: total, available },
                );
            }
            i = i + 1;
        }
        Ok(())
    }

    /// Admission checks, in order; no state changes.
    fn check_admission(
        &self,
        ledger: &LedgerView,
        tx: &Transaction,
        required: &Vec<(String, u128)>,
        signature_valid: bool,
        skip_signature: bool,
        policy_error: &Option<String>,
    ) -> (r: Result<u64, RejectionReason>)
        requires
            tx_size_spec(*tx) <= usize::MAX,
        ensures
            match admission(self@, *ledger, *tx, required@, signature_valid, skip_signature, *policy_error) {
                Ok(e) => r == Ok::<u64, RejectionReason>(e),
                Err(v) => r is Err && refusal(r->Err_0) == v,
            },
    {
        if ledger.qualified_state {
            return Err(RejectionReason::PolicyViolation(String::from_str(
                "Qualified account state requires consensus admission; legacy and direct mutation routes are disabled",
            )));
        }
        if !skip_signature && !verify_envelope(tx, signature_valid) {
            return Err(RejectionReason::InvalidSignature);
        }
        match policy_error {
            Some(m) => return Err(RejectionReason::PolicyViolation(m.clone())),
            None => {},
        }
        match unsupported_reserved_payload_reason(tx) {
            Some(reason) => return Err(RejectionReason::PolicyViolation(reason)),
            None => {},
        }
        if find_hash(&self.entries, tx.hash.as_str()).is_some() {
            return Err(RejectionReason::Duplicate(tx.hash.clone()));
        }
        let size = estimate_tx_size(tx);
        if size > self.config.max_tx_bytes || size > self.config.max_bytes {
            let max = if self.config.max_tx_bytes < self.config.max_bytes {
                self.config.max_tx_bytes
            } else {
                self.config.max_bytes
            };
            return Err(RejectionReason::OversizedTx { max, got: size });
        }
        if tx.gas_price < self.config.min_gas_price {
            return Err(RejectionReason::UnderpricedGas { min: self.config.min_gas_price, got: tx.gas_price });
        }
        match self.check_funds(ledger, tx, required) {
            Err(e) => return Err(e),
            Ok(()) => {},
        }
        if tx.gas_limit > 0 || tx.gas_price > 0 {
            match validate_gas(tx) {
                Err(m) => return Err(RejectionReason::InternalError(m)),
                Ok(()) => {},
            }
        }
        let expected = ledger_nonce_of(ledger, tx.from.as_str());
        if tx.nonce < expected {
            return Err(RejectionReason::NonceGap { expected, got: tx.nonce });
        }
        if tx.nonce == u64::MAX {
            return Err(RejectionReason::PolicyViolation(String::from_str("Account nonce exhausted")));
        }
        let cached = match nonce_lookup(&self.confirmed, tx.from.as_str()) {
            Some(c) => c,
            None => expected,
        };
        let run = run_length(&self.entries, tx.from.as_str(), cached);
        let end = cached + run;
        if tx.nonce >= cached && tx.nonce < end {
            return Err(RejectionReason::NonceGap { expected: end, got: tx.nonce });
        }
        if find_entry(&self.entries, tx.from.as_str(), tx.nonce).is_some() {
            return Err(RejectionReason::PolicyViolation(String::from_str(
                "A pending transaction already uses this sender and nonce",
            )));
        }
        if self.config.max_txs == 0 {
            return Err(RejectionReason::PolicyViolation(String::from_str("Queue capacity is zero")));
        }
        Ok(expected)
    }
}

/// Whether every recorded confirmed nonce is still the committed one.
pub open spec fn nonces_current(q: QueueView, l: LedgerView) -> bool {
    forall|i: int| 0 <= i < q.confirmed.len() ==> ledger_nonce(l, (#[trigger] q.confirmed[i]).0@) == q.confirmed[i].1
}

/// Whether an admitted transaction is inserted directly: capacity is free,
/// it fills no gap below a deferred successor, and no confirmed nonce has
/// moved.
pub open spec fn takes_fast_path(q: QueueView, l: LedgerView, tx: Transaction, expected: u64) -> bool {
    &&& q.entries.len() < q.config.max_txs
    &&& q.bytes() + tx_size_spec(tx) <= q.config.max_bytes
    &&& !(tx.nonce == ready_end(q, tx.from@, expected) && has_entry(q.entries, tx.from@, tx.nonce + 1))
    &&& nonces_current(q, l)
}

/// The index of the entry of lowest priority among the first `n`: the
/// greatest key.
pub open spec fn worst_index(es: Seq<Queued>, n: int) -> int
    decreases n,
{
    if n <= 1 {
        0
    } else {
        let b = worst_index(es, n - 1);
        if key_before(key(es[b]), key(es[n - 1])) {
            n - 1
        } else {
            b
        }
    }
}

pub open spec fn over_capacity(es: Seq<Queued>, cfg: MempoolConfig, size: nat) -> bool {
    es.len() >= cfg.max_txs || bytes_sum(es, es.len() as int) + size > cfg.max_bytes
}

/// Entries left after evicting the lowest-priority entry, one at a time,
/// until a transaction of `size` bytes fits.
pub open spec fn evict(es: Seq<Queued>, cfg: MempoolConfig, size: nat) -> Seq<Queued>
    decreases es.len(),
{
    if es.len() == 0 || !over_capacity(es, cfg, size) {
        es
    } else {
        proof {
            lemma_worst_in_range(es, es.len() as int);
        }
        evict(es.remove(worst_index(es, es.len() as int)), cfg, size)
    }
}

/// What a successful admission leaves: the retained entries, the new one
/// last, and the confirmed nonces.
pub open spec fn admitted(q: QueueView, q2: QueueView, l: LedgerView, tx: Transaction, req: Seq<(String, u128)>, expected: u64) -> bool {
    let fast = takes_fast_path(q, l, tx, expected);
    let kept = if fast {
        q.entries
    } else {
        evict(q.entries, q.config, tx_size_spec(tx))
    };
    &&& q2.config == q.config
    &&& q2.entries.len() == kept.len() + 1
    &&& q2.entries.drop_last() == kept
    &&& q2.entries.last().pending.tx == tx
    &&& q2.entries.last().pending.serialized_size == tx_size_spec(tx)
    &&& q2.entries.last().required@ == req
    &&& forall|s: Seq<char>| #[trigger]
        nonce_of(q2.confirmed, s, 0) == if s == tx.from@ {
            Some(expected)
        } else if fast {
            nonce_of(q.confirmed, s, 0)
        } else if has_sender(q2.entries, s) {
            Some(ledger_nonce(l, s))
        } else {
            None
        }
}

pub proof fn lemma_worst_in_range(es: Seq<Queued>, n: int)
    requires
        1 <= n,
    ensures
        0 <= worst_index(es, n) < n,
    decreases n,
{
    if n > 1 {
        lemma_worst_in_range(es, n - 1);
    }
}

pub proof fn lemma_bytes_prefix(es: Seq<Queued>, x: Queued, n: int)
    requires
        0 <= n <= es.len(),
    ensures
        bytes_sum(es.push(x), n) == bytes_sum(es, n),
    decreases n,
{
    if n > 0 {
        lemma_bytes_prefix(es, x, n - 1);
    }
}

pub proof fn lemma_bytes_push(es: Seq<Queued>, x: Queued)
    ensures
        bytes_sum(es.push(x), es.len() + 1int) == bytes_sum(es, es.len() as int) + x.pending.serialized_size,
{
    lemma_bytes_prefix(es, x, es.len() as int);
}

pub proof fn lemma_bytes_remove(es: Seq<Queued>, i: int, n: int)
    requires
        0 <= i < es.len(),
        0 <= n < es.len(),
    ensures
        n <= i ==> bytes_sum(es.remove(i), n) == bytes_sum(es, n),
        n > i ==> bytes_sum(es.remove(i), n) + es[i].pending.serialized_size == bytes_sum(es, n + 1),
    decreases n,
{
    let r = es.remove(i);
    if n > 0 {
        lemma_bytes_remove(es, i, n - 1);
        if n - 1 >= i {
            assert(r[n - 1] == es[n]);
        } else {
            assert(r[n - 1] == es[n - 1]);
        }
        assert(bytes_sum(r, n) == bytes_sum(r, n - 1) + r[n - 1].pending.serialized_size);
        assert(bytes_sum(es, n + 1) == bytes_sum(es, n) + es[n].pending.serialized_size);
    }
}

/// Removing an entry keeps the queue's entry invariants, and what is left
/// was there before.
pub proof fn lemma_remove_keeps(es: Seq<Queued>, i: int)
    requires
        0 <= i < es.len(),
        distinct_hashes(es),
        distinct_slots(es),
        sized(es),
    ensures
        distinct_hashes(es.remove(i)),
        distinct_slots(es.remove(i)),
        sized(es.remove(i)),
        forall|j: int| 0 <= j < es.remove(i).len() ==> exists|k: int| 0 <= k < es.len() && #[trigger] es.remove(i)[j] == es[k],
        bytes_sum(es.remove(i), es.len() - 1) + es[i].pending.serialized_size == bytes_sum(es, es.len() as int),
{
    let r = es.remove(i);
    assert forall|a: int, b: int| 0 <= a < b < r.len() implies hash(#[trigger] r[a]) != hash(#[trigger] r[b]) by {
        let a2 = if a < i { a } else { a + 1 };
        let b2 = if b < i { b } else { b + 1 };
        assert(r[a] == es[a2] && r[b] == es[b2]);
        assert(hash(es[a2]) != hash(es[b2]));
    }
    assert forall|a: int, b: int| 0 <= a < b < r.len() implies !(sender(#[trigger] r[a]) == sender(#[trigger] r[b])
        && nonce(r[a]) == nonce(r[b])) by {
        let a2 = if a < i { a } else { a + 1 };
        let b2 = if b < i { b } else { b + 1 };
        assert(r[a] == es[a2] && r[b] == es[b2]);
        assert(!(sender(es[a2]) == sender(es[b2]) && nonce(es[a2]) == nonce(es[b2])));
    }
    assert forall|j: int| 0 <= j < r.len() implies exists|k: int| 0 <= k < es.len() && #[trigger] r[j] == es[k] by {
        let k = if j < i { j } else { j + 1 };
        assert(r[j] == es[k]);
    }
    assert forall|j: int| 0 <= j < r.len() implies (#[trigger] r[j]).pending.serialized_size == tx_size_spec(
        r[j].pending.tx,
    ) by {
        let k = if j < i { j } else { j + 1 };
        assert(r[j] == es[k]);
    }
    if es.len() > 1 {
        lemma_bytes_remove(es, i, es.len() - 1);
    }
    assert(bytes_sum(es, es.len() as int) == bytes_sum(es, es.len() - 1) + es[es.len() - 1].pending.serialized_size);
    assert(bytes_sum(es, 0) == 0);
}

/// Eviction keeps the queue's entry invariants, keeps only entries that
/// were there, never adds bytes, and stops once a transaction of `size`
/// fits or nothing is left.
pub proof fn lemma_evict(es: Seq<Queued>, cfg: MempoolConfig, size: nat)
    requires
        distinct_hashes(es),
        distinct_slots(es),
        sized(es),
    ensures
        ({
            let r = evict(es, cfg, size);
            &&& distinct_hashes(r)
            &&& distinct_slots(r)
            &&& sized(r)
            &&& forall|j: int| 0 <= j < r.len() ==> exists|k: int| 0 <= k < es.len() && #[trigger] r[j] == es[k]
            &&& bytes_sum(r, r.len() as int) <= bytes_sum(es, es.len() as int)
            &&& (r.len() == 0 || !over_capacity(r, cfg, size))
        }),
    decreases es.len(),
{
    if es.len() == 0 || !over_capacity(es, cfg, size) {
        assert forall|j: int| 0 <= j < es.len() implies exists|k: int| 0 <= k < es.len() && #[trigger] es[j] == es[k] by {
            assert(es[j] == es[j]);
        }
    } else {
        let i = worst_index(es, es.len() as int);
        lemma_worst_in_range(es, es.len() as int);
        lemma_remove_keeps(es, i);
        let rest = es.remove(i);
        lemma_evict(rest, cfg, size);
        let r = evict(rest, cfg, size);
        assert forall|j: int| 0 <= j < r.len() implies exists|k: int| 0 <= k < es.len() && #[trigger] r[j] == es[k] by {
            let k1 = choose|k1: int| 0 <= k1 < rest.len() && #[trigger] r[j] == rest[k1];
            let k = if k1 < i { k1 } else { k1 + 1 };
            assert(rest[k1] == es[k]);
        }
    }
}

/// The lowest-priority entry.
fn worst(es: &Vec<Queued>) -> (r: usize)
    requires
        es@.len() > 0,
    ensures
        r == worst_index(es@, es@.len() as int),
        r < es@.len(),
{
    let mut b: usize = 0;
    let mut i: usize = 1;
    while i < es.len()
        invariant
            1 <= i <= es@.len(),
            b == worst_index(es@, i as int),
            b < i,
        decreases es@.len() - i,
    {
        let kb = es[b].pending.priority_key();
        let ki = es[i].pending.priority_key();
        if kb.precedes(&ki) {
            b = i;
        }
        i = i + 1;
    }
    b
}

/// Record `v` as the confirmed nonce of `k`, keeping keys unique.
fn upsert_confirmed(c: &mut Vec<(String, u64)>, k: String, v: u64)
    requires
        unique_keys(old(c)@),
    ensures
        unique_keys(final(c)@),
        forall|s: Seq<char>| #[trigger]
            nonce_of(final(c)@, s, 0) == if s == k@ {
                Some(v)
            } else {
                nonce_of(old(c)@, s, 0)
            },
{
    let ghost c0 = c@;
    let mut i: usize = 0;
    while i < c.len()
        invariant
            i <= c@.len(),
            c@ == c0,
            c0 == old(c)@,
            unique_keys(c0),
            forall|j: int| 0 <= j < i ==> (#[trigger] c@[j]).0@ != k@,
        decreases c@.len() - i,
    {
        if str_eq(c[i].0.as_str(), k.as_str()) {
            let ghost kv = k@;
            c.set(i, (k, v));
            proof {
                assert forall|a: int, b: int| 0 <= a < b < c@.len() implies (#[trigger] c@[a]).0@ != (#[trigger] c@[b]).0@ by {
                    assert(c@[a].0@ == c0[a].0@);
                    assert(c@[b].0@ == c0[b].0@);
                    assert(c0[a].0@ != c0[b].0@);
                }
                assert forall|s: Seq<char>| #[trigger]
                    nonce_of(c@, s, 0) == if s == kv {
                        Some(v)
                    } else {
                        nonce_of(c0, s, 0)
                    } by {
                    lemma_lookup(c@, s, 0);
                    lemma_lookup(c0, s, 0);
                    if s == kv {
                        assert(c@[i as int].0@ == s);
                    } else if exists|j: int| 0 <= j < c0.len() && (#[trigger] c0[j]).0@ == s {
                        let j = choose|j: int| 0 <= j < c0.len() && (#[trigger] c0[j]).0@ == s;
                        assert(c@[j] == c0[j]);
                    } else {
                        assert forall|j: int| 0 <= j < c@.len() implies (#[trigger] c@[j]).0@ != s by {
                            if j != i {
                                assert(c@[j] == c0[j]);
                            }
                        }
                    }
                }
            }
            return;
        }
        i = i + 1;
    }
    let ghost kv = k@;
    c.push((k, v));
    proof {
        assert forall|a: int, b: int| 0 <= a < b < c@.len() implies (#[trigger] c@[a]).0@ != (#[trigger] c@[b]).0@ by {
            if b < c0.len() {
                assert(c0[a].0@ != c0[b].0@);
            }
        }
        assert forall|s: Seq<char>| #[trigger]
            nonce_of(c@, s, 0) == if s == kv {
                Some(v)
            } else {
                nonce_of(c0, s, 0)
            } by {
            lemma_lookup(c@, s, 0);
            lemma_lookup(c0, s, 0);
            if s == kv {
                assert(c@[c0.len() as int].0@ == s);
            } else if exists|j: int| 0 <= j < c0.len() && (#[trigger] c0[j]).0@ == s {
                let j = choose|j: int| 0 <= j < c0.len() && (#[trigger] c0[j]).0@ == s;
                assert(c@[j] == c0[j]);
            } else {
                assert forall|j: int| 0 <= j < c@.len() implies (#[trigger] c@[j]).0@ != s by {
                    if j < c0.len() {
                        assert(c@[j] == c0[j]);
                    }
                }
            }
        }
    }
}

proof fn lemma_has_sender_step(es: Seq<Queued>, i: int)
    requires
        0 <= i < es.len(),
    ensures
        forall|t: Seq<char>|
            has_sender(es.take(i + 1), t) == (has_sender(es.take(i), t) || sender(es[i]) == t),
{
    assert forall|t: Seq<char>|
        has_sender(es.take(i + 1), t) == (has_sender(es.take(i), t) || sender(es[i]) == t) by {
        if has_sender(es.take(i + 1), t) {
            let j = choose|j: int| 0 <= j < es.take(i + 1).len() && #[trigger] sender(es.take(i + 1)[j]) == t;
            if j < i {
                assert(es.take(i)[j] == es.take(i + 1)[j]);
            }
        }
        if has_sender(es.take(i), t) {
            let j = choose|j: int| 0 <= j < es.take(i).len() && #[trigger] sender(es.take(i)[j]) == t;
            assert(es.take(i + 1)[j] == es.take(i)[j]);
        }
        if sender(es[i]) == t {
            assert(es.take(i + 1)[i] == es[i]);
        }
    }
}

/// Confirmed nonces for exactly the senders of `es`: `expected` for the
/// pinned sender, the committed nonce for every other sender.
fn confirm_all(es: &Vec<Queued>, pinned: &Option<String>, expected: u64, l: &LedgerView) -> (r: Vec<(String, u64)>)
    ensures
        unique_keys(r@),
        forall|s: Seq<char>| #[trigger]
            nonce_of(r@, s, 0) == if has_sender(es@, s) {
                Some(
                    if pinned is Some && s == pinned->0@ {
                        expected
                    } else {
                        ledger_nonce(*l, s)
                    },
                )
            } else {
                None
            },
{
    let mut r: Vec<(String, u64)> = Vec::new();
    let mut i: usize = 0;
    proof {
        assert forall|s: Seq<char>| !has_sender(es@.take(0), s) by {}
    }
    while i < es.len()
        invariant
            i <= es@.len(),
            unique_keys(r@),
            forall|s: Seq<char>| #[trigger]
                nonce_of(r@, s, 0) == if has_sender(es@.take(i as int), s) {
                    Some(
                        if pinned is Some && s == pinned->0@ {
                            expected
                        } else {
                            ledger_nonce(*l, s)
                        },
                    )
                } else {
                    None
                },
        decreases es@.len() - i,
    {
        proof {
            lemma_has_sender_step(es@, i as int);
        }
        let s = &es[i].pending.tx.from;
        if nonce_lookup(&r, s.as_str()).is_none() {
            let v = match pinned {
                Some(f) => if str_eq(s.as_str(), f.as_str()) {
                    expected
                } else {
                    ledger_nonce_of(l, s.as_str())
                },
                None => ledger_nonce_of(l, s.as_str()),
            };
            let ghost r0 = r@;
            let ghost sv = s@;
            proof {
                lemma_lookup(r0, sv, 0);
            }
            r.push((s.clone(), v));
            proof {
                assert forall|a: int, b: int| 0 <= a < b < r@.len() implies (#[trigger] r@[a]).0@ != (#[trigger] r@[b]).0@ by {
                    if b < r0.len() {
                        assert(r0[a].0@ != r0[b].0@);
                    } else {
                        assert(r@[a] == r0[a]);
                    }
                }
                assert forall|t: Seq<char>| #[trigger]
                    nonce_of(r@, t, 0) == if has_sender(es@.take(i + 1), t) {
                        Some(
                            if pinned is Some && t == pinned->0@ {
                                expected
                            } else {
                                ledger_nonce(*l, t)
                            },
                        )
                    } else {
                        None
                    } by {
                    lemma_lookup(r@, t, 0);
                    lemma_lookup(r0, t, 0);
                    if t == sv {
                        assert(r@[r0.len() as int].0@ == t);
                    } else if exists|j: int| 0 <= j < r0.len() && (#[trigger] r0[j]).0@ == t {
                        let j = choose|j: int| 0 <= j < r0.len() && (#[trigger] r0[j]).0@ == t;
                        assert(r@[j] == r0[j]);
                    } else {
                        assert forall|j: int| 0 <= j < r@.len() implies (#[trigger] r@[j]).0@ != t by {
                            if j < r0.len() {
                                assert(r@[j] == r0[j]);
                            }
                        }
                    }
                }
            }
        }
        i = i + 1;
    }
    proof {
        assert(es@.take(es@.len() as int) =~= es@);
    }
    r
}

impl Mempool {
    /// Whether every recorded confirmed nonce is still the committed one.
    fn nonces_are_current(&self, ledger: &LedgerView) -> (r: bool)
        ensures
            r == nonces_current(self@, *ledger),
    {
        let mut i: usize = 0;
        while i < self.confirmed.len()
            invariant
                i <= self.confirmed@.len(),
                forall|j: int| 0 <= j < i ==> ledger_nonce(*ledger, (#[trigger] self.confirmed@[j]).0@) == self.confirmed@[j].1,
            decreases self.confirmed@.len() - i,
        {
            if ledger_nonce_of(ledger, self.confirmed[i].0.as_str()) != self.confirmed[i].1 {
                assert(self@.confirmed[i as int] == self.confirmed@[i as int]);
                return false;
            }
            i = i + 1;
        }
        true
    }

    /// Admit a signed transaction: it must carry a signature and a public
    /// key, and the check of that signature gave `signature_valid`; the
    /// signature policy check gave
    /// `policy_error`; `required` lists the balances it needs, by
    /// denomination.
    pub fn add_transaction(
        &mut self,
        ledger: &LedgerView,
        tx: Transaction,
        required: Vec<(String, u128)>,
        signature_valid: bool,
        policy_error: Option<String>,
    ) -> (r: Result<(), RejectionReason>)
        requires
            old(self)@.wf(),
            tx_size_spec(tx) <= usize::MAX,
        ensures
            final(self)@.wf(),
            match admission(old(self)@, *ledger, tx, required@, signature_valid, false, policy_error) {
                Err(v) => r is Err && refusal(r->Err_0) == v && final(self)@ == old(self)@,
                Ok(expected) => r is Ok && admitted(old(self)@, final(self)@, *ledger, tx, required@, expected),
            },
    {
        self.add_transaction_internal(ledger, tx, required, signature_valid, false, policy_error)
    }

    /// Admit a transaction from a trusted source, without a signature check.
    pub fn add_transaction_trusted(
        &mut self,
        ledger: &LedgerView,
        tx: Transaction,
        required: Vec<(String, u128)>,
        policy_error: Option<String>,
    ) -> (r: Result<(), RejectionReason>)
        requires
            old(self)@.wf(),
            tx_size_spec(tx) <= usize::MAX,
        ensures
            final(self)@.wf(),
            match admission(old(self)@, *ledger, tx, required@, false, true, policy_error) {
                Err(v) => r is Err && refusal(r->Err_0) == v && final(self)@ == old(self)@,
                Ok(expected) => r is Ok && admitted(old(self)@, final(self)@, *ledger, tx, required@, expected),
            },
    {
        self.add_transaction_internal(ledger, tx, required, false, true, policy_error)
    }

    /// Admit a signed transaction against the empty ledger: no stored
    /// nonces, no balances and no qualified state.
    pub fn push(
        &mut self,
        tx: Transaction,
        required: Vec<(String, u128)>,
        signature_valid: bool,
        policy_error: Option<String>,
    ) -> (r: Result<(), RejectionReason>)
        requires
            old(self)@.wf(),
            tx_size_spec(tx) <= usize::MAX,
        ensures
            final(self)@.wf(),
            exists|l: LedgerView|
                {
                    &&& !l.qualified_state
                    &&& l.nonces@.len() == 0
                    &&& l.balances@.len() == 0
                    &&& match #[trigger] admission(old(self)@, l, tx, required@, signature_valid, false, policy_error) {
                        Err(v) => r is Err && refusal(r->Err_0) == v && final(self)@ == old(self)@,
                        Ok(expected) => r is Ok && admitted(old(self)@, final(self)@, l, tx, required@, expected),
                    }
                },
    {
        let ledger = LedgerView { qualified_state: false, nonces: Vec::new(), balances: Vec::new() };
        self.add_transaction(&ledger, tx, required, signature_valid, policy_error)
    }

    /// Insert directly: capacity is free and readiness is current.
    fn insert_fast(&mut self, entry: Queued, from: String, expected: u64)
        requires
            old(self)@.wf(),
            entry.pending.tx.from@ == from@,
            entry.pending.serialized_size == tx_size_spec(entry.pending.tx),
            !has_hash(old(self)@.entries, entry.pending.tx.hash@),
            !has_entry(old(self)@.entries, from@, entry.pending.tx.nonce as int),
            old(self)@.bytes() + entry.pending.serialized_size <= old(self)@.config.max_bytes,
        ensures
            final(self)@.wf(),
            final(self)@.config == old(self)@.config,
            final(self)@.entries == old(self)@.entries.push(entry),
            forall|s: Seq<char>| #[trigger]
                nonce_of(final(self)@.confirmed, s, 0) == if s == from@ {
                    Some(expected)
                } else {
                    nonce_of(old(self)@.confirmed, s, 0)
                },
    {
        let ghost q = self@;
        let ghost e = entry;
        proof {
            lemma_bytes_push(q.entries, e);
        }
        self.entries.push(entry);
        upsert_confirmed(&mut self.confirmed, from, expected);
        proof {
            let es = self.entries@;
            assert(es.drop_last() =~= q.entries);
            assert forall|a: int, b: int| 0 <= a < b < es.len() implies hash(#[trigger] es[a]) != hash(#[trigger] es[b]) by {
                assert(es[a] == q.entries[a]);
                if b < q.entries.len() {
                    assert(es[b] == q.entries[b]);
                }
            }
            assert forall|a: int, b: int| 0 <= a < b < es.len() implies !(sender(#[trigger] es[a]) == sender(#[trigger] es[b])
                && nonce(es[a]) == nonce(es[b])) by {
                assert(es[a] == q.entries[a]);
                if b < q.entries.len() {
                    assert(es[b] == q.entries[b]);
                }
            }
            assert forall|j: int| 0 <= j < es.len() implies #[trigger] nonce_of(self.confirmed@, sender(es[j]), 0) is Some by {
                if j < q.entries.len() {
                    assert(es[j] == q.entries[j]);
                    assert(nonce_of(q.confirmed, sender(q.entries[j]), 0) is Some);
                }
            }
            assert forall|j: int| 0 <= j < es.len() implies (#[trigger] es[j]).pending.serialized_size == tx_size_spec(
                es[j].pending.tx,
            ) by {
                if j < q.entries.len() {
                    assert(es[j] == q.entries[j]);
                }
            }
        }
    }

    /// Evict lowest-priority entries until a transaction of `size` bytes
    /// fits.
    fn evict_for(&mut self, size: usize)
        requires
            old(self)@.wf(),
        ensures
            final(self)@.config == old(self)@.config,
            final(self)@.confirmed == old(self)@.confirmed,
            final(self)@.entries == evict(old(self)@.entries, old(self)@.config, size as nat),
    {
        let ghost q = self@;
        let mut total = self.total_bytes();
        let mut over = self.entries.len() > 0 && (self.entries.len() >= self.config.max_txs || match total.checked_add(
            size,
        ) {
            Some(b) => b > self.config.max_bytes,
            None => true,
        });
        while over
            invariant
                self.config == q.config,
                self.confirmed@ == q.confirmed,
                distinct_hashes(self.entries@),
                distinct_slots(self.entries@),
                sized(self.entries@),
                evict(self.entries@, q.config, size as nat) == evict(q.entries, q.config, size as nat),
                total == bytes_sum(self.entries@, self.entries@.len() as int),
                over == (self.entries@.len() > 0 && over_capacity(self.entries@, q.config, size as nat)),
            decreases self.entries@.len(),
        {
            let i = worst(&self.entries);
            let ghost before = self.entries@;
            proof {
                lemma_remove_keeps(before, i as int);
            }
            let removed = self.entries.remove(i);
            total = total - removed.pending.serialized_size;
            over = self.entries.len() > 0 && (self.entries.len() >= self.config.max_txs || match total.checked_add(size) {
                Some(b) => b > self.config.max_bytes,
                None => true,
            });
        }
    }

    /// Evict until the entry fits, insert it, and take every retained
    /// sender's confirmed nonce from committed state, `expected` for its own.
    fn insert_rebuilt(&mut self, entry: Queued, from: String, expected: u64, ledger: &LedgerView)
        requires
            old(self)@.wf(),
            old(self)@.config.max_txs > 0,
            entry.pending.tx.from@ == from@,
            entry.pending.serialized_size == tx_size_spec(entry.pending.tx),
            entry.pending.serialized_size <= old(self)@.config.max_bytes,
            !has_hash(old(self)@.entries, entry.pending.tx.hash@),
            !has_entry(old(self)@.entries, from@, entry.pending.tx.nonce as int),
        ensures
            final(self)@.wf(),
            final(self)@.config == old(self)@.config,
            final(self)@.entries == evict(old(self)@.entries, old(self)@.config, entry.pending.serialized_size as nat).push(
                entry,
            ),
            forall|s: Seq<char>| #[trigger]
                nonce_of(final(self)@.confirmed, s, 0) == if s == from@ {
                    Some(expected)
                } else if has_sender(final(self)@.entries, s) {
                    Some(ledger_nonce(*ledger, s))
                } else {
                    None
                },
    {
        let ghost q = self@;
        let ghost e = entry;
        let size = entry.pending.serialized_size;
        proof {
            lemma_evict(q.entries, q.config, size as nat);
        }
        self.evict_for(size);
        let ghost kept = self.entries@;
        self.entries.push(entry);
        self.confirmed = confirm_all(&self.entries, &Some(from), expected, ledger);
        proof {
            let es = self.entries@;
            lemma_bytes_push(kept, e);
            assert(es.drop_last() =~= kept);
            assert forall|a: int, b: int| 0 <= a < b < es.len() implies hash(#[trigger] es[a]) != hash(#[trigger] es[b]) by {
                assert(es[a] == kept[a]);
                if b < kept.len() {
                    assert(es[b] == kept[b]);
                } else {
                    let k = choose|k: int| 0 <= k < q.entries.len() && #[trigger] kept[a] == q.entries[k];
                    assert(hash(q.entries[k]) != e.pending.tx.hash@);
                }
            }
            assert forall|a: int, b: int| 0 <= a < b < es.len() implies !(sender(#[trigger] es[a]) == sender(#[trigger] es[b])
                && nonce(es[a]) == nonce(es[b])) by {
                assert(es[a] == kept[a]);
                if b < kept.len() {
                    assert(es[b] == kept[b]);
                } else {
                    let k = choose|k: int| 0 <= k < q.entries.len() && #[trigger] kept[a] == q.entries[k];
                    assert(!(sender(q.entries[k]) == e.pending.tx.from@ && nonce(q.entries[k]) == e.pending.tx.nonce));
                }
            }
            assert forall|j: int| 0 <= j < es.len() implies #[trigger] nonce_of(self.confirmed@, sender(es[j]), 0) is Some by {
                assert(has_sender(es, sender(es[j])));
            }
            assert forall|j: int| 0 <= j < es.len() implies (#[trigger] es[j]).pending.serialized_size == tx_size_spec(
                es[j].pending.tx,
            ) by {
                if j < kept.len() {
                    assert(es[j] == kept[j]);
                }
            }
            assert(has_sender(es, from@)) by {
                assert(sender(es[es.len() - 1]) == from@);
            }
        }
    }

    fn add_transaction_internal(
        &mut self,
        ledger: &LedgerView,
        tx: Transaction,
        required: Vec<(String, u128)>,
        signature_valid: bool,
        skip_signature: bool,
        policy_error: Option<String>,
    ) -> (r: Result<(), RejectionReason>)
        requires
            old(self)@.wf(),
            tx_size_spec(tx) <= usize::MAX,
        ensures
            final(self)@.wf(),
            match admission(old(self)@, *ledger, tx, required@, signature_valid, skip_signature, policy_error) {
                Err(v) => r is Err && refusal(r->Err_0) == v && final(self)@ == old(self)@,
                Ok(expected) => r is Ok && admitted(old(self)@, final(self)@, *ledger, tx, required@, expected),
            },
    {
        let expected = match self.check_admission(
            ledger,
            &tx,
            &required,
            signature_valid,
            skip_signature,
            &policy_error,
        ) {
            Err(e) => return Err(e),
            Ok(e) => e,
        };
        let size = estimate_tx_size(&tx);
        let bytes = self.total_bytes();
        let fits = match bytes.checked_add(size) {
            Some(b) => b <= self.config.max_bytes,
            None => false,
        };
        let has_capacity = self.entries.len() < self.config.max_txs && fits;
        let cached = match nonce_lookup(&self.confirmed, tx.from.as_str()) {
            Some(c) => c,
            None => expected,
        };
        let end = cached + run_length(&self.entries, tx.from.as_str(), cached);
        let needs_promotion = tx.nonce == end && find_entry(&self.entries, tx.from.as_str(), tx.nonce + 1).is_some();
        let current = self.nonces_are_current(ledger);
        let from = tx.from.clone();
        let pending = PendingTx::new(tx);
        let entry = Queued { pending, required };
        let ghost q = self@;
        let ghost e = entry;
        let ghost txv = e.pending.tx;
        if has_capacity && !needs_promotion && current {
            self.insert_fast(entry, from, expected);
            proof {
                assert(takes_fast_path(q, *ledger, txv, expected));
                assert(self@.entries.drop_last() =~= q.entries);
            }
        } else {
            self.insert_rebuilt(entry, from, expected, ledger);
            proof {
                assert(!takes_fast_path(q, *ledger, txv, expected));
                assert(self@.entries.drop_last() =~= evict(q.entries, q.config, tx_size_spec(txv)));
            }
        }
        Ok(())
    }
}

/// A transaction as plain values.
pub struct TxView {
    pub hash: Seq<char>,
    pub from: Seq<char>,
    pub to: Seq<char>,
    pub amount: u128,
    pub fee: u128,
    pub nonce: u64,
    pub signature: Option<Seq<char>>,
    pub public_key: Option<Seq<char>>,
    pub gas_limit: u64,
    pub gas_price: u64,
    pub messages: Option<Seq<(Seq<char>, Seq<char>)>>,
}

pub open spec fn text_view(s: Option<String>) -> Option<Seq<char>> {
    match s {
        Some(t) => Some(t@),
        None => None,
    }
}

pub open spec fn messages_view(m: Seq<TxMessage>) -> Seq<(Seq<char>, Seq<char>)> {
    m.map_values(|x: TxMessage| match x {
        TxMessage::Data { from, data } => (from@, data@),
    })
}

pub open spec fn tx_view(tx: Transaction) -> TxView {
    TxView {
        hash: tx.hash@,
        from: tx.from@,
        to: tx.to@,
        amount: tx.amount,
        fee: tx.fee,
        nonce: tx.nonce,
        signature: text_view(tx.signature),
        public_key: text_view(tx.public_key),
        gas_limit: tx.gas_limit,
        gas_price: tx.gas_price,
        messages: match tx.messages {
            Some(m) => Some(messages_view(m@)),
            None => None,
        },
    }
}

fn copy_text(s: &Option<String>) -> (r: Option<String>)
    ensures
        text_view(r) == text_view(*s),
{
    match s {
        Some(t) => Some(t.clone()),
        None => None,
    }
}

fn copy_messages(m: &Vec<TxMessage>) -> (r: Vec<TxMessage>)
    ensures
        r@ == m@,
{
    let mut r: Vec<TxMessage> = Vec::new();
    let mut i: usize = 0;
    while i < m.len()
        invariant
            i <= m@.len(),
            r@ == m@.take(i as int),
        decreases m@.len() - i,
    {
        match &m[i] {
            TxMessage::Data { from, data } => {
                r.push(TxMessage::Data { from: from.clone(), data: data.clone() });
            },
        }
        i = i + 1;
        proof {
            assert(r@ =~= m@.take(i as int));
        }
    }
    proof {
        assert(m@.take(m@.len() as int) =~= m@);
    }
    r
}

/// A copy of a transaction, equal as plain values.
pub fn copy_tx(tx: &Transaction) -> (r: Transaction)
    ensures
        tx_view(r) == tx_view(*tx),
{
    Transaction {
        hash: tx.hash.clone(),
        from: tx.from.clone(),
        to: tx.to.clone(),
        amount: tx.amount,
        fee: tx.fee,
        nonce: tx.nonce,
        signature: copy_text(&tx.signature),
        public_key: copy_text(&tx.public_key),
        gas_limit: tx.gas_limit,
        gas_price: tx.gas_price,
        messages: match &tx.messages {
            Some(m) => Some(copy_messages(m)),
            None => None,
        },
    }
}

/// The index of the lowest-priority ready entry among the first `n`, or -1.
pub open spec fn worst_ready(es: Seq<Queued>, conf: Seq<(String, u64)>, n: int) -> int
    decreases n,
{
    if n <= 0 {
        -1
    } else {
        let b = worst_ready(es, conf, n - 1);
        if is_ready(es, conf, n - 1) && (b < 0 || key_before(key(es[b]), key(es[n - 1]))) {
            n - 1
        } else {
            b
        }
    }
}

pub proof fn lemma_worst_ready_range(es: Seq<Queued>, conf: Seq<(String, u64)>, n: int)
    requires
        0 <= n,
    ensures
        -1 <= worst_ready(es, conf, n) < n,
        worst_ready(es, conf, n) >= 0 ==> is_ready(es, conf, worst_ready(es, conf, n)),
    decreases n,
{
    if n > 0 {
        lemma_worst_ready_range(es, conf, n - 1);
    }
}

/// The entry a sender's ready run continues with after entry `i`.
pub open spec fn successor(es: Seq<Queued>, i: int) -> Option<int> {
    let k = nonce(es[i]) + 1;
    let j = entry_index(es, sender(es[i]), k, 0);
    if k < u64::MAX && j >= 0 {
        Some(j)
    } else {
        None
    }
}

/// The ready entries at the confirmed nonces of the first `k` senders.
pub open spec fn heads(es: Seq<Queued>, conf: Seq<(String, u64)>, k: int) -> Seq<usize>
    decreases k,
{
    if k <= 0 || k > conf.len() {
        Seq::empty()
    } else {
        let h = heads(es, conf, k - 1);
        let c = conf[k - 1].1;
        let i = entry_index(es, conf[k - 1].0@, c as int, 0);
        if c < u64::MAX && i >= 0 {
            h.push(i as usize)
        } else {
            h
        }
    }
}

/// The position among the first `n` candidates of the highest-priority one:
/// the least key.
pub open spec fn best_pos(es: Seq<Queued>, cands: Seq<usize>, n: int) -> int
    decreases n,
{
    if n <= 1 {
        0
    } else {
        let b = best_pos(es, cands, n - 1);
        if key_before(key(es[cands[n - 1] as int]), key(es[cands[b] as int])) {
            n - 1
        } else {
            b
        }
    }
}

pub proof fn lemma_best_pos_range(es: Seq<Queued>, cands: Seq<usize>, n: int)
    requires
        1 <= n,
    ensures
        0 <= best_pos(es, cands, n) < n,
    decreases n,
{
    if n > 1 {
        lemma_best_pos_range(es, cands, n - 1);
    }
}

/// The order a block snapshot takes: up to `n` times, the highest-priority
/// candidate, whose sender's next ready nonce then becomes a candidate.
pub open spec fn snapshot_order(es: Seq<Queued>, cands: Seq<usize>, n: nat) -> Seq<usize>
    decreases n,
{
    if n == 0 || cands.len() == 0 {
        Seq::empty()
    } else {
        let p = best_pos(es, cands, cands.len() as int);
        let i = cands[p];
        let rest = cands.remove(p);
        let next = match successor(es, i as int) {
            Some(j) => rest.push(j as usize),
            None => rest,
        };
        seq![i] + snapshot_order(es, next, (n - 1) as nat)
    }
}

pub open spec fn in_range(es: Seq<Queued>, cands: Seq<usize>) -> bool {
    forall|j: int| 0 <= j < cands.len() ==> #[trigger] cands[j] < es.len()
}

pub proof fn lemma_entry_index_range(es: Seq<Queued>, s: Seq<char>, k: int, i: int)
    requires
        0 <= i,
    ensures
        -1 <= entry_index(es, s, k, i) < es.len(),
        entry_index(es, s, k, i) >= 0 ==> sender(es[entry_index(es, s, k, i)]) == s && nonce(es[entry_index(es, s, k, i)]) == k,
    decreases es.len() - i,
{
    if i < es.len() {
        lemma_entry_index_range(es, s, k, i + 1);
    }
}

pub proof fn lemma_heads_range(es: Seq<Queued>, conf: Seq<(String, u64)>, k: int)
    ensures
        in_range(es, heads(es, conf, k)),
    decreases k,
{
    if 0 < k <= conf.len() {
        lemma_heads_range(es, conf, k - 1);
        lemma_entry_index_range(es, conf[k - 1].0@, conf[k - 1].1 as int, 0);
    }
}

impl Mempool {
    /// A queue with the built-in limits.
    pub fn new() -> (r: Mempool)
        ensures
            r@.config == (MempoolConfig {
                max_tx_bytes: crate::mempool::DEFAULT_MAX_TX_BYTES,
                min_gas_price: crate::mempool::DEFAULT_MIN_GAS_PRICE,
                max_txs: crate::mempool::DEFAULT_MEMPOOL_MAX_TXS,
                max_bytes: crate::mempool::DEFAULT_MEMPOOL_MAX_BYTES,
            }),
            r@.confirmed.len() == 0,
            r@.entries.len() == 0,
            r@.wf(),
    {
        Mempool::with_config(MempoolConfig::default())
    }

    fn entry_ready(&self, i: usize) -> (r: bool)
        requires
            i < self@.entries.len(),
        ensures
            r == is_ready(self@.entries, self@.confirmed, i as int),
    {
        let from = self.entries[i].pending.tx.from.as_str();
        let c = match nonce_lookup(&self.confirmed, from) {
            Some(c) => c,
            None => 0,
        };
        let run = run_length(&self.entries, from, c);
        let k = self.entries[i].pending.tx.nonce;
        c <= k && k < c + run
    }

    /// The number of ready transactions.
    pub fn len(&self) -> (r: usize)
        ensures
            r == self@.ready_len(),
    {
        let mut count: usize = 0;
        let mut i: usize = 0;
        while i < self.entries.len()
            invariant
                i <= self.entries@.len(),
                count <= i,
                count == count_ready(self@.entries, self@.confirmed, i as int),
            decreases self.entries@.len() - i,
        {
            if self.entry_ready(i) {
                count = count + 1;
            }
            i = i + 1;
        }
        count
    }

    /// Whether no transaction is ready.
    pub fn is_empty(&self) -> (r: bool)
        ensures
            r == (self@.ready_len() == 0),
    {
        self.len() == 0
    }

    /// The gas price of the lowest-priority ready transaction, or the
    /// configured minimum where none is ready.
    pub fn current_min_gas_price(&self) -> (r: u64)
        ensures
            r == if worst_ready(self@.entries, self@.confirmed, self@.entries.len() as int) < 0 {
                self@.config.min_gas_price
            } else {
                self@.entries[worst_ready(self@.entries, self@.confirmed, self@.entries.len() as int)].pending.tx.gas_price
            },
    {
        let mut best: Option<usize> = None;
        let mut i: usize = 0;
        while i < self.entries.len()
            invariant
                i <= self.entries@.len(),
                match best {
                    Some(b) => b == worst_ready(self@.entries, self@.confirmed, i as int) && b < i,
                    None => worst_ready(self@.entries, self@.confirmed, i as int) == -1,
                },
            decreases self.entries@.len() - i,
        {
            if self.entry_ready(i) {
                match best {
                    None => best = Some(i),
                    Some(b) => {
                        let kb = self.entries[b].pending.priority_key();
                        let ki = self.entries[i].pending.priority_key();
                        if kb.precedes(&ki) {
                            best = Some(i);
                        }
                    },
                }
            }
            i = i + 1;
        }
        match best {
            Some(b) => self.entries[b].pending.tx.gas_price,
            None => self.config.min_gas_price,
        }
    }

    fn initial_heads(&self) -> (r: Vec<usize>)
        ensures
            r@ == heads(self@.entries, self@.confirmed, self@.confirmed.len() as int),
    {
        let mut r: Vec<usize> = Vec::new();
        let mut k: usize = 0;
        while k < self.confirmed.len()
            invariant
                k <= self.confirmed@.len(),
                r@ == heads(self@.entries, self@.confirmed, k as int),
            decreases self.confirmed@.len() - k,
        {
            let c = self.confirmed[k].1;
            match find_entry(&self.entries, self.confirmed[k].0.as_str(), c) {
                Some(i) => {
                    if c < u64::MAX {
                        r.push(i);
                    }
                },
                None => {},
            }
            k = k + 1;
        }
        r
    }

    fn best_candidate(&self, cands: &Vec<usize>) -> (r: usize)
        requires
            cands@.len() > 0,
            in_range(self@.entries, cands@),
        ensures
            r == best_pos(self@.entries, cands@, cands@.len() as int),
            r < cands@.len(),
    {
        let mut b: usize = 0;
        let mut j: usize = 1;
        while j < cands.len()
            invariant
                1 <= j <= cands@.len(),
                b < j,
                b == best_pos(self@.entries, cands@, j as int),
                in_range(self@.entries, cands@),
            decreases cands@.len() - j,
        {
            let kj = self.entries[cands[j]].pending.priority_key();
            let kb = self.entries[cands[b]].pending.priority_key();
            if kj.precedes(&kb) {
                b = j;
            }
            j = j + 1;
        }
        b
    }

    /// Up to `n` ready transactions for a block: each sender's transactions
    /// in nonce order, senders interleaved by fee priority among their next
    /// ready transactions.
    pub fn take_snapshot(&self, n: usize) -> (r: Vec<Transaction>)
        ensures
            ({
                let order = snapshot_order(
                    self@.entries,
                    heads(self@.entries, self@.confirmed, self@.confirmed.len() as int),
                    n as nat,
                );
                &&& r@.len() == order.len()
                &&& forall|k: int|
                    0 <= k < r@.len() ==> tx_view(#[trigger] r@[k]) == tx_view(self@.entries[order[k] as int].pending.tx)
            }),
    {
        let ghost es = self@.entries;
        let mut cands = self.initial_heads();
        proof {
            lemma_heads_range(es, self@.confirmed, self@.confirmed.len() as int);
        }
        let ghost full = snapshot_order(es, cands@, n as nat);
        let ghost mut taken: Seq<usize> = Seq::empty();
        let mut result: Vec<Transaction> = Vec::new();
        while result.len() < n && cands.len() > 0
            invariant
                es == self@.entries,
                result@.len() == taken.len(),
                result@.len() <= n,
                in_range(es, cands@),
                full == taken + snapshot_order(es, cands@, (n - result@.len()) as nat),
                forall|k: int| 0 <= k < result@.len() ==> #[trigger] taken[k] < es.len(),
                forall|k: int| 0 <= k < result@.len() ==> tx_view(#[trigger] result@[k]) == tx_view(es[taken[k] as int].pending.tx),
            decreases n - result@.len(),
        {
            let p = self.best_candidate(&cands);
            let ghost c0 = cands@;
            let ghost m = (n - result@.len()) as nat;
            let i = cands.remove(p);
            let tx = copy_tx(&self.entries[i].pending.tx);
            result.push(tx);
            let k = self.entries[i].pending.tx.nonce;
            if k < u64::MAX - 1 {
                match find_entry(&self.entries, self.entries[i].pending.tx.from.as_str(), k + 1) {
                    Some(j) => cands.push(j),
                    None => {},
                }
            }
            proof {
                assert(snapshot_order(es, c0, m) == seq![i] + snapshot_order(es, cands@, (m - 1) as nat));
                assert(taken + (seq![i] + snapshot_order(es, cands@, (m - 1) as nat)) =~= taken.push(i)
                    + snapshot_order(es, cands@, (m - 1) as nat));
                taken = taken.push(i);
                assert forall|j: int| 0 <= j < cands@.len() implies #[trigger] cands@[j] < es.len() by {
                    if j < c0.len() - 1 {
                        assert(cands@[j] == c0.remove(p as int)[j]);
                    }
                }
            }
        }
        proof {
            assert(snapshot_order(es, cands@, (n - result@.len()) as nat) =~= Seq::<usize>::empty());
            assert(full =~= taken);
        }
        result
    }
}

/// Whether `h` is one of the listed hashes.
pub open spec fn listed(hs: Seq<String>, h: Seq<char>) -> bool {
    exists|j: int| 0 <= j < hs.len() && (#[trigger] hs[j])@ == h
}

/// The entries whose hashes are not listed, in order.
pub open spec fn unlisted(es: Seq<Queued>, hs: Seq<String>) -> Seq<Queued>
    decreases es.len(),
{
    if es.len() == 0 {
        es
    } else {
        let r = unlisted(es.drop_last(), hs);
        if listed(hs, hash(es.last())) {
            r
        } else {
            r.push(es.last())
        }
    }
}

fn is_listed(hs: &Vec<String>, h: &str) -> (r: bool)
    ensures
        r == listed(hs@, h@),
{
    let mut j: usize = 0;
    while j < hs.len()
        invariant
            j <= hs@.len(),
            forall|k: int| 0 <= k < j ==> (#[trigger] hs@[k])@ != h@,
        decreases hs@.len() - j,
    {
        if str_eq(hs[j].as_str(), h) {
            return true;
        }
        j = j + 1;
    }
    false
}

/// The confirmed nonces of exactly the senders of `es`, as recorded.
fn retain_confirmed(es: &Vec<Queued>, old: &Vec<(String, u64)>) -> (r: Vec<(String, u64)>)
    ensures
        unique_keys(r@),
        forall|s: Seq<char>| #[trigger]
            nonce_of(r@, s, 0) == if has_sender(es@, s) && nonce_of(old@, s, 0) is Some {
                nonce_of(old@, s, 0)
            } else {
                None
            },
{
    let mut r: Vec<(String, u64)> = Vec::new();
    let mut i: usize = 0;
    proof {
        assert forall|s: Seq<char>| !has_sender(es@.take(0), s) by {}
    }
    while i < es.len()
        invariant
            i <= es@.len(),
            unique_keys(r@),
            forall|s: Seq<char>| #[trigger]
                nonce_of(r@, s, 0) == if has_sender(es@.take(i as int), s) && nonce_of(old@, s, 0) is Some {
                    nonce_of(old@, s, 0)
                } else {
                    None
                },
        decreases es@.len() - i,
    {
        proof {
            lemma_has_sender_step(es@, i as int);
        }
        let s = &es[i].pending.tx.from;
        if nonce_lookup(&r, s.as_str()).is_none() {
            match nonce_lookup(old, s.as_str()) {
                Some(v) => {
                    let ghost r0 = r@;
                    let ghost sv = s@;
                    proof {
                        lemma_lookup(r0, sv, 0);
                    }
                    r.push((s.clone(), v));
                    proof {
                        assert forall|a: int, b: int| 0 <= a < b < r@.len() implies (#[trigger] r@[a]).0@ != (#[trigger] r@[b]).0@ by {
                            if b < r0.len() {
                                assert(r0[a].0@ != r0[b].0@);
                            } else {
                                assert(r@[a] == r0[a]);
                            }
                        }
                        assert forall|t: Seq<char>| #[trigger]
                            nonce_of(r@, t, 0) == if has_sender(es@.take(i + 1), t) && nonce_of(old@, t, 0) is Some {
                                nonce_of(old@, t, 0)
                            } else {
                                None
                            } by {
                            lemma_lookup(r@, t, 0);
                            lemma_lookup(r0, t, 0);
                            if t == sv {
                                assert(r@[r0.len() as int].0@ == t);
                            } else if exists|j: int| 0 <= j < r0.len() && (#[trigger] r0[j]).0@ == t {
                                let j = choose|j: int| 0 <= j < r0.len() && (#[trigger] r0[j]).0@ == t;
                                assert(r@[j] == r0[j]);
                            } else {
                                assert forall|j: int| 0 <= j < r@.len() implies (#[trigger] r@[j]).0@ != t by {
                                    if j < r0.len() {
                                        assert(r@[j] == r0[j]);
                                    }
                                }
                            }
                        }
                    }
                },
                None => {},
            }
        }
        i = i + 1;
    }
    proof {
        assert(es@.take(es@.len() as int) =~= es@);
    }
    r
}

impl Mempool {
    /// Remove the listed transactions, keeping their senders' confirmed
    /// nonces where they still queue others. Removal never claims that a
    /// nonce was consumed.
    fn remove_listed(&mut self, hashes: &Vec<String>)
        requires
            old(self)@.wf(),
        ensures
            final(self)@.config == old(self)@.config,
            final(self)@.confirmed == old(self)@.confirmed,
            final(self)@.entries == unlisted(old(self)@.entries, hashes@),
            distinct_hashes(final(self)@.entries),
            distinct_slots(final(self)@.entries),
            sized(final(self)@.entries),
            bytes_sum(final(self)@.entries, final(self)@.entries.len() as int) <= usize::MAX,
            covered(old(self)@.confirmed, final(self)@.entries),
    {
        let ghost orig = self.entries@;
        let ghost mut k: int = 0;
        let mut i: usize = 0;
        proof {
            assert(orig.take(0) =~= Seq::<Queued>::empty());
            assert(unlisted(orig.take(0), hashes@) =~= Seq::<Queued>::empty());
            assert(self.entries@ =~= unlisted(orig.take(0), hashes@) + orig.skip(0));
            assert forall|j: int| 0 <= j < self.entries@.len() implies exists|m: int| 0 <= m < orig.len() && #[trigger] self.entries@[j] == orig[m] by {
                assert(self.entries@[j] == orig[j]);
            }
        }
        while i < self.entries.len()
            invariant
                0 <= k <= orig.len(),
                orig == old(self)@.entries,
                self.config == old(self)@.config,
                self.confirmed@ == old(self)@.confirmed,
                self.entries@ == unlisted(orig.take(k), hashes@) + orig.skip(k),
                i == unlisted(orig.take(k), hashes@).len(),
                distinct_hashes(self.entries@),
                distinct_slots(self.entries@),
                sized(self.entries@),
                bytes_sum(self.entries@, self.entries@.len() as int) <= bytes_sum(orig, orig.len() as int),
                bytes_sum(orig, orig.len() as int) <= usize::MAX,
                forall|j: int| 0 <= j < self.entries@.len() ==> exists|m: int| 0 <= m < orig.len() && #[trigger] self.entries@[j] == orig[m],
            decreases self.entries@.len() - i,
        {
            let ghost before = self.entries@;
            proof {
                assert(before[i as int] == orig[k]);
                assert(orig.take(k + 1).drop_last() =~= orig.take(k));
                assert(orig.take(k + 1).last() == orig[k]);
            }
            if is_listed(hashes, self.entries[i].pending.tx.hash.as_str()) {
                proof {
                    lemma_remove_keeps(before, i as int);
                }
                self.entries.remove(i);
                proof {
                    assert(self.entries@ =~= unlisted(orig.take(k + 1), hashes@) + orig.skip(k + 1));
                    assert forall|j: int| 0 <= j < self.entries@.len() implies exists|m: int| 0 <= m < orig.len() && #[trigger] self.entries@[j] == orig[m] by {
                        let m1 = choose|m1: int| 0 <= m1 < before.len() && #[trigger] self.entries@[j] == before[m1];
                        let m = choose|m: int| 0 <= m < orig.len() && #[trigger] before[m1] == orig[m];
                    }
                }
            } else {
                i = i + 1;
                proof {
                    assert(self.entries@ =~= unlisted(orig.take(k + 1), hashes@) + orig.skip(k + 1));
                }
            }
            proof {
                k = k + 1;
            }
        }
        proof {
            assert(k == orig.len()) by {
                if k < orig.len() {
                    assert(self.entries@.len() == i + orig.len() - k);
                }
            }
            assert(orig.take(k) =~= orig);
            assert(self.entries@ =~= unlisted(orig, hashes@));
            assert forall|j: int| 0 <= j < self.entries@.len() implies #[trigger] nonce_of(old(self)@.confirmed, sender(self.entries@[j]), 0) is Some by {
                let m = choose|m: int| 0 <= m < orig.len() && #[trigger] self.entries@[j] == orig[m];
                assert(nonce_of(old(self)@.confirmed, sender(orig[m]), 0) is Some);
            }
        }
    }

    /// Remove queue entries without claiming that execution consumed their
    /// nonces; a sender that keeps no entry loses its confirmed nonce.
    pub fn drop_hashes(&mut self, hashes: &Vec<String>)
        requires
            old(self)@.wf(),
        ensures
            final(self)@.wf(),
            final(self)@.config == old(self)@.config,
            final(self)@.entries == unlisted(old(self)@.entries, hashes@),
            forall|s: Seq<char>| #[trigger]
                nonce_of(final(self)@.confirmed, s, 0) == if has_sender(final(self)@.entries, s) {
                    nonce_of(old(self)@.confirmed, s, 0)
                } else {
                    None
                },
    {
        let ghost c0 = self@.confirmed;
        self.remove_listed(hashes);
        let confirmed = retain_confirmed(&self.entries, &self.confirmed);
        self.confirmed = confirmed;
        proof {
            let es = self@.entries;
            assert forall|s: Seq<char>| #[trigger]
                nonce_of(self@.confirmed, s, 0) == if has_sender(es, s) {
                    nonce_of(c0, s, 0)
                } else {
                    None
                } by {
                if has_sender(es, s) {
                    let j = choose|j: int| 0 <= j < es.len() && #[trigger] sender(es[j]) == s;
                    assert(nonce_of(c0, sender(es[j]), 0) is Some);
                }
            }
            assert forall|j: int| 0 <= j < es.len() implies #[trigger] nonce_of(self@.confirmed, sender(es[j]), 0) is Some by {
                assert(has_sender(es, sender(es[j])));
                assert(nonce_of(c0, sender(es[j]), 0) is Some);
            }
        }
    }

    /// After a block commits: remove the listed transactions and take every
    /// remaining sender's confirmed nonce from committed state. Refused
    /// while the store holds qualified account state.
    pub fn reconcile(&mut self, ledger: &LedgerView, removed: &Vec<String>) -> (r: Result<(), RejectionReason>)
        requires
            old(self)@.wf(),
        ensures
            final(self)@.wf(),
            ledger.qualified_state ==> r is Err && refusal(r->Err_0) == Refusal::PolicyViolation(qualified_state_text())
                && final(self)@ == old(self)@,
            !ledger.qualified_state ==> {
                &&& r is Ok
                &&& final(self)@.config == old(self)@.config
                &&& final(self)@.entries == unlisted(old(self)@.entries, removed@)
                &&& forall|s: Seq<char>| #[trigger]
                    nonce_of(final(self)@.confirmed, s, 0) == if has_sender(final(self)@.entries, s) {
                        Some(ledger_nonce(*ledger, s))
                    } else {
                        None
                    }
            },
    {
        if ledger.qualified_state {
            return Err(RejectionReason::PolicyViolation(String::from_str(
                "Qualified account state requires consensus admission; legacy and direct mutation routes are disabled",
            )));
        }
        self.remove_listed(removed);
        let confirmed = confirm_all(&self.entries, &None, 0, ledger);
        self.confirmed = confirmed;
        proof {
            let es = self@.entries;
            assert forall|j: int| 0 <= j < es.len() implies #[trigger] nonce_of(self@.confirmed, sender(es[j]), 0) is Some by {
                assert(has_sender(es, sender(es[j])));
            }
        }
        Ok(())
    }
}

/// The queue never exceeds its limits: whatever it held before, after a
/// successful admission it holds at most `max_txs` transactions and
/// `max_bytes` bytes.
pub proof fn law_admission_respects_capacity(
    q: QueueView,
    q2: QueueView,
    l: LedgerView,
    tx: Transaction,
    req: Seq<(String, u128)>,
    signature_valid: bool,
    skip_signature: bool,
    policy_error: Option<String>,
)
    requires
        q.wf(),
        admission(q, l, tx, req, signature_valid, skip_signature, policy_error) is Ok,
        admitted(q, q2, l, tx, req, admission(q, l, tx, req, signature_valid, skip_signature, policy_error)->Ok_0),
    ensures
        q2.entries.len() <= q.config.max_txs,
        q2.bytes() <= q.config.max_bytes,
{
    let expected = admission(q, l, tx, req, signature_valid, skip_signature, policy_error)->Ok_0;
    let size = tx_size_spec(tx);
    let kept = q2.entries.drop_last();
    assert(q2.entries =~= kept.push(q2.entries.last()));
    lemma_bytes_push(kept, q2.entries.last());
    if !takes_fast_path(q, l, tx, expected) {
        lemma_evict(q.entries, q.config, size);
    }
}

/// Dropping transactions removes exactly the listed ones: a hash stays
/// retained if and only if it was retained and is not listed.
pub proof fn law_drop_removes_exactly_listed(es: Seq<Queued>, hs: Seq<String>, h: Seq<char>)
    ensures
        has_hash(unlisted(es, hs), h) == (has_hash(es, h) && !listed(hs, h)),
    decreases es.len(),
{
    if es.len() > 0 {
        let init = es.drop_last();
        law_drop_removes_exactly_listed(init, hs, h);
        let r = unlisted(init, hs);
        if has_hash(es, h) && !listed(hs, h) {
            let j = choose|j: int| 0 <= j < es.len() && #[trigger] hash(es[j]) == h;
            if j < es.len() - 1 {
                assert(hash(init[j]) == h);
            }
            if !listed(hs, hash(es.last())) {
                assert(unlisted(es, hs)[r.len() as int] == es.last());
                if j < es.len() - 1 {
                    let k = choose|k: int| 0 <= k < r.len() && #[trigger] hash(r[k]) == h;
                    assert(unlisted(es, hs)[k] == r[k]);
                }
            }
        }
        if has_hash(unlisted(es, hs), h) {
            let k = choose|k: int| 0 <= k < unlisted(es, hs).len() && #[trigger] hash(unlisted(es, hs)[k]) == h;
            if k < r.len() {
                assert(unlisted(es, hs)[k] == r[k]);
                let j = choose|j: int| 0 <= j < init.len() && #[trigger] hash(init[j]) == h;
                assert(es[j] == init[j]);
            } else {
                assert(hash(es[es.len() - 1]) == h);
            }
        }
    }
}

/// A snapshot never holds more than the requested number of transactions.
pub proof fn law_snapshot_is_bounded(es: Seq<Queued>, cands: Seq<usize>, n: nat)
    ensures
        snapshot_order(es, cands, n).len() <= n,
    decreases n,
{
    if n > 0 && cands.len() > 0 {
        let p = best_pos(es, cands, cands.len() as int);
        let i = cands[p];
        let rest = cands.remove(p);
        let next = match successor(es, i as int) {
            Some(j) => rest.push(j as usize),
            None => rest,
        };
        law_snapshot_is_bounded(es, next, (n - 1) as nat);
    }
}

proof fn lemma_key_irreflexive(a: (u64, u64, Seq<char>))
    ensures
        !crate::mempool::key_before(a, a),
{
    crate::mempool::lemma_before_asymmetric(vstd::utf8::encode_utf8(a.2), vstd::utf8::encode_utf8(a.2));
}

proof fn lemma_key_transitive(a: (u64, u64, Seq<char>), b: (u64, u64, Seq<char>), c: (u64, u64, Seq<char>))
    requires
        crate::mempool::key_before(a, b),
        crate::mempool::key_before(b, c),
    ensures
        crate::mempool::key_before(a, c),
{
    if a.0 == b.0 && b.0 == c.0 && a.1 == b.1 && b.1 == c.1 {
        crate::mempool::lemma_before_transitive(vstd::utf8::encode_utf8(a.2), vstd::utf8::encode_utf8(b.2), vstd::utf8::encode_utf8(c.2));
    }
}

proof fn lemma_best_pos_least(es: Seq<Queued>, cands: Seq<usize>, n: int)
    requires
        1 <= n <= cands.len(),
    ensures
        forall|j: int|
            0 <= j < n ==> !crate::mempool::key_before(
                key(es[cands[j] as int]),
                #[trigger] key(es[cands[best_pos(es, cands, n)] as int]),
            ) || j == best_pos(es, cands, n),
    decreases n,
{
    lemma_best_pos_range(es, cands, n);
    let b = best_pos(es, cands, n);
    assert forall|j: int| 0 <= j < n implies !crate::mempool::key_before(
        key(es[cands[j] as int]),
        key(es[cands[b] as int]),
    ) by {
        lemma_key_irreflexive(key(es[cands[b] as int]));
        if n > 1 {
            lemma_best_pos_least(es, cands, n - 1);
            let b1 = best_pos(es, cands, n - 1);
            lemma_best_pos_range(es, cands, n - 1);
            if j < n - 1 && j != b1 {
                assert(!crate::mempool::key_before(key(es[cands[j] as int]), key(es[cands[b1] as int])));
            }
            if b == n - 1 && j < n - 1 {
                if crate::mempool::key_before(key(es[cands[j] as int]), key(es[cands[b] as int])) {
                    lemma_key_transitive(key(es[cands[j] as int]), key(es[cands[b] as int]), key(es[cands[b1] as int]));
                    if j == b1 {
                        lemma_key_irreflexive(key(es[cands[b1] as int]));
                    }
                }
            }
        }
    }
}

/// A snapshot takes the best candidate first: its first transaction is one
/// of the candidates, and no candidate comes before it in priority order
/// (higher gas price, then lower nonce, then lower hash).
pub proof fn law_snapshot_takes_the_best_candidate_first(es: Seq<Queued>, cands: Seq<usize>, n: nat)
    requires
        n > 0,
        cands.len() > 0,
    ensures
        ({
            let first = snapshot_order(es, cands, n)[0];
            &&& cands.contains(first)
            &&& forall|j: int|
                0 <= j < cands.len() ==> !crate::mempool::key_before(
                    key(es[cands[j] as int]),
                    #[trigger] key(es[first as int]),
                )
        }),
{
    let p = best_pos(es, cands, cands.len() as int);
    lemma_best_pos_range(es, cands, cands.len() as int);
    lemma_best_pos_least(es, cands, cands.len() as int);
    lemma_key_irreflexive(key(es[cands[p] as int]));
    assert(snapshot_order(es, cands, n)[0] == cands[p]);
    assert(cands[p] == cands[p]);
}

/// Whether no two candidates belong to the same sender.
pub open spec fn distinct_senders(es: Seq<Queued>, cands: Seq<usize>) -> bool {
    forall|a: int, b: int|
        0 <= a < b < cands.len() ==> sender(es[#[trigger] cands[a] as int]) != sender(es[#[trigger] cands[b] as int])
}

/// A snapshot takes only from its candidates' senders, never below them:
/// every transaction it takes belongs to the sender of some candidate, at
/// that candidate's nonce or after it.
pub proof fn law_snapshot_takes_from_candidate_senders(es: Seq<Queued>, cands: Seq<usize>, n: nat)
    requires
        es.len() <= usize::MAX,
    ensures
        forall|x: int|
            0 <= x < snapshot_order(es, cands, n).len() ==> exists|c: int|
                0 <= c < cands.len() && sender(es[cands[c] as int]) == sender(
                    es[#[trigger] snapshot_order(es, cands, n)[x] as int],
                ) && nonce(es[cands[c] as int]) <= nonce(es[snapshot_order(es, cands, n)[x] as int]),
    decreases n,
{
    if n > 0 && cands.len() > 0 {
        let p = best_pos(es, cands, cands.len() as int);
        lemma_best_pos_range(es, cands, cands.len() as int);
        let i = cands[p];
        let rest = cands.remove(p);
        let next = match successor(es, i as int) {
            Some(j) => rest.push(j as usize),
            None => rest,
        };
        law_snapshot_takes_from_candidate_senders(es, next, (n - 1) as nat);
        let order = snapshot_order(es, cands, n);
        let tail = snapshot_order(es, next, (n - 1) as nat);
        assert(order == seq![i] + tail);
        if let Some(j) = successor(es, i as int) {
            lemma_entry_index_range(es, sender(es[i as int]), nonce(es[i as int]) + 1, 0);
        }
        assert forall|x: int| 0 <= x < order.len() implies exists|c: int|
            0 <= c < cands.len() && sender(es[cands[c] as int]) == sender(es[#[trigger] order[x] as int]) && nonce(
                es[cands[c] as int],
            ) <= nonce(es[order[x] as int]) by {
            if x == 0 {
                assert(order[0] == cands[p]);
                assert(sender(es[cands[p] as int]) == sender(es[order[x] as int]) && nonce(es[cands[p] as int]) <= nonce(
                    es[order[x] as int],
                ));
            } else {
                assert(order[x] == tail[x - 1]);
                let c = choose|c: int|
                    0 <= c < next.len() && sender(es[next[c] as int]) == sender(es[#[trigger] tail[x - 1] as int])
                        && nonce(es[next[c] as int]) <= nonce(es[tail[x - 1] as int]);
                if c < rest.len() {
                    let ic = if c < p { c } else { c + 1 };
                    assert(rest[c] == cands[ic]);
                    assert(sender(es[cands[ic] as int]) == sender(es[order[x] as int]) && nonce(es[cands[ic] as int])
                        <= nonce(es[order[x] as int]));
                } else {
                    assert(next[c] == successor(es, i as int)->0 as usize);
                    assert(sender(es[cands[p] as int]) == sender(es[order[x] as int]) && nonce(es[cands[p] as int])
                        <= nonce(es[order[x] as int]));
                }
            }
        }
    }
}

/// A snapshot never takes a transaction twice: when the candidates belong
/// to distinct senders, every position of the snapshot names a different
/// queued entry, and with it a different hash in a well-formed queue.
pub proof fn law_snapshot_never_repeats(es: Seq<Queued>, cands: Seq<usize>, n: nat)
    requires
        es.len() <= usize::MAX,
        distinct_senders(es, cands),
    ensures
        forall|a: int, b: int|
            0 <= a < b < snapshot_order(es, cands, n).len() ==> #[trigger] snapshot_order(es, cands, n)[a]
                != #[trigger] snapshot_order(es, cands, n)[b],
    decreases n,
{
    if n > 0 && cands.len() > 0 {
        let p = best_pos(es, cands, cands.len() as int);
        lemma_best_pos_range(es, cands, cands.len() as int);
        let i = cands[p];
        let rest = cands.remove(p);
        let next = match successor(es, i as int) {
            Some(j) => rest.push(j as usize),
            None => rest,
        };
        if let Some(j) = successor(es, i as int) {
            lemma_entry_index_range(es, sender(es[i as int]), nonce(es[i as int]) + 1, 0);
        }
        assert(distinct_senders(es, next)) by {
            assert forall|a: int, b: int| 0 <= a < b < next.len() implies sender(es[#[trigger] next[a] as int])
                != sender(es[#[trigger] next[b] as int]) by {
                let ia = if a < p { a } else { a + 1 };
                assert(rest[a] == cands[ia]);
                if b < rest.len() {
                    let ib = if b < p { b } else { b + 1 };
                    assert(rest[b] == cands[ib]);
                } else {
                    if ia < p {
                        assert(sender(es[cands[ia] as int]) != sender(es[cands[p] as int]));
                    } else {
                        assert(sender(es[cands[p] as int]) != sender(es[cands[ia] as int]));
                    }
                }
            }
        }
        law_snapshot_never_repeats(es, next, (n - 1) as nat);
        law_snapshot_takes_from_candidate_senders(es, next, (n - 1) as nat);
        let order = snapshot_order(es, cands, n);
        let tail = snapshot_order(es, next, (n - 1) as nat);
        assert(order == seq![i] + tail);
        assert forall|a: int, b: int| 0 <= a < b < order.len() implies #[trigger] order[a] != #[trigger] order[b] by {
            if a == 0 {
                assert(order[b] == tail[b - 1]);
                if tail[b - 1] == i {
                    let c = choose|c: int|
                        0 <= c < next.len() && sender(es[next[c] as int]) == sender(es[#[trigger] tail[b - 1] as int])
                            && nonce(es[next[c] as int]) <= nonce(es[tail[b - 1] as int]);
                    if c < rest.len() {
                        let ic = if c < p { c } else { c + 1 };
                        assert(rest[c] == cands[ic]);
                        if ic < p {
                            assert(sender(es[cands[ic] as int]) != sender(es[cands[p] as int]));
                        } else {
                            assert(sender(es[cands[p] as int]) != sender(es[cands[ic] as int]));
                        }
                    }
                }
            } else {
                assert(order[a] == tail[a - 1] && order[b] == tail[b - 1]);
            }
        }
    }
}

/// The mempool admits only an admissible transaction: never over qualified
/// state; a signed admission only with a signature, a public key and a
/// passing check; never under a signature policy refusal or with a
/// duplicate hash; within both size limits; at or above the minimum gas
/// price; at or after the ledger's nonce for its sender and below the last
/// nonce; and never at a sender and nonce already queued.
pub proof fn law_admission_admits_only_admissible(
    q: QueueView,
    l: LedgerView,
    tx: Transaction,
    req: Seq<(String, u128)>,
    signature_valid: bool,
    skip_signature: bool,
    policy_error: Option<String>,
)
    ensures
        admission(q, l, tx, req, signature_valid, skip_signature, policy_error) is Ok ==> {
            &&& !l.qualified_state
            &&& skip_signature || (tx.signature is Some && tx.public_key is Some && signature_valid)
            &&& policy_error is None
            &&& !has_hash(q.entries, tx.hash@)
            &&& tx_size_spec(tx) <= q.config.max_tx_bytes && tx_size_spec(tx) <= q.config.max_bytes
            &&& tx.gas_price >= q.config.min_gas_price
            &&& tx.nonce >= ledger_nonce(l, tx.from@) && tx.nonce < u64::MAX
            &&& !has_entry(q.entries, tx.from@, tx.nonce as int)
            &&& q.config.max_txs > 0
        },
{
}

} // verus!
