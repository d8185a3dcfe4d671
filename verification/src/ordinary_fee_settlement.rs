//! Ordinary fee accounting plans and their retained receipt history.
//!
//! A plan meters the signed transaction's validation reads, acceptance and
//! each action's work against the shared block, charges
//! `max(used, minimum) * price` from the signed cap and advances the nonce.
//! It writes nothing: the caller commits its checkpoints with the block.
//! The checks that need the signature proof, the recovery book's authority
//! rules or the reservation calculator arrive as their results.
use vstd::prelude::*;
use crate::block_meter::{digest_eq, BlockMeterView, FeeProfile, SharedBlockMeter};
use crate::ordinary_meter::{LogicalRecord, MeterError};
use crate::text::str_eq;
use vstd::string::StrSliceExecFns;
use crate::transaction_meter::{
    accept_inner, action_inner, new_outcome, read_inner, settle_error, signature_inner, summarizes, write_inner,
    MeterSummary, MeteredBody, OrdinaryMeter, OrdinaryMeterView,
};

verus! {

/// The most receipts, and the most profiles, a history retains.
pub const MAX_RECEIPTS: usize = 65536usize;

#[derive(Clone, Copy, Debug, PartialEq, Eq)]
pub enum PlanError {
    Rejected(&'static str),
    Internal(&'static str),
    BlockCapacity,
    IntegrationUnavailable(&'static str),
}

/// The plan error for a meter error.
pub open spec fn plan_error(e: MeterError) -> PlanError {
    match e {
        MeterError::PreAcceptanceRejected(s) => PlanError::Rejected(s),
        MeterError::BlockCapacity => PlanError::BlockCapacity,
        MeterError::AcceptedOutOfGas => PlanError::Internal("accepted transaction exhausted gas"),
        MeterError::Internal(s) => PlanError::Internal(s),
    }
}

impl PlanError {
    pub fn from_meter(e: MeterError) -> (r: PlanError)
        ensures
            r == plan_error(e),
    {
        match e {
            MeterError::PreAcceptanceRejected(s) => PlanError::Rejected(s),
            MeterError::BlockCapacity => PlanError::BlockCapacity,
            MeterError::AcceptedOutOfGas => PlanError::Internal("accepted transaction exhausted gas"),
            MeterError::Internal(s) => PlanError::Internal(s),
        }
    }
}

/// A module rule that makes an accepted action fail while its fee is kept.
#[derive(Clone, Copy, Debug, PartialEq, Eq, Structural)]
pub enum ApplicationRule {
    InactivityDelay,
    RecipientCapacity,
}

impl ApplicationRule {
    pub fn class(self) -> (r: &'static str)
        ensures
            r == rule_class(self),
    {
        match self {
            ApplicationRule::InactivityDelay => "ACTION_STATE_PRECONDITION",
            ApplicationRule::RecipientCapacity => "ACTION_CAPACITY",
        }
    }

    pub fn code(self) -> (r: &'static str)
        ensures
            r == rule_code(self),
    {
        match self {
            ApplicationRule::InactivityDelay => "DMS_INACTIVITY_DELAY",
            ApplicationRule::RecipientCapacity => "SEND_RECIPIENT_CAPACITY",
        }
    }
}

pub open spec fn rule_class(r: ApplicationRule) -> &'static str {
    match r {
        ApplicationRule::InactivityDelay => "ACTION_STATE_PRECONDITION",
        ApplicationRule::RecipientCapacity => "ACTION_CAPACITY",
    }
}

pub open spec fn rule_code(r: ApplicationRule) -> &'static str {
    match r {
        ApplicationRule::InactivityDelay => "DMS_INACTIVITY_DELAY",
        ApplicationRule::RecipientCapacity => "SEND_RECIPIENT_CAPACITY",
    }
}

#[derive(Clone, Copy, Debug, PartialEq, Eq, Structural)]
pub enum Outcome {
    Success,
    ApplicationFailure,
    OutOfGas,
}

#[derive(Clone, Copy, Debug, PartialEq, Eq, Structural)]
pub enum ActionDisposition {
    KeepProposed,
    DiscardAll,
}

/// The receipt of one accepted ordinary transaction.
#[derive(Clone, Copy, Debug, PartialEq, Eq)]
pub struct FeeReceipt {
    pub version: u16,
    pub transaction_id: [u8; 32],
    pub envelope_hash: [u8; 32],
    pub actor: [u8; 32],
    pub block_height: u64,
    pub block_index: u32,
    pub contract_version: u16,
    pub profile_version: u64,
    pub profile_digest: [u8; 32],
    pub outcome: Outcome,
    pub failing_action: Option<u16>,
    pub failure_phase: Option<&'static str>,
    pub rule_class: Option<&'static str>,
    pub rule_code: Option<&'static str>,
    pub gas_limit: u64,
    pub gas_used: u64,
    pub metadata_gas: u64,
    pub reserved_cap: u128,
    pub charge: u128,
    pub released_cap: u128,
    pub nonce_before: u64,
    pub nonce_after: u64,
}

/// A fee profile retained under its digest.
#[derive(Clone, Copy, Debug, PartialEq, Eq)]
pub struct RetainedProfile {
    /// The digest the history files the profile under.
    pub key: [u8; 32],
    /// The digest computed from the profile itself.
    pub digest: [u8; 32],
    pub contract_version: u16,
    pub version: u64,
    pub receipt_metadata_cost: u64,
    pub minimum_gas: u64,
    pub gas_price: u64,
}

/// A retained receipt, filed under a transaction ID, with the result of
/// its profile's request bounds for the receipt's gas limit and cap.
#[derive(Clone, Copy, Debug, PartialEq, Eq)]
pub struct RetainedReceipt {
    pub key: [u8; 32],
    pub receipt: FeeReceipt,
    pub request_valid: bool,
}

/// Retained evidence: receipts by transaction ID and the profiles they used.
#[derive(Clone, Debug, PartialEq, Eq)]
pub struct FeeHistory {
    pub receipts: Vec<RetainedReceipt>,
    pub profiles: Vec<RetainedProfile>,
}

/// A history's receipts and profiles.
pub struct HistoryModel {
    pub receipts: Seq<RetainedReceipt>,
    pub profiles: Seq<RetainedProfile>,
}

impl View for FeeHistory {
    type V = HistoryModel;

    open spec fn view(&self) -> HistoryModel {
        HistoryModel { receipts: self.receipts@, profiles: self.profiles@ }
    }
}

/// The first profile filed under `d` at or after `i`, or -1.
pub open spec fn profile_index(p: Seq<RetainedProfile>, d: Seq<u8>, i: int) -> int
    decreases p.len() - i,
{
    if i < 0 || i >= p.len() {
        -1
    } else if p[i].key@ == d {
        i
    } else {
        profile_index(p, d, i + 1)
    }
}

/// Whether an optional text is present and reads `t`.
pub open spec fn reads_as(o: Option<&'static str>, t: Seq<char>) -> bool {
    o matches Some(s) && s@ == t
}

pub open spec fn is_failure_code(c: Option<&'static str>) -> bool {
    reads_as(c, "UNBOND_ALREADY_RELEASED"@) || reads_as(c, "UNBOND_PENALTIES_PENDING"@) || reads_as(c, "UNBOND_NOT_MATURE"@)
        || reads_as(c, "BOND_TARGET_UNAVAILABLE"@) || reads_as(c, "UNBOND_PRINCIPAL_UNAVAILABLE"@)
        || reads_as(c, "VALIDATOR_ALREADY_REGISTERED"@) || reads_as(c, "VALIDATOR_TARGET_UNAVAILABLE"@)
        || reads_as(c, "VALIDATOR_EXPOSURE_BARRED"@) || reads_as(c, "CONSENSUS_KEY_ALREADY_USED"@)
        || reads_as(c, "BOND_PRINCIPAL_ZERO"@) || reads_as(c, "VALIDATOR_SELF_BOND_MINIMUM"@)
        || reads_as(c, "EXIT_PENDING_ADDITIONS"@) || reads_as(c, "VALIDATOR_SET_EMPTY"@)
}

/// Whether a receipt's failure fields fit its outcome.
pub open spec fn classified(r: FeeReceipt) -> bool {
    match r.outcome {
        Outcome::Success => r.failing_action is None && r.rule_code is None && r.failure_phase is None
            && r.rule_class is None,
        Outcome::OutOfGas => r.gas_used == r.gas_limit && reads_as(r.rule_code, "OUT_OF_GAS"@) && r.rule_class is None
            && r.failing_action is Some && (reads_as(r.failure_phase, "action"@) || reads_as(r.failure_phase, "ACTION"@)
            || reads_as(r.failure_phase, "WRITE"@)),
        Outcome::ApplicationFailure => r.failing_action is Some && (reads_as(r.failure_phase, "action"@)
            || reads_as(r.failure_phase, "APPLICATION"@)) && ((reads_as(r.rule_class, "ACTION_STATE_PRECONDITION"@)
            && reads_as(r.rule_code, "DMS_INACTIVITY_DELAY"@)) || (reads_as(r.rule_class, "ACTION_CAPACITY"@)
            && (reads_as(r.rule_code, "SEND_RECIPIENT_CAPACITY"@) || reads_as(r.rule_code, "LIFECYCLE_CAPACITY"@)))
            || (reads_as(r.rule_class, "ACTION_STATE_PRECONDITION"@) && is_failure_code(r.rule_code))),
    }
}

/// The charge a profile sets for measured work.
pub open spec fn fee_for(minimum_gas: u64, gas_price: u64, used: u64) -> int {
    (if used > minimum_gas { used } else { minimum_gas }) * gas_price
}

/// Whether two earlier receipts share a block position or an actor nonce.
pub open spec fn clashes(earlier: Seq<RetainedReceipt>, r: FeeReceipt) -> bool {
    exists|j: int| 0 <= j < earlier.len() && ((#[trigger] earlier[j]).receipt.block_height == r.block_height
        && earlier[j].receipt.block_index == r.block_index || (earlier[j].receipt.actor@ == r.actor@
        && earlier[j].receipt.nonce_before == r.nonce_before) || earlier[j].key@ == r.transaction_id@)
}

/// The check of the receipt at `i`, given those before it.
pub open spec fn receipt_check(h: HistoryModel, i: int) -> Result<(), PlanError> {
    let e = h.receipts[i];
    let r = e.receipt;
    let pi = profile_index(h.profiles, r.profile_digest@, 0);
    if pi < 0 {
        Err(PlanError::Internal("Retained receipt requires missing profile"))
    } else {
        let p = h.profiles[pi];
        if r.version != 1 || e.key@ != r.transaction_id@ || r.contract_version != p.contract_version
            || r.profile_version != p.version || r.block_height == 0 || r.gas_used > r.gas_limit
            || r.metadata_gas != p.receipt_metadata_cost || r.nonce_before + 1 != r.nonce_after
            || clashes(h.receipts.take(i), r) {
            Err(PlanError::Internal("Retained ordinary receipt invariant failed"))
        } else if !e.request_valid {
            Err(PlanError::Internal("Retained receipt exceeds its profile's request bounds"))
        } else if r.charge != fee_for(p.minimum_gas, p.gas_price, r.gas_used) || r.reserved_cap < r.charge
            || r.reserved_cap - r.charge != r.released_cap {
            Err(PlanError::Internal("Retained ordinary fee conservation failed"))
        } else if !classified(r) {
            Err(PlanError::Internal("Retained ordinary failure classification invalid"))
        } else {
            Ok(())
        }
    }
}

/// The first failing receipt check at or after `i`.
pub open spec fn receipts_check(h: HistoryModel, i: int) -> Result<(), PlanError>
    decreases h.receipts.len() - i,
{
    if i < 0 || i >= h.receipts.len() {
        Ok(())
    } else {
        match receipt_check(h, i) {
            Err(e) => Err(e),
            Ok(()) => receipts_check(h, i + 1),
        }
    }
}

/// What validating a retained history gives.
pub open spec fn history_check(h: HistoryModel) -> Result<(), PlanError> {
    if h.receipts.len() > MAX_RECEIPTS || h.profiles.len() > MAX_RECEIPTS {
        Err(PlanError::Internal("Retained fee history exceeds component bound"))
    } else if exists|i: int| 0 <= i < h.profiles.len() && (#[trigger] h.profiles[i]).key@ != h.profiles[i].digest@ {
        Err(PlanError::Internal("Retained fee profile digest mismatch"))
    } else {
        receipts_check(h, 0)
    }
}

fn reads(o: Option<&'static str>, t: &'static str) -> (r: bool)
    ensures
        r == reads_as(o, t@),
{
    match o {
        Some(s) => str_eq(s, t),
        None => false,
    }
}

fn is_listed_failure(c: Option<&'static str>) -> (r: bool)
    ensures
        r == is_failure_code(c),
{
    reads(c, "UNBOND_ALREADY_RELEASED") || reads(c, "UNBOND_PENALTIES_PENDING") || reads(c, "UNBOND_NOT_MATURE")
        || reads(c, "BOND_TARGET_UNAVAILABLE") || reads(c, "UNBOND_PRINCIPAL_UNAVAILABLE")
        || reads(c, "VALIDATOR_ALREADY_REGISTERED") || reads(c, "VALIDATOR_TARGET_UNAVAILABLE")
        || reads(c, "VALIDATOR_EXPOSURE_BARRED") || reads(c, "CONSENSUS_KEY_ALREADY_USED")
        || reads(c, "BOND_PRINCIPAL_ZERO") || reads(c, "VALIDATOR_SELF_BOND_MINIMUM")
        || reads(c, "EXIT_PENDING_ADDITIONS") || reads(c, "VALIDATOR_SET_EMPTY")
}

fn is_classified(r: &FeeReceipt) -> (b: bool)
    ensures
        b == classified(*r),
{
    match r.outcome {
        Outcome::Success => r.failing_action.is_none() && r.rule_code.is_none() && r.failure_phase.is_none()
            && r.rule_class.is_none(),
        Outcome::OutOfGas => r.gas_used == r.gas_limit && reads(r.rule_code, "OUT_OF_GAS") && r.rule_class.is_none()
            && r.failing_action.is_some() && (reads(r.failure_phase, "action") || reads(r.failure_phase, "ACTION")
            || reads(r.failure_phase, "WRITE")),
        Outcome::ApplicationFailure => r.failing_action.is_some() && (reads(r.failure_phase, "action") || reads(
            r.failure_phase,
            "APPLICATION",
        )) && ((reads(r.rule_class, "ACTION_STATE_PRECONDITION") && reads(r.rule_code, "DMS_INACTIVITY_DELAY"))
            || (reads(r.rule_class, "ACTION_CAPACITY") && (reads(r.rule_code, "SEND_RECIPIENT_CAPACITY") || reads(
            r.rule_code,
            "LIFECYCLE_CAPACITY",
        ))) || (reads(r.rule_class, "ACTION_STATE_PRECONDITION") && is_listed_failure(r.rule_code))),
    }
}

proof fn lemma_receipts_check_step(h: HistoryModel, i: int)
    requires
        0 <= i < h.receipts.len(),
        receipt_check(h, i) is Ok,
    ensures
        receipts_check(h, i) == receipts_check(h, i + 1),
{
}

impl FeeHistory {
    fn find_profile(&self, d: &[u8; 32]) -> (r: Option<usize>)
        ensures
            match r {
                Some(i) => profile_index(self.profiles@, d@, 0) == i && i < self.profiles@.len(),
                None => profile_index(self.profiles@, d@, 0) == -1,
            },
    {
        let mut i: usize = 0;
        while i < self.profiles.len()
            invariant
                i <= self.profiles@.len(),
                profile_index(self.profiles@, d@, 0) == profile_index(self.profiles@, d@, i as int),
            decreases self.profiles@.len() - i,
        {
            if digest_eq(&self.profiles[i].key, d) {
                return Some(i);
            }
            i = i + 1;
        }
        None
    }

    fn clash(&self, i: usize, r: &FeeReceipt) -> (b: bool)
        requires
            i <= self.receipts@.len(),
        ensures
            b == clashes(self.receipts@.take(i as int), *r),
    {
        let ghost earlier = self.receipts@.take(i as int);
        let mut j: usize = 0;
        while j < i
            invariant
                j <= i <= self.receipts@.len(),
                earlier == self.receipts@.take(i as int),
                forall|k: int| 0 <= k < j ==> !((#[trigger] earlier[k]).receipt.block_height == r.block_height
                    && earlier[k].receipt.block_index == r.block_index || (earlier[k].receipt.actor@ == r.actor@
                    && earlier[k].receipt.nonce_before == r.nonce_before) || earlier[k].key@ == r.transaction_id@),
            decreases i - j,
        {
            let e = &self.receipts[j];
            assert(earlier[j as int] == self.receipts@[j as int]);
            if (e.receipt.block_height == r.block_height && e.receipt.block_index == r.block_index) || (digest_eq(
                &e.receipt.actor,
                &r.actor,
            ) && e.receipt.nonce_before == r.nonce_before) || digest_eq(&e.key, &r.transaction_id) {
                return true;
            }
            j = j + 1;
        }
        false
    }

    fn check_receipt(&self, i: usize) -> (res: Result<(), PlanError>)
        requires
            i < self.receipts@.len(),
        ensures
            res == receipt_check(self@, i as int),
    {
        let e = &self.receipts[i];
        let r = &e.receipt;
        let pi = match self.find_profile(&r.profile_digest) {
            Some(pi) => pi,
            None => return Err(PlanError::Internal("Retained receipt requires missing profile")),
        };
        let p = &self.profiles[pi];
        let nonce_ok = match r.nonce_before.checked_add(1) {
            Some(n) => n == r.nonce_after,
            None => false,
        };
        if r.version != 1 || !digest_eq(&e.key, &r.transaction_id) || r.contract_version != p.contract_version
            || r.profile_version != p.version || r.block_height == 0 || r.gas_used > r.gas_limit
            || r.metadata_gas != p.receipt_metadata_cost || !nonce_ok || self.clash(i, r) {
            return Err(PlanError::Internal("Retained ordinary receipt invariant failed"));
        }
        if !e.request_valid {
            return Err(PlanError::Internal("Retained receipt exceeds its profile's request bounds"));
        }
        let billed: u64 = if r.gas_used > p.minimum_gas { r.gas_used } else { p.minimum_gas };
        assert(billed * p.gas_price <= u64::MAX * u64::MAX) by (nonlinear_arith)
            requires billed <= u64::MAX, p.gas_price <= u64::MAX;
        let fee = (billed as u128) * (p.gas_price as u128);
        if r.charge != fee || r.reserved_cap < r.charge || r.reserved_cap - r.charge != r.released_cap {
            return Err(PlanError::Internal("Retained ordinary fee conservation failed"));
        }
        if !is_classified(r) {
            return Err(PlanError::Internal("Retained ordinary failure classification invalid"));
        }
        Ok(())
    }

    /// Check the retained history: bounds, profile digests, and for every
    /// receipt its profile, identity, unique block position and actor nonce,
    /// fee conservation and failure classification.
    pub fn validate(&self) -> (r: Result<(), PlanError>)
        ensures
            r == history_check(self@),
    {
        if self.receipts.len() > MAX_RECEIPTS || self.profiles.len() > MAX_RECEIPTS {
            return Err(PlanError::Internal("Retained fee history exceeds component bound"));
        }
        let mut i: usize = 0;
        while i < self.profiles.len()
            invariant
                i <= self.profiles@.len(),
                self.receipts@.len() <= MAX_RECEIPTS,
                self.profiles@.len() <= MAX_RECEIPTS,
                forall|k: int| 0 <= k < i ==> (#[trigger] self.profiles@[k]).key@ == self.profiles@[k].digest@,
            decreases self.profiles@.len() - i,
        {
            if !digest_eq(&self.profiles[i].key, &self.profiles[i].digest) {
                return Err(PlanError::Internal("Retained fee profile digest mismatch"));
            }
            i = i + 1;
        }
        let mut k: usize = 0;
        while k < self.receipts.len()
            invariant
                k <= self.receipts@.len(),
                self.receipts@.len() <= MAX_RECEIPTS,
                self.profiles@.len() <= MAX_RECEIPTS,
                forall|q: int| 0 <= q < self.profiles@.len() ==> (#[trigger] self.profiles@[q]).key@ == self.profiles@[q].digest@,
                receipts_check(self@, 0) == receipts_check(self@, k as int),
            decreases self.receipts@.len() - k,
        {
            match self.check_receipt(k) {
                Ok(()) => {},
                Err(e) => return Err(e),
            }
            proof { lemma_receipts_check_step(self@, k as int); }
            k = k + 1;
        }
        Ok(())
    }
}

/// The work an action's adapter reports and how the action ended.
#[derive(Clone, Copy, Debug, PartialEq, Eq, Structural)]
pub enum AccountingEnd {
    Applied,
    ApplicationFailure(ApplicationRule),
    InternalFault,
}

pub struct ActionWork {
    pub reads: Vec<LogicalRecord>,
    pub writes: Vec<LogicalRecord>,
    pub end: AccountingEnd,
}

pub struct AccountingTrace {
    pub validation_reads: Vec<LogicalRecord>,
    pub actions: Vec<ActionWork>,
}

/// The signed ordinary transaction, with the results of the checks that
/// its signature proof and fee profile make.
pub struct OrdinaryRequest {
    pub body: MeteredBody,
    pub transaction_id: [u8; 32],
    pub envelope_hash: [u8; 32],
    pub actor: [u8; 32],
    pub spending_nonce: u64,
    pub maximum_fee: u128,
    /// Whether the body binds this profile's contract version, version,
    /// digest and fee denomination.
    pub binding_matches: bool,
}

/// A recovery account of the staged book.
#[derive(Clone, Copy, Debug, PartialEq, Eq)]
pub struct BookAccount {
    pub id: [u8; 32],
    pub spending_nonce: u64,
}

/// The authority assessment before acceptance: how many registry
/// requirements remain, the claims that mature at a height, and the nonce
/// after the transaction.
pub struct Preacceptance {
    pub registry_requirements: usize,
    pub deferred_claims: Vec<(u16, u64)>,
    pub nonce_after: u64,
}

/// The staged state a plan reads: the book, the financial snapshot's sizes
/// and the payer's uDRT, and the results of the checks made on them.
pub struct PlanningState {
    pub book_height: u64,
    pub accounts: Vec<BookAccount>,
    pub mirrors_valid: bool,
    pub grants_valid: bool,
    pub balance_entries: usize,
    pub eligible_entries: usize,
    pub nonce_entries: usize,
    pub eligible_consistent: bool,
    pub payer_balance: u128,
    pub payer_eligible: u128,
    pub withheld_udrt: u128,
    /// Whether the reservation request equals the one derived from the
    /// authenticated intent and the current debits.
    pub request_matches: bool,
    /// Each asset's required total against its eligible liquidity, or the
    /// reservation calculator's refusal.
    pub requirements: Result<Vec<(u128, u128)>, &'static str>,
    pub preacceptance: Result<Preacceptance, &'static str>,
    /// The digest of the staged snapshot before this transaction.
    pub snapshot_digest: [u8; 32],
}

/// Fixed terms of the ordinary fee contract and profile.
#[derive(Clone, Copy, Debug, PartialEq, Eq)]
pub struct OrdinaryTerms {
    pub contract_version: u16,
    pub profile_version: u64,
    pub profile_digest: [u8; 32],
    pub activation_height: u64,
    pub max_actions: u16,
}

/// The payer's uDRT and eligible uDRT after the fee, custody, and the
/// actor's nonce.
#[derive(Clone, Copy, Debug, PartialEq, Eq)]
pub struct FeeCheckpoint {
    pub balance: u128,
    pub eligible: u128,
    pub withheld_udrt: u128,
    pub nonce: u64,
}

pub struct FeePlan {
    pub receipt: FeeReceipt,
    pub disposition: ActionDisposition,
    pub checkpoint: FeeCheckpoint,
    /// Whether the grants prepared by the transaction take effect.
    pub grants_advance: bool,
    pub history: FeeHistory,
    pub predecessor_digest: [u8; 32],
}

impl FeePlan {
    /// A plan describes accounting only; it never permits execution.
    pub fn is_executable(&self) -> (r: bool)
        ensures
            !r,
    {
        false
    }
}

pub enum PlanningResult {
    Prepared(FeePlan),
    ExactRetainedRetry(FeeReceipt),
}

pub open spec fn account_index(a: Seq<BookAccount>, id: Seq<u8>, i: int) -> int
    decreases a.len() - i,
{
    if i < 0 || i >= a.len() {
        -1
    } else if a[i].id@ == id {
        i
    } else {
        account_index(a, id, i + 1)
    }
}

/// The first retained receipt filed under `id` at or after `i`, or -1.
pub open spec fn receipt_index(r: Seq<RetainedReceipt>, id: Seq<u8>, i: int) -> int
    decreases r.len() - i,
{
    if i < 0 || i >= r.len() {
        -1
    } else if r[i].key@ == id {
        i
    } else {
        receipt_index(r, id, i + 1)
    }
}

/// The first retained receipt at or after `i` whose actor is missing from
/// the book or that is ahead of the staged height or its actor's nonce.
pub open spec fn behind_from(h: FeeHistory, st: PlanningState, i: int) -> Result<(), PlanError>
    decreases h.receipts@.len() - i,
{
    if i < 0 || i >= h.receipts@.len() {
        Ok(())
    } else {
        let r = h.receipts@[i].receipt;
        let ai = account_index(st.accounts@, r.actor@, 0);
        if ai < 0 {
            Err(PlanError::Internal("Retained receipt actor is absent from current state"))
        } else if r.block_height > st.book_height || r.nonce_after > st.accounts@[ai].spending_nonce {
            Err(PlanError::Internal("Retained receipt is ahead of the staged authority checkpoint"))
        } else {
            behind_from(h, st, i + 1)
        }
    }
}

/// Checks before the meter opens: the profile, the history, the retained
/// receipts against the book, and the transaction's identity. `Ok(Some(r))`
/// is an exact retry of a retained receipt.
pub open spec fn opening_spec(
    profile: FeeProfile,
    req: OrdinaryRequest,
    st: PlanningState,
    history: FeeHistory,
    height: u64,
    index: u32,
) -> Result<Option<FeeReceipt>, PlanError> {
    let ri = receipt_index(history.receipts@, req.transaction_id@, 0);
    if !profile.valid {
        Err(PlanError::Internal("Ordinary fee profile is invalid"))
    } else {
        match (history_check(history@), behind_from(history, st, 0)) {
            (Err(e), _) => Err(e),
            (Ok(()), Err(e)) => Err(e),
            (Ok(()), Ok(())) => if !st.mirrors_valid {
                Err(PlanError::Internal("Native nonce mirrors differ from the recovery book"))
            } else if !st.grants_valid {
                Err(PlanError::Internal("Discretionary grants differ from the recovery book"))
            } else if ri >= 0 {
                let prior = history.receipts@[ri].receipt;
                if prior.block_height == height && prior.block_index == index && prior.envelope_hash@
                    == req.envelope_hash@ {
                    Ok(Some(prior))
                } else {
                    Err(PlanError::Rejected("Ordinary transaction ID already accepted"))
                }
            } else if history.receipts@.len() == MAX_RECEIPTS {
                Err(PlanError::Rejected("Ordinary receipt retention capacity exhausted"))
            } else {
                Ok(None)
            },
        }
    }
}

/// Checks after the signature is metered, before acceptance.
pub open spec fn binding_spec(
    req: OrdinaryRequest,
    st: PlanningState,
    terms: OrdinaryTerms,
    height: u64,
    trace: AccountingTrace,
) -> Result<(), PlanError> {
    if !req.binding_matches || height < terms.activation_height {
        Err(PlanError::Rejected("Ordinary fee profile binding or activation mismatch"))
    } else {
        match st.preacceptance {
            Err(m) => Err(PlanError::Rejected(m)),
            Ok(pre) => if pre.registry_requirements != 0 {
                Err(PlanError::IntegrationUnavailable(
                    "Ordinary module ownership, entitlement or validator-proof adapter is not integrated",
                ))
            } else if st.balance_entries > st.accounts@.len() * 2 || st.eligible_entries > st.accounts@.len() * 2
                || st.nonce_entries > st.accounts@.len() {
                Err(PlanError::Internal("Financial snapshot exceeds registered account capacity"))
            } else if !st.eligible_consistent {
                Err(PlanError::Internal("Eligible liquidity differs from native financial snapshot"))
            } else if !st.request_matches {
                Err(PlanError::Rejected("Reservation inputs differ from authenticated ordinary intent or current debits"))
            } else {
                match st.requirements {
                    Err(m) => Err(PlanError::Rejected(m)),
                    Ok(reqs) => if exists|i: int| 0 <= i < reqs@.len() && (#[trigger] reqs@[i]).0 > reqs@[i].1 {
                        Err(PlanError::Rejected("Current eligible liquidity cannot fund signed cap and action debits"))
                    } else if trace.actions@.len() != req.body.actions@.len() {
                        Err(PlanError::Internal("Accounting trace must cover the complete signed action list"))
                    } else if trace.validation_reads@.len() > terms.max_actions * 16 || exists|i: int|
                        0 <= i < trace.actions@.len() && ((#[trigger] trace.actions@[i]).reads@.len() > 16
                            || trace.actions@[i].writes@.len() > 16) {
                        Err(PlanError::Internal("Accounting trace exceeds component record bound"))
                    } else {
                        Ok(())
                    },
                }
            },
        }
    }
}

/// One metered step with its settlement.
pub open spec fn step(r: (OrdinaryMeterView, Result<(), MeterError>)) -> (OrdinaryMeterView, Result<(), MeterError>) {
    settle_error(r.0, r.1)
}

pub open spec fn reads_spec(m: OrdinaryMeterView, recs: Seq<LogicalRecord>) -> (OrdinaryMeterView, Result<(), MeterError>)
    decreases recs.len(),
{
    if recs.len() == 0 {
        (m, Ok(()))
    } else {
        let (m1, r) = reads_spec(m, recs.drop_last());
        match r {
            Err(e) => (m1, Err(e)),
            Ok(()) => step(read_inner(m1, recs.last().key_view(), recs.last().bytes_view().len() as u64)),
        }
    }
}

pub open spec fn writes_spec(m: OrdinaryMeterView, recs: Seq<LogicalRecord>) -> (OrdinaryMeterView, Result<(), MeterError>)
    decreases recs.len(),
{
    if recs.len() == 0 {
        (m, Ok(()))
    } else {
        let (m1, r) = writes_spec(m, recs.drop_last());
        match r {
            Err(e) => (m1, Err(e)),
            Ok(()) => step(write_inner(m1, recs.last().key_view(), recs.last().bytes_view().len() as u64)),
        }
    }
}

/// Whether a claim at `index` has not matured at `height`.
pub open spec fn claim_immature(deferred: Seq<(u16, u64)>, index: u16, height: u64) -> bool {
    exists|j: int| 0 <= j < deferred.len() && (#[trigger] deferred[j]).0 == index && height < deferred[j].1
}

/// How the action loop stands: still running, or ended with an outcome at
/// a failing action.
#[derive(Clone, Copy, Debug, PartialEq, Eq, Structural)]
pub enum Drive {
    Running,
    Ended(Outcome, u16, Option<ApplicationRule>),
}

/// One action: its count, its maturity, its reads and writes, and its end.
pub open spec fn action_spec(
    m: OrdinaryMeterView,
    i: u16,
    work: ActionWork,
    deferred: Seq<(u16, u64)>,
    height: u64,
) -> (OrdinaryMeterView, Result<Drive, PlanError>) {
    let (m1, r1) = step(action_inner(m, i));
    match r1 {
        Err(MeterError::AcceptedOutOfGas) => (m1, Ok(Drive::Ended(Outcome::OutOfGas, i, None))),
        Err(e) => (m1, Err(plan_error(e))),
        Ok(()) => if claim_immature(deferred, i, height) {
            (m1, Ok(Drive::Ended(Outcome::ApplicationFailure, i, Some(ApplicationRule::InactivityDelay))))
        } else {
            let (m2, r2) = reads_spec(m1, work.reads@);
            match r2 {
                Err(MeterError::AcceptedOutOfGas) => (m2, Ok(Drive::Ended(Outcome::OutOfGas, i, None))),
                Err(e) => (m2, Err(plan_error(e))),
                Ok(()) => {
                    let (m3, r3) = writes_spec(m2, work.writes@);
                    match r3 {
                        Err(MeterError::AcceptedOutOfGas) => (m3, Ok(Drive::Ended(Outcome::OutOfGas, i, None))),
                        Err(e) => (m3, Err(plan_error(e))),
                        Ok(()) => match work.end {
                            AccountingEnd::Applied => (m3, Ok(Drive::Running)),
                            AccountingEnd::InternalFault => (
                                m3,
                                Err(PlanError::Internal("Unclassified application failure stops block preparation")),
                            ),
                            AccountingEnd::ApplicationFailure(_) => (
                                m3,
                                Err(PlanError::IntegrationUnavailable(
                                    "No reviewed module capacity predicate is integrated; caller classification cannot authorize a paid failure",
                                )),
                            ),
                        },
                    }
                },
            }
        },
    }
}

/// The actions in order, stopping at the first that ends the work.
pub open spec fn actions_spec(
    m: OrdinaryMeterView,
    actions: Seq<ActionWork>,
    deferred: Seq<(u16, u64)>,
    height: u64,
) -> (OrdinaryMeterView, Result<Drive, PlanError>)
    decreases actions.len(),
{
    if actions.len() == 0 {
        (m, Ok(Drive::Running))
    } else {
        let (m1, r) = actions_spec(m, actions.drop_last(), deferred, height);
        match r {
            Ok(Drive::Running) => action_spec(m1, (actions.len() - 1) as u16, actions.last(), deferred, height),
            other => (m1, other),
        }
    }
}

/// The accounting outcome, failing action and rule of a finished loop.
pub open spec fn drive_outcome(d: Drive) -> (Outcome, Option<u16>, Option<ApplicationRule>) {
    match d {
        Drive::Running => (Outcome::Success, None, None),
        Drive::Ended(o, i, rule) => (o, Some(i), rule),
    }
}

pub struct PlanModel {
    pub receipt: FeeReceipt,
    pub disposition: ActionDisposition,
    pub checkpoint: FeeCheckpoint,
    pub grants_advance: bool,
    pub history: HistoryModel,
    pub predecessor_digest: [u8; 32],
}

pub open spec fn current_profile(profile: FeeProfile, terms: OrdinaryTerms) -> RetainedProfile {
    RetainedProfile {
        key: terms.profile_digest,
        digest: terms.profile_digest,
        contract_version: terms.contract_version,
        version: terms.profile_version,
        receipt_metadata_cost: profile.receipt_metadata_cost,
        minimum_gas: profile.minimum_gas,
        gas_price: profile.gas_price,
    }
}

/// The profiles after retaining the current one under its digest.
pub open spec fn retain_profile(p: Seq<RetainedProfile>, cur: RetainedProfile) -> Seq<RetainedProfile> {
    let pi = profile_index(p, cur.key@, 0);
    if pi >= 0 {
        p.update(pi, cur)
    } else {
        p.push(cur)
    }
}

/// The receipt and checkpoints that settled work gives.
pub open spec fn settlement_spec(
    profile: FeeProfile,
    req: OrdinaryRequest,
    st: PlanningState,
    nonce_after: u64,
    terms: OrdinaryTerms,
    history: FeeHistory,
    height: u64,
    index: u32,
    drive: Drive,
    m: OrdinaryMeterView,
) -> Result<PlanModel, PlanError> {
    let (outcome, failing, rule) = drive_outcome(drive);
    let charge = fee_for(profile.minimum_gas, profile.gas_price, m.usage.gas);
    let accepted = m.phase == crate::transaction_meter::Phase::Accepted || m.phase == crate::transaction_meter::Phase::Exhausted;
    let exhausted = m.phase == crate::transaction_meter::Phase::Exhausted;
    if !accepted || (outcome == Outcome::OutOfGas) != exhausted || (outcome == Outcome::Success && m.next_action
        != m.actions.len() as u16) {
        Err(PlanError::Internal("Meter outcome differs from accounting outcome"))
    } else if charge > u128::MAX {
        Err(PlanError::Internal("Ordinary fee multiplication overflow"))
    } else if req.maximum_fee < charge {
        Err(PlanError::Internal("Ordinary charge exceeds signed reservation"))
    } else if st.payer_balance < charge {
        Err(PlanError::Internal("Accepted fee reservation invariant failed"))
    } else if st.payer_eligible < charge {
        Err(PlanError::Internal("Accepted fee eligibility invariant failed"))
    } else if st.withheld_udrt + charge > u128::MAX {
        Err(PlanError::Internal("Withheld ordinary fee custody overflow"))
    } else if account_index(st.accounts@, req.actor@, 0) < 0 {
        Err(PlanError::Internal("Accepted actor disappeared"))
    } else {
        let keep = outcome == Outcome::Success;
        let receipt = FeeReceipt {
            version: 1,
            transaction_id: req.transaction_id,
            envelope_hash: req.envelope_hash,
            actor: req.actor,
            block_height: height,
            block_index: index,
            contract_version: terms.contract_version,
            profile_version: terms.profile_version,
            profile_digest: terms.profile_digest,
            outcome,
            failing_action: failing,
            failure_phase: if keep { None } else { Some("action") },
            rule_class: match rule {
                Some(r) => Some(rule_class(r)),
                None => None,
            },
            rule_code: if outcome == Outcome::OutOfGas {
                Some("OUT_OF_GAS")
            } else {
                match rule {
                    Some(r) => Some(rule_code(r)),
                    None => None,
                }
            },
            gas_limit: req.body.gas_limit,
            gas_used: m.usage.gas,
            metadata_gas: m.metadata,
            reserved_cap: req.maximum_fee,
            charge: charge as u128,
            released_cap: (req.maximum_fee - charge) as u128,
            nonce_before: req.spending_nonce,
            nonce_after,
        };
        let retained = HistoryModel {
            receipts: history.receipts@.push(RetainedReceipt { key: req.transaction_id, receipt, request_valid: req.body.request_valid }),
            profiles: retain_profile(history.profiles@, current_profile(profile, terms)),
        };
        match history_check(retained) {
            Err(e) => Err(e),
            Ok(()) => Ok(PlanModel {
            receipt,
            disposition: if keep {
                ActionDisposition::KeepProposed
            } else {
                ActionDisposition::DiscardAll
            },
            checkpoint: FeeCheckpoint {
                balance: (st.payer_balance - charge) as u128,
                eligible: (st.payer_eligible - charge) as u128,
                withheld_udrt: (st.withheld_udrt + charge) as u128,
                nonce: nonce_after,
            },
            grants_advance: keep,
            history: retained,
            predecessor_digest: st.snapshot_digest,
        }),
        }
    }
}

pub enum PlanningModel {
    Prepared(PlanModel),
    ExactRetainedRetry(FeeReceipt),
}

/// What planning an ordinary transaction's fee gives: the block meter
/// afterwards, and the plan, an exact retry, or the error that ended it.
pub open spec fn ordinary_plan_spec(
    profile: FeeProfile,
    req: OrdinaryRequest,
    st: PlanningState,
    history: FeeHistory,
    terms: OrdinaryTerms,
    height: u64,
    index: u32,
    trace: AccountingTrace,
    block: BlockMeterView,
) -> (BlockMeterView, Result<PlanningModel, PlanError>) {
    match opening_spec(profile, req, st, history, height, index) {
        Err(e) => (block, Err(e)),
        Ok(Some(prior)) => (block, Ok(PlanningModel::ExactRetainedRetry(prior))),
        Ok(None) => match new_outcome(profile, req.body, block) {
            Err((e, b)) => (b, Err(plan_error(e))),
            Ok(m0) => {
                let (m1, r1) = step(signature_inner(m0));
                match r1 {
                    Err(e) => (m1.block, Err(plan_error(e))),
                    Ok(()) => match binding_spec(req, st, terms, height, trace) {
                        Err(e) => (m1.block, Err(e)),
                        Ok(()) => {
                            let pre = st.preacceptance.unwrap();
                            let (m2, r2) = reads_spec(m1, trace.validation_reads@);
                            match r2 {
                                Err(e) => (m2.block, Err(plan_error(e))),
                                Ok(()) => {
                                    let (m3, r3) = step(accept_inner(m2));
                                    match r3 {
                                        Err(e) => (m3.block, Err(plan_error(e))),
                                        Ok(()) => {
                                            let (m4, r4) = actions_spec(m3, trace.actions@, pre.deferred_claims@, height);
                                            match r4 {
                                                Err(e) => (m4.block, Err(e)),
                                                Ok(drive) => if m4.phase == crate::transaction_meter::Phase::Fault
                                                    || m4.block.faulted {
                                                    (m4.block, Err(PlanError::Internal("cannot settle faulted meter")))
                                                } else {
                                                    match settlement_spec(
                                                        profile,
                                                        req,
                                                        st,
                                                        pre.nonce_after,
                                                        terms,
                                                        history,
                                                        height,
                                                        index,
                                                        drive,
                                                        m4,
                                                    ) {
                                                        Err(e) => (m4.block, Err(e)),
                                                        Ok(p) => (m4.block, Ok(PlanningModel::Prepared(p))),
                                                    }
                                                },
                                            }
                                        },
                                    }
                                },
                            }
                        },
                    },
                }
            },
        },
    }
}

pub open spec fn plan_view(p: FeePlan) -> PlanModel {
    PlanModel {
        receipt: p.receipt,
        disposition: p.disposition,
        checkpoint: p.checkpoint,
        grants_advance: p.grants_advance,
        history: p.history@,
        predecessor_digest: p.predecessor_digest,
    }
}

pub open spec fn planning_view(r: PlanningResult) -> PlanningModel {
    match r {
        PlanningResult::Prepared(p) => PlanningModel::Prepared(plan_view(p)),
        PlanningResult::ExactRetainedRetry(r) => PlanningModel::ExactRetainedRetry(r),
    }
}

proof fn lemma_behind_step(h: FeeHistory, st: PlanningState, i: int)
    requires
        0 <= i < h.receipts@.len(),
        account_index(st.accounts@, h.receipts@[i].receipt.actor@, 0) >= 0,
        !(h.receipts@[i].receipt.block_height > st.book_height || h.receipts@[i].receipt.nonce_after
            > st.accounts@[account_index(st.accounts@, h.receipts@[i].receipt.actor@, 0)].spending_nonce),
    ensures
        behind_from(h, st, i) == behind_from(h, st, i + 1),
{
}

fn find_book_account(accounts: &Vec<BookAccount>, id: &[u8; 32]) -> (r: Option<usize>)
    ensures
        match r {
            Some(i) => account_index(accounts@, id@, 0) == i && i < accounts@.len(),
            None => account_index(accounts@, id@, 0) == -1,
        },
{
    let mut i: usize = 0;
    while i < accounts.len()
        invariant
            i <= accounts@.len(),
            account_index(accounts@, id@, 0) == account_index(accounts@, id@, i as int),
        decreases accounts@.len() - i,
    {
        if digest_eq(&accounts[i].id, id) {
            return Some(i);
        }
        i = i + 1;
    }
    None
}

fn find_receipt(history: &FeeHistory, id: &[u8; 32]) -> (r: Option<usize>)
    ensures
        match r {
            Some(i) => receipt_index(history.receipts@, id@, 0) == i && i < history.receipts@.len(),
            None => receipt_index(history.receipts@, id@, 0) == -1,
        },
{
    let mut i: usize = 0;
    while i < history.receipts.len()
        invariant
            i <= history.receipts@.len(),
            receipt_index(history.receipts@, id@, 0) == receipt_index(history.receipts@, id@, i as int),
        decreases history.receipts@.len() - i,
    {
        if digest_eq(&history.receipts[i].key, id) {
            return Some(i);
        }
        i = i + 1;
    }
    None
}

fn check_behind(history: &FeeHistory, st: &PlanningState) -> (r: Result<(), PlanError>)
    ensures
        r == behind_from(*history, *st, 0),
{
    let mut i: usize = 0;
    while i < history.receipts.len()
        invariant
            i <= history.receipts@.len(),
            behind_from(*history, *st, 0) == behind_from(*history, *st, i as int),
        decreases history.receipts@.len() - i,
    {
        let r = &history.receipts[i].receipt;
        let ai = match find_book_account(&st.accounts, &r.actor) {
            Some(ai) => ai,
            None => return Err(PlanError::Internal("Retained receipt actor is absent from current state")),
        };
        if r.block_height > st.book_height || r.nonce_after > st.accounts[ai].spending_nonce {
            return Err(PlanError::Internal("Retained receipt is ahead of the staged authority checkpoint"));
        }
        proof { lemma_behind_step(*history, *st, i as int); }
        i = i + 1;
    }
    Ok(())
}

fn opening(
    profile: &FeeProfile,
    req: &OrdinaryRequest,
    st: &PlanningState,
    history: &FeeHistory,
    height: u64,
    index: u32,
) -> (r: Result<Option<FeeReceipt>, PlanError>)
    ensures
        r == opening_spec(*profile, *req, *st, *history, height, index),
{
    if !profile.valid {
        return Err(PlanError::Internal("Ordinary fee profile is invalid"));
    }
    match history.validate() {
        Ok(()) => {},
        Err(e) => return Err(e),
    }
    match check_behind(history, st) {
        Ok(()) => {},
        Err(e) => return Err(e),
    }
    if !st.mirrors_valid {
        return Err(PlanError::Internal("Native nonce mirrors differ from the recovery book"));
    }
    if !st.grants_valid {
        return Err(PlanError::Internal("Discretionary grants differ from the recovery book"));
    }
    match find_receipt(history, &req.transaction_id) {
        Some(ri) => {
            let prior = history.receipts[ri].receipt;
            if prior.block_height == height && prior.block_index == index && digest_eq(
                &prior.envelope_hash,
                &req.envelope_hash,
            ) {
                return Ok(Some(prior));
            }
            return Err(PlanError::Rejected("Ordinary transaction ID already accepted"));
        },
        None => {},
    }
    if history.receipts.len() == MAX_RECEIPTS {
        return Err(PlanError::Rejected("Ordinary receipt retention capacity exhausted"));
    }
    Ok(None)
}

#[verifier::loop_isolation(false)]
fn binding(
    req: &OrdinaryRequest,
    st: &PlanningState,
    terms: &OrdinaryTerms,
    height: u64,
    trace: &AccountingTrace,
) -> (r: Result<(), PlanError>)
    ensures
        r == binding_spec(*req, *st, *terms, height, *trace),
{
    if !req.binding_matches || height < terms.activation_height {
        return Err(PlanError::Rejected("Ordinary fee profile binding or activation mismatch"));
    }
    let pre = match &st.preacceptance {
        Err(m) => return Err(PlanError::Rejected(*m)),
        Ok(pre) => pre,
    };
    if pre.registry_requirements != 0 {
        return Err(PlanError::IntegrationUnavailable(
            "Ordinary module ownership, entitlement or validator-proof adapter is not integrated",
        ));
    }
    let n = st.accounts.len() as u128;
    if (st.balance_entries as u128) > n * 2 || (st.eligible_entries as u128) > n * 2 || st.nonce_entries
        > st.accounts.len() {
        return Err(PlanError::Internal("Financial snapshot exceeds registered account capacity"));
    }
    if !st.eligible_consistent {
        return Err(PlanError::Internal("Eligible liquidity differs from native financial snapshot"));
    }
    if !st.request_matches {
        return Err(PlanError::Rejected("Reservation inputs differ from authenticated ordinary intent or current debits"));
    }
    let reqs = match &st.requirements {
        Err(m) => return Err(PlanError::Rejected(*m)),
        Ok(reqs) => reqs,
    };
    let mut i: usize = 0;
    while i < reqs.len()
        invariant
            i <= reqs@.len(),
            forall|j: int| 0 <= j < i ==> !((#[trigger] reqs@[j]).0 > reqs@[j].1),
        decreases reqs@.len() - i,
    {
        if reqs[i].0 > reqs[i].1 {
            return Err(PlanError::Rejected("Current eligible liquidity cannot fund signed cap and action debits"));
        }
        i = i + 1;
    }
    if trace.actions.len() != req.body.actions.len() {
        return Err(PlanError::Internal("Accounting trace must cover the complete signed action list"));
    }
    if (trace.validation_reads.len() as u128) > (terms.max_actions as u128) * 16 {
        return Err(PlanError::Internal("Accounting trace exceeds component record bound"));
    }
    let mut k: usize = 0;
    while k < trace.actions.len()
        invariant
            k <= trace.actions@.len(),
            forall|j: int| 0 <= j < k ==> !((#[trigger] trace.actions@[j]).reads@.len() > 16
                || trace.actions@[j].writes@.len() > 16),
        decreases trace.actions@.len() - k,
    {
        if trace.actions[k].reads.len() > 16 || trace.actions[k].writes.len() > 16 {
            return Err(PlanError::Internal("Accounting trace exceeds component record bound"));
        }
        k = k + 1;
    }
    Ok(())
}

proof fn lemma_reads_err_sticks(m: OrdinaryMeterView, recs: Seq<LogicalRecord>, i: int)
    requires
        0 <= i <= recs.len(),
        reads_spec(m, recs.take(i)).1 is Err,
    ensures
        reads_spec(m, recs) == reads_spec(m, recs.take(i)),
    decreases recs.len() - i,
{
    if i < recs.len() {
        assert(recs.take(i + 1).drop_last() =~= recs.take(i));
        lemma_reads_err_sticks(m, recs, i + 1);
    } else {
        assert(recs.take(i) =~= recs);
    }
}

proof fn lemma_writes_err_sticks(m: OrdinaryMeterView, recs: Seq<LogicalRecord>, i: int)
    requires
        0 <= i <= recs.len(),
        writes_spec(m, recs.take(i)).1 is Err,
    ensures
        writes_spec(m, recs) == writes_spec(m, recs.take(i)),
    decreases recs.len() - i,
{
    if i < recs.len() {
        assert(recs.take(i + 1).drop_last() =~= recs.take(i));
        lemma_writes_err_sticks(m, recs, i + 1);
    } else {
        assert(recs.take(i) =~= recs);
    }
}

fn run_reads(meter: &mut OrdinaryMeter, recs: &Vec<LogicalRecord>) -> (r: Result<(), MeterError>)
    requires
        old(meter)@.wf(),
    ensures
        (final(meter)@, r) === reads_spec(old(meter)@, recs@),
        final(meter)@.wf(),
{
    let ghost m0 = meter@;
    let mut i: usize = 0;
    assert(recs@.take(0) =~= Seq::<LogicalRecord>::empty());
    while i < recs.len()
        invariant
            i <= recs@.len(),
            meter@.wf(),
            m0 == old(meter)@,
            (meter@, Ok::<(), MeterError>(())) === reads_spec(m0, recs@.take(i as int)),
        decreases recs@.len() - i,
    {
        proof {
            assert(recs@.take(i as int + 1).drop_last() =~= recs@.take(i as int));
            assert(recs@.take(i as int + 1).last() == recs@[i as int]);
        }
        match meter.read(&recs[i]) {
            Ok(()) => {},
            Err(e) => {
                proof { lemma_reads_err_sticks(m0, recs@, i as int + 1); }
                return Err(e);
            },
        }
        i = i + 1;
    }
    assert(recs@.take(i as int) =~= recs@);
    Ok(())
}

fn run_writes(meter: &mut OrdinaryMeter, recs: &Vec<LogicalRecord>) -> (r: Result<(), MeterError>)
    requires
        old(meter)@.wf(),
    ensures
        (final(meter)@, r) === writes_spec(old(meter)@, recs@),
        final(meter)@.wf(),
{
    let ghost m0 = meter@;
    let mut i: usize = 0;
    assert(recs@.take(0) =~= Seq::<LogicalRecord>::empty());
    while i < recs.len()
        invariant
            i <= recs@.len(),
            meter@.wf(),
            m0 == old(meter)@,
            (meter@, Ok::<(), MeterError>(())) === writes_spec(m0, recs@.take(i as int)),
        decreases recs@.len() - i,
    {
        proof {
            assert(recs@.take(i as int + 1).drop_last() =~= recs@.take(i as int));
            assert(recs@.take(i as int + 1).last() == recs@[i as int]);
        }
        match meter.write(&recs[i]) {
            Ok(()) => {},
            Err(e) => {
                proof { lemma_writes_err_sticks(m0, recs@, i as int + 1); }
                return Err(e);
            },
        }
        i = i + 1;
    }
    assert(recs@.take(i as int) =~= recs@);
    Ok(())
}

fn immature(deferred: &Vec<(u16, u64)>, index: u16, height: u64) -> (r: bool)
    ensures
        r == claim_immature(deferred@, index, height),
{
    let mut i: usize = 0;
    while i < deferred.len()
        invariant
            i <= deferred@.len(),
            forall|j: int| 0 <= j < i ==> !((#[trigger] deferred@[j]).0 == index && height < deferred@[j].1),
        decreases deferred@.len() - i,
    {
        if deferred[i].0 == index && height < deferred[i].1 {
            return true;
        }
        i = i + 1;
    }
    false
}

fn run_action(
    meter: &mut OrdinaryMeter,
    i: u16,
    work: &ActionWork,
    deferred: &Vec<(u16, u64)>,
    height: u64,
) -> (r: Result<Drive, PlanError>)
    requires
        old(meter)@.wf(),
    ensures
        (final(meter)@, r) === action_spec(old(meter)@, i, *work, deferred@, height),
        final(meter)@.wf(),
{
    match meter.action(i) {
        Ok(()) => {},
        Err(MeterError::AcceptedOutOfGas) => return Ok(Drive::Ended(Outcome::OutOfGas, i, None)),
        Err(e) => return Err(PlanError::from_meter(e)),
    }
    if immature(deferred, i, height) {
        return Ok(Drive::Ended(Outcome::ApplicationFailure, i, Some(ApplicationRule::InactivityDelay)));
    }
    match run_reads(meter, &work.reads) {
        Ok(()) => {},
        Err(MeterError::AcceptedOutOfGas) => return Ok(Drive::Ended(Outcome::OutOfGas, i, None)),
        Err(e) => return Err(PlanError::from_meter(e)),
    }
    match run_writes(meter, &work.writes) {
        Ok(()) => {},
        Err(MeterError::AcceptedOutOfGas) => return Ok(Drive::Ended(Outcome::OutOfGas, i, None)),
        Err(e) => return Err(PlanError::from_meter(e)),
    }
    match work.end {
        AccountingEnd::Applied => Ok(Drive::Running),
        AccountingEnd::InternalFault => Err(PlanError::Internal("Unclassified application failure stops block preparation")),
        AccountingEnd::ApplicationFailure(_) => Err(PlanError::IntegrationUnavailable(
            "No reviewed module capacity predicate is integrated; caller classification cannot authorize a paid failure",
        )),
    }
}

proof fn lemma_actions_stop(
    m: OrdinaryMeterView,
    a: Seq<ActionWork>,
    deferred: Seq<(u16, u64)>,
    height: u64,
    i: int,
)
    requires
        0 <= i <= a.len(),
        actions_spec(m, a.take(i), deferred, height).1 != Ok::<Drive, PlanError>(Drive::Running),
    ensures
        actions_spec(m, a, deferred, height) == actions_spec(m, a.take(i), deferred, height),
    decreases a.len() - i,
{
    if i < a.len() {
        assert(a.take(i + 1).drop_last() =~= a.take(i));
        lemma_actions_stop(m, a, deferred, height, i + 1);
    } else {
        assert(a.take(i) =~= a);
    }
}

fn run_actions(
    meter: &mut OrdinaryMeter,
    actions: &Vec<ActionWork>,
    deferred: &Vec<(u16, u64)>,
    height: u64,
) -> (r: Result<Drive, PlanError>)
    requires
        old(meter)@.wf(),
        actions@.len() <= u16::MAX,
    ensures
        (final(meter)@, r) === actions_spec(old(meter)@, actions@, deferred@, height),
        final(meter)@.wf(),
{
    let ghost m0 = meter@;
    let mut i: usize = 0;
    assert(actions@.take(0) =~= Seq::<ActionWork>::empty());
    while i < actions.len()
        invariant
            i <= actions@.len() <= u16::MAX,
            meter@.wf(),
            m0 == old(meter)@,
            (meter@, Ok::<Drive, PlanError>(Drive::Running)) === actions_spec(m0, actions@.take(i as int), deferred@, height),
        decreases actions@.len() - i,
    {
        proof {
            assert(actions@.take(i as int + 1).drop_last() =~= actions@.take(i as int));
            assert(actions@.take(i as int + 1).last() == actions@[i as int]);
        }
        let r = run_action(meter, i as u16, &actions[i], deferred, height);
        match r {
            Ok(Drive::Running) => {},
            _ => {
                proof { lemma_actions_stop(m0, actions@, deferred@, height, i as int + 1); }
                return r;
            },
        }
        i = i + 1;
    }
    assert(actions@.take(i as int) =~= actions@);
    Ok(Drive::Running)
}

fn copy_receipts(v: &Vec<RetainedReceipt>) -> (r: Vec<RetainedReceipt>)
    ensures
        r@ == v@,
{
    let mut out: Vec<RetainedReceipt> = Vec::new();
    let mut i: usize = 0;
    while i < v.len()
        invariant
            i <= v@.len(),
            out@ == v@.take(i as int),
        decreases v@.len() - i,
    {
        out.push(v[i]);
        i = i + 1;
        assert(out@ =~= v@.take(i as int));
    }
    assert(v@.take(i as int) =~= v@);
    out
}

fn copy_profiles(v: &Vec<RetainedProfile>) -> (r: Vec<RetainedProfile>)
    ensures
        r@ == v@,
{
    let mut out: Vec<RetainedProfile> = Vec::new();
    let mut i: usize = 0;
    while i < v.len()
        invariant
            i <= v@.len(),
            out@ == v@.take(i as int),
        decreases v@.len() - i,
    {
        out.push(v[i]);
        i = i + 1;
        assert(out@ =~= v@.take(i as int));
    }
    assert(v@.take(i as int) =~= v@);
    out
}

fn settle(
    profile: &FeeProfile,
    req: &OrdinaryRequest,
    st: &PlanningState,
    nonce_after: u64,
    terms: &OrdinaryTerms,
    history: &FeeHistory,
    height: u64,
    index: u32,
    drive: Drive,
    s: &MeterSummary,
    Ghost(m): Ghost<OrdinaryMeterView>,
) -> (r: Result<FeePlan, PlanError>)
    requires
        summarizes(*s, m),
    ensures
        match (r, settlement_spec(*profile, *req, *st, nonce_after, *terms, *history, height, index, drive, m)) {
            (Ok(p), Ok(model)) => plan_view(p) == model,
            (Err(e), Err(e2)) => e == e2,
            _ => false,
        },
{
    let (outcome, failing, rule) = match drive {
        Drive::Running => (Outcome::Success, None, None),
        Drive::Ended(o, i, rule) => (o, Some(i), rule),
    };
    let oog = match outcome {
        Outcome::OutOfGas => true,
        _ => false,
    };
    let success = match outcome {
        Outcome::Success => true,
        _ => false,
    };
    if !s.accepted() || oog != s.exhausted() || (success && s.processed_actions() != s.action_count()) {
        return Err(PlanError::Internal("Meter outcome differs from accounting outcome"));
    }
    let used = s.used_gas();
    let billed: u64 = if used > profile.minimum_gas { used } else { profile.minimum_gas };
    let charge = match (billed as u128).checked_mul(profile.gas_price as u128) {
        Some(c) => c,
        None => return Err(PlanError::Internal("Ordinary fee multiplication overflow")),
    };
    if req.maximum_fee < charge {
        return Err(PlanError::Internal("Ordinary charge exceeds signed reservation"));
    }
    if st.payer_balance < charge {
        return Err(PlanError::Internal("Accepted fee reservation invariant failed"));
    }
    if st.payer_eligible < charge {
        return Err(PlanError::Internal("Accepted fee eligibility invariant failed"));
    }
    let withheld = match st.withheld_udrt.checked_add(charge) {
        Some(w) => w,
        None => return Err(PlanError::Internal("Withheld ordinary fee custody overflow")),
    };
    if find_book_account(&st.accounts, &req.actor).is_none() {
        return Err(PlanError::Internal("Accepted actor disappeared"));
    }
    let keep = success;
    let rule_class = match rule {
        Some(r) => Some(r.class()),
        None => None,
    };
    let rule_code = if oog {
        Some("OUT_OF_GAS")
    } else {
        match rule {
            Some(r) => Some(r.code()),
            None => None,
        }
    };
    let receipt = FeeReceipt {
        version: 1,
        transaction_id: req.transaction_id,
        envelope_hash: req.envelope_hash,
        actor: req.actor,
        block_height: height,
        block_index: index,
        contract_version: terms.contract_version,
        profile_version: terms.profile_version,
        profile_digest: terms.profile_digest,
        outcome,
        failing_action: failing,
        failure_phase: if keep { None } else { Some("action") },
        rule_class,
        rule_code,
        gas_limit: req.body.gas_limit,
        gas_used: used,
        metadata_gas: s.metadata_gas(),
        reserved_cap: req.maximum_fee,
        charge,
        released_cap: req.maximum_fee - charge,
        nonce_before: req.spending_nonce,
        nonce_after,
    };
    let mut receipts = copy_receipts(&history.receipts);
    receipts.push(RetainedReceipt { key: req.transaction_id, receipt, request_valid: req.body.request_valid });
    let mut profiles = copy_profiles(&history.profiles);
    let current = RetainedProfile {
        key: terms.profile_digest,
        digest: terms.profile_digest,
        contract_version: terms.contract_version,
        version: terms.profile_version,
        receipt_metadata_cost: profile.receipt_metadata_cost,
        minimum_gas: profile.minimum_gas,
        gas_price: profile.gas_price,
    };
    match history.find_profile(&terms.profile_digest) {
        Some(pi) => {
            profiles.set(pi, current);
        },
        None => {
            profiles.push(current);
        },
    }
    let retained = FeeHistory { receipts, profiles };
    match retained.validate() {
        Ok(()) => {},
        Err(e) => return Err(e),
    }
    Ok(FeePlan {
        receipt,
        disposition: if keep {
            ActionDisposition::KeepProposed
        } else {
            ActionDisposition::DiscardAll
        },
        checkpoint: FeeCheckpoint {
            balance: st.payer_balance - charge,
            eligible: st.payer_eligible - charge,
            withheld_udrt: withheld,
            nonce: nonce_after,
        },
        grants_advance: keep,
        history: retained,
        predecessor_digest: st.snapshot_digest,
    })
}

/// Plan the fee, nonce and receipt of one signed ordinary transaction.
/// Rejected requests create no plan. An exact retry of a retained receipt
/// returns that receipt. Internal, capacity and integration errors require
/// the caller to discard the whole block plan; the block meter comes back
/// in every case with every charge already made.
pub fn plan_fee_accounting(
    profile: &FeeProfile,
    req: &OrdinaryRequest,
    st: &PlanningState,
    history: &FeeHistory,
    terms: &OrdinaryTerms,
    height: u64,
    index: u32,
    trace: &AccountingTrace,
    block: SharedBlockMeter,
) -> (r: (Result<PlanningResult, PlanError>, SharedBlockMeter))
    requires
        block@.wf(),
        req.body.actions@.len() <= u16::MAX,
    ensures
        match (r.0, ordinary_plan_spec(*profile, *req, *st, *history, *terms, height, index, *trace, block@)) {
            (Ok(p), (b, Ok(model))) => planning_view(p) == model && r.1@ == b,
            (Err(e), (b, Err(e2))) => e == e2 && r.1@ == b,
            _ => false,
        },
{
    match opening(profile, req, st, history, height, index) {
        Err(e) => return (Err(e), block),
        Ok(Some(prior)) => return (Ok(PlanningResult::ExactRetainedRetry(prior)), block),
        Ok(None) => {},
    }
    let mut meter = match OrdinaryMeter::new(profile, &req.body, block) {
        Ok(m) => m,
        Err((e, b)) => return (Err(PlanError::from_meter(e)), b),
    };
    match meter.ordinary_signature() {
        Ok(()) => {},
        Err(e) => return (Err(PlanError::from_meter(e)), meter.into_block()),
    }
    match binding(req, st, terms, height, trace) {
        Ok(()) => {},
        Err(e) => return (Err(e), meter.into_block()),
    }
    let pre = match &st.preacceptance {
        Ok(pre) => pre,
        Err(_) => return (Err(PlanError::Internal("unreachable preacceptance")), meter.into_block()),
    };
    match run_reads(&mut meter, &trace.validation_reads) {
        Ok(()) => {},
        Err(e) => return (Err(PlanError::from_meter(e)), meter.into_block()),
    }
    match meter.accept() {
        Ok(()) => {},
        Err(e) => return (Err(PlanError::from_meter(e)), meter.into_block()),
    }
    let drive = match run_actions(&mut meter, &trace.actions, &pre.deferred_claims, height) {
        Ok(d) => d,
        Err(e) => return (Err(e), meter.into_block()),
    };
    let ghost m4 = meter@;
    let (settled, block) = meter.finish();
    let summary = match settled {
        Ok(s) => s,
        Err(e) => return (Err(PlanError::from_meter(e)), block),
    };
    match settle(profile, req, st, pre.nonce_after, terms, history, height, index, drive, &summary, Ghost(m4)) {
        Ok(plan) => (Ok(PlanningResult::Prepared(plan)), block),
        Err(e) => (Err(e), block),
    }
}

/// An ordinary fee moves value, never creates it. In every prepared plan the
/// charge is the larger of used and minimum gas times the gas price and never
/// exceeds the signed cap, which is released less the charge; the payer's
/// uDRT and eligible uDRT fall by the charge, custody rises by it, the
/// retained history stays valid and holds the new receipt, and proposed
/// effects and grants are kept only on success.
pub proof fn law_ordinary_fee_conserves(
    profile: FeeProfile,
    req: OrdinaryRequest,
    st: PlanningState,
    history: FeeHistory,
    terms: OrdinaryTerms,
    height: u64,
    index: u32,
    trace: AccountingTrace,
    block: BlockMeterView,
)
    ensures
        ordinary_plan_spec(profile, req, st, history, terms, height, index, trace, block).1 matches Ok(
            PlanningModel::Prepared(p),
        ) ==> {
            &&& p.receipt.charge == fee_for(profile.minimum_gas, profile.gas_price, p.receipt.gas_used)
            &&& p.receipt.charge <= p.receipt.reserved_cap
            &&& p.receipt.reserved_cap == req.maximum_fee
            &&& p.receipt.released_cap + p.receipt.charge == p.receipt.reserved_cap
            &&& p.checkpoint.balance + p.receipt.charge == st.payer_balance
            &&& p.checkpoint.eligible + p.receipt.charge == st.payer_eligible
            &&& p.checkpoint.withheld_udrt == st.withheld_udrt + p.receipt.charge
            &&& history_check(p.history) is Ok
            &&& p.history.receipts.len() == history.receipts@.len() + 1
            &&& p.history.receipts.last().receipt == p.receipt
            &&& (p.disposition == ActionDisposition::KeepProposed <==> p.receipt.outcome == Outcome::Success)
            &&& (p.grants_advance <==> p.receipt.outcome == Outcome::Success)
            &&& p.receipt.nonce_before == req.spending_nonce
            &&& p.receipt.nonce_after == req.spending_nonce + 1
            &&& p.checkpoint.nonce == p.receipt.nonce_after
        },
{
    match ordinary_plan_spec(profile, req, st, history, terms, height, index, trace, block).1 {
        Ok(PlanningModel::Prepared(p)) => {
            let h = p.history;
            if h.receipts.len() > 0 {
                lemma_receipts_check_each(h, 0, h.receipts.len() - 1);
            }
        },
        _ => {},
    }
}

/// A retained transaction ID is never charged again. Once the history, the
/// nonce mirrors and the grants are valid, a transaction whose ID the
/// history retains comes back as its retained receipt when it is retried at
/// the same block position with the same envelope, and is refused
/// otherwise, re-signed or re-indexed; either way the block meter is
/// untouched.
pub proof fn law_retained_id_is_never_charged_again(
    profile: FeeProfile,
    req: OrdinaryRequest,
    st: PlanningState,
    history: FeeHistory,
    terms: OrdinaryTerms,
    height: u64,
    index: u32,
    trace: AccountingTrace,
    block: BlockMeterView,
)
    requires
        profile.valid,
        history_check(history@) is Ok,
        behind_from(history, st, 0) is Ok,
        st.mirrors_valid,
        st.grants_valid,
        receipt_index(history.receipts@, req.transaction_id@, 0) >= 0,
    ensures
        ({
            let plan = ordinary_plan_spec(profile, req, st, history, terms, height, index, trace, block);
            let prior = history.receipts@[receipt_index(history.receipts@, req.transaction_id@, 0)].receipt;
            &&& plan.0 == block
            &&& prior.block_height == height && prior.block_index == index && prior.envelope_hash@
                == req.envelope_hash@ ==> plan.1 == Ok::<PlanningModel, PlanError>(
                PlanningModel::ExactRetainedRetry(prior),
            )
            &&& !(prior.block_height == height && prior.block_index == index && prior.envelope_hash@
                == req.envelope_hash@) ==> plan.1 == Err::<PlanningModel, PlanError>(
                PlanError::Rejected("Ordinary transaction ID already accepted"),
            )
        }),
{
}

/// Retrying an accepted transaction at its own block position charges
/// nothing again: the retained receipt comes back and the block meter is
/// untouched.
pub proof fn law_exact_retry_charges_once(
    profile: FeeProfile,
    req: OrdinaryRequest,
    st: PlanningState,
    history: FeeHistory,
    terms: OrdinaryTerms,
    height: u64,
    index: u32,
    trace: AccountingTrace,
    block: BlockMeterView,
)
    requires
        opening_spec(profile, req, st, history, height, index) matches Ok(Some(_)),
    ensures
        ordinary_plan_spec(profile, req, st, history, terms, height, index, trace, block).0 == block,
        ordinary_plan_spec(profile, req, st, history, terms, height, index, trace, block).1 matches Ok(
            PlanningModel::ExactRetainedRetry(r),
        ) && r.transaction_id@ == req.transaction_id@ && r.block_height == height && r.block_index == index,
{
    let ri = receipt_index(history.receipts@, req.transaction_id@, 0);
    lemma_receipt_index(history.receipts@, req.transaction_id@, 0);
    lemma_receipts_check_each(history@, 0, ri);
}

proof fn lemma_receipts_check_each(h: HistoryModel, k: int, i: int)
    requires
        0 <= k <= i < h.receipts.len(),
        receipts_check(h, k) is Ok,
    ensures
        receipt_check(h, i) is Ok,
    decreases i - k,
{
    if k < i {
        lemma_receipts_check_each(h, k + 1, i);
    }
}

proof fn lemma_receipt_index(r: Seq<RetainedReceipt>, id: Seq<u8>, i: int)
    requires
        0 <= i,
    ensures
        receipt_index(r, id, i) == -1 || (i <= receipt_index(r, id, i) < r.len() && r[receipt_index(r, id, i)].key@ == id),
    decreases r.len() - i,
{
    if i < r.len() && r[i].key@ != id {
        lemma_receipt_index(r, id, i + 1);
    }
}

/// A failure as the runtime reports it: the failing action, the phase, the
/// rule class (empty for none) and the rule code.
pub type RuntimeFailure = (u16, &'static str, &'static str, &'static str);

/// What retaining a runtime receipt gives: the new history and the receipt,
/// or why the predecessor or the arithmetic refuses it.
pub open spec fn runtime_receipt_spec(
    history: FeeHistory,
    req: OrdinaryRequest,
    profile: FeeProfile,
    terms: OrdinaryTerms,
    s: MeterSummary,
    height: u64,
    index: u32,
    outcome: Outcome,
    failure: Option<RuntimeFailure>,
) -> Result<(HistoryModel, FeeReceipt), PlanError> {
    let used = s.spec_used_gas();
    let charge = fee_for(profile.minimum_gas, profile.gas_price, used);
    if !s.spec_accepted() || (outcome == Outcome::OutOfGas) != s.spec_exhausted() || (outcome == Outcome::Success
        && s.spec_processed_actions() != s.spec_action_count()) || (match failure {
            Some(f) => f.0 >= req.body.actions@.len(),
            None => false,
        }) || receipt_index(history.receipts@, req.transaction_id@, 0) >= 0
        || history.receipts@.len() >= MAX_RECEIPTS {
        Err(PlanError::Internal("Invalid runtime receipt predecessor"))
    } else if charge > u128::MAX {
        Err(PlanError::Internal("Fee overflow"))
    } else if req.maximum_fee < charge {
        Err(PlanError::Internal("Charge exceeds cap"))
    } else if req.spending_nonce == u64::MAX {
        Err(PlanError::Internal("Nonce exhausted"))
    } else {
        let receipt = FeeReceipt {
            version: 1,
            transaction_id: req.transaction_id,
            envelope_hash: req.envelope_hash,
            actor: req.actor,
            block_height: height,
            block_index: index,
            contract_version: terms.contract_version,
            profile_version: terms.profile_version,
            profile_digest: terms.profile_digest,
            outcome,
            failing_action: match failure {
                Some(f) => Some(f.0),
                None => None,
            },
            failure_phase: match failure {
                Some(f) => Some(f.1),
                None => None,
            },
            rule_class: match failure {
                Some(f) => if f.2@.len() == 0 {
                    None
                } else {
                    Some(f.2)
                },
                None => None,
            },
            rule_code: match failure {
                Some(f) => Some(f.3),
                None => None,
            },
            gas_limit: req.body.gas_limit,
            gas_used: used,
            metadata_gas: s.spec_metadata_gas(),
            reserved_cap: req.maximum_fee,
            charge: charge as u128,
            released_cap: (req.maximum_fee - charge) as u128,
            nonce_before: req.spending_nonce,
            nonce_after: (req.spending_nonce + 1) as u64,
        };
        let retained = HistoryModel {
            receipts: history.receipts@.push(
                RetainedReceipt { key: req.transaction_id, receipt, request_valid: req.body.request_valid },
            ),
            profiles: retain_profile(history.profiles@, current_profile(profile, terms)),
        };
        match history_check(retained) {
            Err(e) => Err(e),
            Ok(()) => Ok((retained, receipt)),
        }
    }
}

/// Retain the receipt of a transaction whose action outcome the metered
/// runtime has determined, with its profile, and check the new history.
pub fn retain_runtime_receipt(
    history: &FeeHistory,
    req: &OrdinaryRequest,
    profile: &FeeProfile,
    terms: &OrdinaryTerms,
    summary: &MeterSummary,
    height: u64,
    index: u32,
    outcome: Outcome,
    failure: Option<RuntimeFailure>,
) -> (r: Result<(FeeHistory, FeeReceipt), PlanError>)
    ensures
        match runtime_receipt_spec(*history, *req, *profile, *terms, *summary, height, index, outcome, failure) {
            Ok((h, receipt)) => r is Ok && r->Ok_0.0@ == h && r->Ok_0.1 == receipt,
            Err(e) => r == Err::<(FeeHistory, FeeReceipt), PlanError>(e),
        },
{
    let oog = match outcome {
        Outcome::OutOfGas => true,
        _ => false,
    };
    let success = match outcome {
        Outcome::Success => true,
        _ => false,
    };
    let failing_out_of_range = match failure {
        Some(f) => f.0 as usize >= req.body.actions.len(),
        None => false,
    };
    if !summary.accepted() || oog != summary.exhausted() || (success && summary.processed_actions()
        != summary.action_count()) || failing_out_of_range || find_receipt(history, &req.transaction_id).is_some()
        || history.receipts.len() >= MAX_RECEIPTS {
        return Err(PlanError::Internal("Invalid runtime receipt predecessor"));
    }
    let used = summary.used_gas();
    let billed: u64 = if used > profile.minimum_gas { used } else { profile.minimum_gas };
    let charge = match (billed as u128).checked_mul(profile.gas_price as u128) {
        Some(c) => c,
        None => return Err(PlanError::Internal("Fee overflow")),
    };
    if req.maximum_fee < charge {
        return Err(PlanError::Internal("Charge exceeds cap"));
    }
    let nonce_after = match req.spending_nonce.checked_add(1) {
        Some(n) => n,
        None => return Err(PlanError::Internal("Nonce exhausted")),
    };
    let receipt = FeeReceipt {
        version: 1,
        transaction_id: req.transaction_id,
        envelope_hash: req.envelope_hash,
        actor: req.actor,
        block_height: height,
        block_index: index,
        contract_version: terms.contract_version,
        profile_version: terms.profile_version,
        profile_digest: terms.profile_digest,
        outcome,
        failing_action: match failure {
            Some(f) => Some(f.0),
            None => None,
        },
        failure_phase: match failure {
            Some(f) => Some(f.1),
            None => None,
        },
        rule_class: match failure {
            Some(f) => if f.2.unicode_len() == 0 {
                None
            } else {
                Some(f.2)
            },
            None => None,
        },
        rule_code: match failure {
            Some(f) => Some(f.3),
            None => None,
        },
        gas_limit: req.body.gas_limit,
        gas_used: used,
        metadata_gas: summary.metadata_gas(),
        reserved_cap: req.maximum_fee,
        charge,
        released_cap: req.maximum_fee - charge,
        nonce_before: req.spending_nonce,
        nonce_after,
    };
    let mut receipts = copy_receipts(&history.receipts);
    receipts.push(RetainedReceipt { key: req.transaction_id, receipt, request_valid: req.body.request_valid });
    let mut profiles = copy_profiles(&history.profiles);
    let current = RetainedProfile {
        key: terms.profile_digest,
        digest: terms.profile_digest,
        contract_version: terms.contract_version,
        version: terms.profile_version,
        receipt_metadata_cost: profile.receipt_metadata_cost,
        minimum_gas: profile.minimum_gas,
        gas_price: profile.gas_price,
    };
    match history.find_profile(&terms.profile_digest) {
        Some(pi) => {
            profiles.set(pi, current);
        },
        None => {
            profiles.push(current);
        },
    }
    let next = FeeHistory { receipts, profiles };
    match next.validate() {
        Ok(()) => {},
        Err(e) => return Err(e),
    }
    Ok((next, receipt))
}

/// An ordinary plan is prepared only for an admissible transaction: its
/// profile is valid and bound by the body, the block is at or after the
/// profile's activation, the nonce mirrors and grants agree with the book,
/// the transaction ID is not yet retained, authority was prepared with no
/// registry requirement left, the reservation request is the derived one,
/// every asset's eligible liquidity covers what it must fund, the trace
/// covers every signed action, and the payer holds the charge.
pub proof fn law_prepared_plan_is_admissible(
    profile: FeeProfile,
    req: OrdinaryRequest,
    st: PlanningState,
    history: FeeHistory,
    terms: OrdinaryTerms,
    height: u64,
    index: u32,
    trace: AccountingTrace,
    block: BlockMeterView,
)
    ensures
        ordinary_plan_spec(profile, req, st, history, terms, height, index, trace, block).1 matches Ok(
            PlanningModel::Prepared(p),
        ) ==> {
            &&& profile.valid
            &&& req.binding_matches && height >= terms.activation_height
            &&& st.mirrors_valid && st.grants_valid
            &&& receipt_index(history.receipts@, req.transaction_id@, 0) < 0
            &&& st.preacceptance matches Ok(pre) && pre.registry_requirements == 0 && p.receipt.nonce_after
                == pre.nonce_after
            &&& st.request_matches && st.eligible_consistent
            &&& st.requirements matches Ok(reqs) && forall|i: int| 0 <= i < reqs@.len() ==> (#[trigger] reqs@[i]).0 <= reqs@[i].1
            &&& trace.actions@.len() == req.body.actions@.len()
            &&& p.receipt.charge <= st.payer_balance && p.receipt.charge <= st.payer_eligible
            &&& p.receipt.block_height == height && p.receipt.block_index == index
        },
{
}

} // verus!
