//! Governance (ordinary-v3) fee, nonce and receipt planning.
//!
//! The planner creates and drives the v3 meter for the same signed envelope it
//! checks, then charges `max(used, minimum) * price` against the full signed
//! cap, which must be available before accepted work begins. The work trace is
//! an input: the executor must enumerate every actual read and proposed write.
//! The plan writes nothing; its checkpoints are committed by the caller.
use vstd::prelude::*;
use crate::block_meter::{BlockMeterView, FeeProfileV3, SharedBlockMeter};
use crate::governance_v3_meter::{
    accept_v3, action_v3, new_v3, read_v3, signature_v3, write_v3, GovernanceMeterView, MeterError,
    MeteredGovernanceBody, Summary, V3GovernanceMeter,
};
use crate::ordinary_meter::LogicalRecord;
use crate::transaction_meter::Phase;

verus! {

#[derive(Clone, Copy, Debug, PartialEq, Eq)]
pub enum PlanError {
    Rejected(&'static str),
    Internal(&'static str),
    BlockCapacity,
}

/// The plan error for a meter error. Out-of-gas after acceptance is handled
/// by the planner; reaching here it is an internal fault.
pub open spec fn plan_error(e: MeterError) -> PlanError {
    match e {
        MeterError::Rejected(m) => PlanError::Rejected(m),
        MeterError::BlockCapacity => PlanError::BlockCapacity,
        MeterError::AcceptedOutOfGas => PlanError::Internal("Accepted out-of-gas escaped v3 action handling"),
        MeterError::Internal(m) => PlanError::Internal(m),
    }
}

impl PlanError {
    pub fn from_meter(error: MeterError) -> (r: PlanError)
        ensures
            r == plan_error(error),
    {
        match error {
            MeterError::Rejected(m) => PlanError::Rejected(m),
            MeterError::BlockCapacity => PlanError::BlockCapacity,
            MeterError::AcceptedOutOfGas => PlanError::Internal("Accepted out-of-gas escaped v3 action handling"),
            MeterError::Internal(m) => PlanError::Internal(m),
        }
    }
}

/// The executor's result of the proposed governance transition.
#[derive(Clone, Copy, Debug, PartialEq, Eq, Structural)]
pub enum ActionEnd {
    Applied,
    ApplicationFailure,
}

/// Every actual logical read and proposed write of the action.
pub struct ActionWork {
    pub validation_reads: Vec<LogicalRecord>,
    pub action_reads: Vec<LogicalRecord>,
    pub proposed_writes: Vec<LogicalRecord>,
    pub end: ActionEnd,
}

#[derive(Clone, Copy, Debug, PartialEq, Eq, Structural)]
pub enum Outcome {
    Success,
    ApplicationFailure,
    OutOfGas,
}

#[derive(Clone, Copy, Debug, PartialEq, Eq, Structural)]
pub enum ActionDisposition {
    KeepProposed,
    DiscardAll,
}

/// The signed governance request, with the results of the checks that
/// the signature proof and the v3 profile make on it.
pub struct GovernanceRequest {
    pub body: MeteredGovernanceBody,
    pub transaction_id: [u8; 32],
    pub envelope_hash: [u8; 32],
    pub actor: [u8; 32],
    pub expiry_height: u64,
    pub maximum_fee: u128,
    pub spending_nonce: u64,
    /// Whether the profile accepts the signed request at this height.
    pub request_valid: bool,
    /// Whether the signature proof is for this metered envelope.
    pub proof_matches: bool,
}

/// The staged recovery book and financial snapshot, as far as the plan reads
/// them: sizes, consistency results, the actor's standing and its uDRT.
pub struct GovernanceLedger {
    pub staged_height: u64,
    pub account_count: usize,
    pub nonce_count: usize,
    pub balance_entries: usize,
    pub eligible_entries: usize,
    pub mirrors_valid: bool,
    pub eligible_consistent: bool,
    /// The stable ID whose account was looked up.
    pub actor: [u8; 32],
    pub actor_registered: bool,
    pub authority_matches: bool,
    pub balance: u128,
    pub eligible: u128,
    pub withheld_udrt: u128,
}

/// Fixed parameters of the v3 fee contract and profile.
#[derive(Clone, Copy, Debug, PartialEq, Eq)]
pub struct ContractTerms {
    pub max_expiry_lifetime: u64,
    pub contract_version: u16,
    pub profile_version: u64,
    pub profile_digest: [u8; 32],
}

/// A temporary block-local reservation of the full signed cap.
#[derive(Clone, Copy, Debug, PartialEq, Eq)]
pub struct FeeReservation {
    pub owner: [u8; 32],
    pub cap: u128,
    pub balance_before: u128,
    pub eligible_before: u128,
    pub balance_while_reserved: u128,
    pub eligible_while_reserved: u128,
}

#[derive(Clone, Copy, Debug, PartialEq, Eq)]
pub struct V3FeeReceipt {
    pub version: u16,
    pub transaction_id: [u8; 32],
    pub envelope_hash: [u8; 32],
    pub actor: [u8; 32],
    pub block_height: u64,
    pub block_index: u32,
    pub contract_version: u16,
    pub profile_version: u64,
    pub profile_digest: [u8; 32],
    pub outcome: Outcome,
    pub failure_code: Option<&'static str>,
    pub gas_limit: u64,
    pub gas_used: u64,
    pub metadata_gas: u64,
    pub reserved_cap: u128,
    pub charge: u128,
    pub released_cap: u128,
    pub nonce_before: u64,
    pub nonce_after: u64,
}

/// The actor's uDRT, eligible uDRT and nonce after the fee, and the fees
/// withheld into custody.
#[derive(Clone, Copy, Debug, PartialEq, Eq, Structural)]
pub struct FeeCheckpoint {
    pub balance: u128,
    pub eligible: u128,
    pub withheld_udrt: u128,
    pub nonce: u64,
}

#[derive(Clone, Copy, Debug, PartialEq, Eq)]
pub struct FeePlan {
    pub reservation: FeeReservation,
    pub receipt: V3FeeReceipt,
    pub disposition: ActionDisposition,
    pub checkpoint: FeeCheckpoint,
}

/// The checks before the meter starts, and the reservation they allow.
pub open spec fn admission_spec(
    req: GovernanceRequest,
    ledger: GovernanceLedger,
    terms: ContractTerms,
    height: u64,
    work: ActionWork,
) -> Result<(u64, FeeReservation), PlanError> {
    if height == 0 || ledger.staged_height != height {
        Err(PlanError::Rejected("Governance staged recovery height differs"))
    } else if !req.request_valid {
        Err(PlanError::Rejected("signed v3 request differs from the fee profile"))
    } else if !req.proof_matches {
        Err(PlanError::Rejected("V3 signature proof differs from metered envelope"))
    } else if height >= req.expiry_height || req.expiry_height - height > terms.max_expiry_lifetime {
        Err(PlanError::Rejected("V3 transaction expired or exceeds lifetime"))
    } else if !ledger.mirrors_valid {
        Err(PlanError::Internal("Governance nonce mirrors differ from the recovery book"))
    } else if ledger.account_count * 2 > usize::MAX {
        Err(PlanError::Internal("Governance financial snapshot bound overflow"))
    } else if ledger.nonce_count != ledger.account_count || ledger.balance_entries > ledger.account_count * 2
        || ledger.eligible_entries > ledger.account_count * 2 {
        Err(PlanError::Internal("Governance financial snapshot exceeds account bounds"))
    } else if !ledger.eligible_consistent {
        Err(PlanError::Internal("Governance eligible liquidity differs from balances"))
    } else if !ledger.actor_registered || ledger.actor@ != req.actor@ {
        Err(PlanError::Rejected("Unregistered governance actor"))
    } else if !ledger.authority_matches {
        Err(PlanError::Rejected("Governance account authority or nonce differs"))
    } else if req.spending_nonce == u64::MAX {
        Err(PlanError::Rejected("Governance spending nonce exhausted"))
    } else if ledger.eligible > ledger.balance {
        Err(PlanError::Internal("Governance fee eligible balance exceeds account balance"))
    } else if ledger.balance < req.maximum_fee {
        Err(PlanError::Rejected("Insufficient uDRT balance for full signed fee cap"))
    } else if ledger.eligible < req.maximum_fee {
        Err(PlanError::Rejected("Insufficient eligible uDRT for full signed fee cap"))
    } else if work.validation_reads@.len() > 16 || work.action_reads@.len() > 16 || work.proposed_writes@.len() > 16 {
        Err(PlanError::Rejected("Governance work trace exceeds record bound"))
    } else {
        Ok((
            (req.spending_nonce + 1) as u64,
            FeeReservation {
                owner: req.actor,
                cap: req.maximum_fee,
                balance_before: ledger.balance,
                eligible_before: ledger.eligible,
                balance_while_reserved: (ledger.balance - req.maximum_fee) as u128,
                eligible_while_reserved: (ledger.eligible - req.maximum_fee) as u128,
            },
        ))
    }
}

/// Charge a list of reads in order, stopping at the first error.
pub open spec fn reads_v3(m: GovernanceMeterView, recs: Seq<LogicalRecord>) -> (GovernanceMeterView, Result<(), MeterError>)
    decreases recs.len(),
{
    if recs.len() == 0 {
        (m, Ok(()))
    } else {
        let (m1, r) = reads_v3(m, recs.drop_last());
        match r {
            Err(e) => (m1, Err(e)),
            Ok(()) => read_v3(m1, recs.last().key_view(), recs.last().bytes_view().len() as u64),
        }
    }
}

/// Charge a list of writes in order, stopping at the first error.
pub open spec fn writes_v3(m: GovernanceMeterView, recs: Seq<LogicalRecord>) -> (GovernanceMeterView, Result<(), MeterError>)
    decreases recs.len(),
{
    if recs.len() == 0 {
        (m, Ok(()))
    } else {
        let (m1, r) = writes_v3(m, recs.drop_last());
        match r {
            Err(e) => (m1, Err(e)),
            Ok(()) => write_v3(m1, recs.last().key_view(), recs.last().bytes_view().len() as u64),
        }
    }
}

/// Accepted work: the action, its reads, its writes. Running out of gas
/// ends the work with `OutOfGas`; any other error ends the plan.
pub open spec fn accepted_work(m: GovernanceMeterView, work: ActionWork) -> (GovernanceMeterView, Result<Outcome, MeterError>) {
    let (m1, r1) = action_v3(m);
    match r1 {
        Err(MeterError::AcceptedOutOfGas) => (m1, Ok(Outcome::OutOfGas)),
        Err(e) => (m1, Err(e)),
        Ok(()) => {
            let (m2, r2) = reads_v3(m1, work.action_reads@);
            match r2 {
                Err(MeterError::AcceptedOutOfGas) => (m2, Ok(Outcome::OutOfGas)),
                Err(e) => (m2, Err(e)),
                Ok(()) => {
                    let (m3, r3) = writes_v3(m2, work.proposed_writes@);
                    match r3 {
                        Err(MeterError::AcceptedOutOfGas) => (m3, Ok(Outcome::OutOfGas)),
                        Err(e) => (m3, Err(e)),
                        Ok(()) => (m3, Ok(if work.end == ActionEnd::ApplicationFailure {
                            Outcome::ApplicationFailure
                        } else {
                            Outcome::Success
                        })),
                    }
                },
            }
        },
    }
}

/// The whole metered run: signature, validation reads, acceptance and the
/// accepted work.
pub open spec fn drive_spec(m: GovernanceMeterView, work: ActionWork) -> (GovernanceMeterView, Result<Outcome, MeterError>) {
    let (m1, r1) = signature_v3(m);
    match r1 {
        Err(e) => (m1, Err(e)),
        Ok(()) => {
            let (m2, r2) = reads_v3(m1, work.validation_reads@);
            match r2 {
                Err(e) => (m2, Err(e)),
                Ok(()) => {
                    let (m3, r3) = accept_v3(m2);
                    match r3 {
                        Err(e) => (m3, Err(e)),
                        Ok(()) => accepted_work(m3, work),
                    }
                },
            }
        },
    }
}

/// The totals a settled meter reports, or its fault.
pub open spec fn settle_spec(m: GovernanceMeterView) -> Result<Summary, PlanError> {
    if m.phase == Phase::Fault || m.block.faulted {
        Err(PlanError::Internal("faulted v3 meter cannot settle"))
    } else {
        Ok(Summary {
            used_gas: m.usage.gas,
            metadata_gas: m.metadata_gas,
            accepted: m.phase == Phase::Accepted || m.phase == Phase::Exhausted,
            exhausted: m.phase == Phase::Exhausted,
            processed_actions: if m.action_counted { 1 } else { 0 },
            action_count: 1,
        })
    }
}

pub open spec fn failure_code_of(o: Outcome) -> Option<&'static str> {
    match o {
        Outcome::Success => None,
        Outcome::ApplicationFailure => Some("GOVERNANCE_APPLICATION_FAILURE"),
        Outcome::OutOfGas => Some("OUT_OF_GAS"),
    }
}

/// The fee charged for settled work: the larger of used and minimum gas,
/// times the gas price.
pub open spec fn charge_of(profile: FeeProfileV3, used: u64) -> int {
    (if used > profile.base.minimum_gas { used } else { profile.base.minimum_gas }) * profile.base.gas_price
}

/// The plan that settled work gives.
pub open spec fn settlement_spec(
    profile: FeeProfileV3,
    req: GovernanceRequest,
    ledger: GovernanceLedger,
    terms: ContractTerms,
    height: u64,
    index: u32,
    nonce_after: u64,
    reservation: FeeReservation,
    outcome: Outcome,
    s: Summary,
) -> Result<FeePlan, PlanError> {
    let charge = charge_of(profile, s.used_gas);
    if !s.accepted || s.action_count != 1 || s.metadata_gas != profile.base.receipt_metadata_cost
        || s.used_gas > req.body.gas_limit || s.exhausted != (outcome == Outcome::OutOfGas)
        || (outcome != Outcome::OutOfGas && s.processed_actions != 1) {
        Err(PlanError::Internal("V3 measured work differs from accepted outcome"))
    } else if charge > u128::MAX {
        Err(PlanError::Internal("V3 fee multiplication overflow"))
    } else if charge > reservation.cap {
        Err(PlanError::Internal("V3 charge exceeds signed reservation"))
    } else if reservation.balance_while_reserved + (reservation.cap - charge) > u128::MAX {
        Err(PlanError::Internal("V3 balance release overflow"))
    } else if reservation.eligible_while_reserved + (reservation.cap - charge) > u128::MAX {
        Err(PlanError::Internal("V3 eligible release overflow"))
    } else if ledger.withheld_udrt + charge > u128::MAX {
        Err(PlanError::Internal("V3 withheld fee custody overflow"))
    } else {
        let released = (reservation.cap - charge) as u128;
        Ok(FeePlan {
            reservation,
            receipt: V3FeeReceipt {
                version: 2,
                transaction_id: req.transaction_id,
                envelope_hash: req.envelope_hash,
                actor: req.actor,
                block_height: height,
                block_index: index,
                contract_version: terms.contract_version,
                profile_version: terms.profile_version,
                profile_digest: terms.profile_digest,
                outcome,
                failure_code: failure_code_of(outcome),
                gas_limit: req.body.gas_limit,
                gas_used: s.used_gas,
                metadata_gas: s.metadata_gas,
                reserved_cap: reservation.cap,
                charge: charge as u128,
                released_cap: released,
                nonce_before: req.spending_nonce,
                nonce_after,
            },
            disposition: if outcome == Outcome::Success {
                ActionDisposition::KeepProposed
            } else {
                ActionDisposition::DiscardAll
            },
            checkpoint: FeeCheckpoint {
                balance: (reservation.balance_while_reserved + released) as u128,
                eligible: (reservation.eligible_while_reserved + released) as u128,
                withheld_udrt: (ledger.withheld_udrt + charge) as u128,
                nonce: nonce_after,
            },
        })
    }
}

/// What planning a governance fee gives: the block meter afterwards, and the
/// plan or the error that ended it.
pub open spec fn governance_plan_spec(
    profile: FeeProfileV3,
    req: GovernanceRequest,
    ledger: GovernanceLedger,
    terms: ContractTerms,
    height: u64,
    index: u32,
    work: ActionWork,
    block: BlockMeterView,
) -> (BlockMeterView, Result<FeePlan, PlanError>) {
    match admission_spec(req, ledger, terms, height, work) {
        Err(e) => (block, Err(e)),
        Ok((nonce_after, reservation)) => match new_v3(profile, req.body, block) {
            Err((e, b)) => (b, Err(plan_error(e))),
            Ok(m0) => {
                let (m, r) = drive_spec(m0, work);
                match r {
                    Err(e) => (m.block, Err(plan_error(e))),
                    Ok(outcome) => match settle_spec(m) {
                        Err(e) => (m.block, Err(e)),
                        Ok(s) => (
                            m.block,
                            settlement_spec(profile, req, ledger, terms, height, index, nonce_after, reservation, outcome, s),
                        ),
                    },
                }
            },
        },
    }
}

proof fn lemma_reads_err_sticks(m: GovernanceMeterView, recs: Seq<LogicalRecord>, i: int)
    requires
        0 <= i <= recs.len(),
        reads_v3(m, recs.take(i)).1 is Err,
    ensures
        reads_v3(m, recs) == reads_v3(m, recs.take(i)),
    decreases recs.len() - i,
{
    if i < recs.len() {
        assert(recs.take(i + 1).drop_last() =~= recs.take(i));
        lemma_reads_err_sticks(m, recs, i + 1);
    } else {
        assert(recs.take(i) =~= recs);
    }
}

proof fn lemma_writes_err_sticks(m: GovernanceMeterView, recs: Seq<LogicalRecord>, i: int)
    requires
        0 <= i <= recs.len(),
        writes_v3(m, recs.take(i)).1 is Err,
    ensures
        writes_v3(m, recs) == writes_v3(m, recs.take(i)),
    decreases recs.len() - i,
{
    if i < recs.len() {
        assert(recs.take(i + 1).drop_last() =~= recs.take(i));
        lemma_writes_err_sticks(m, recs, i + 1);
    } else {
        assert(recs.take(i) =~= recs);
    }
}

fn check_admission(
    req: &GovernanceRequest,
    ledger: &GovernanceLedger,
    terms: &ContractTerms,
    height: u64,
    work: &ActionWork,
) -> (r: Result<(u64, FeeReservation), PlanError>)
    ensures
        r == admission_spec(*req, *ledger, *terms, height, *work),
{
    if height == 0 || ledger.staged_height != height {
        return Err(PlanError::Rejected("Governance staged recovery height differs"));
    }
    if !req.request_valid {
        return Err(PlanError::Rejected("signed v3 request differs from the fee profile"));
    }
    if !req.proof_matches {
        return Err(PlanError::Rejected("V3 signature proof differs from metered envelope"));
    }
    if height >= req.expiry_height || req.expiry_height - height > terms.max_expiry_lifetime {
        return Err(PlanError::Rejected("V3 transaction expired or exceeds lifetime"));
    }
    if !ledger.mirrors_valid {
        return Err(PlanError::Internal("Governance nonce mirrors differ from the recovery book"));
    }
    let bound = match ledger.account_count.checked_mul(2) {
        Some(b) => b,
        None => return Err(PlanError::Internal("Governance financial snapshot bound overflow")),
    };
    if ledger.nonce_count != ledger.account_count || ledger.balance_entries > bound || ledger.eligible_entries > bound {
        return Err(PlanError::Internal("Governance financial snapshot exceeds account bounds"));
    }
    if !ledger.eligible_consistent {
        return Err(PlanError::Internal("Governance eligible liquidity differs from balances"));
    }
    if !ledger.actor_registered || !crate::block_meter::digest_eq(&ledger.actor, &req.actor) {
        return Err(PlanError::Rejected("Unregistered governance actor"));
    }
    if !ledger.authority_matches {
        return Err(PlanError::Rejected("Governance account authority or nonce differs"));
    }
    let nonce_after = match req.spending_nonce.checked_add(1) {
        Some(n) => n,
        None => return Err(PlanError::Rejected("Governance spending nonce exhausted")),
    };
    if ledger.eligible > ledger.balance {
        return Err(PlanError::Internal("Governance fee eligible balance exceeds account balance"));
    }
    let cap = req.maximum_fee;
    if ledger.balance < cap {
        return Err(PlanError::Rejected("Insufficient uDRT balance for full signed fee cap"));
    }
    if ledger.eligible < cap {
        return Err(PlanError::Rejected("Insufficient eligible uDRT for full signed fee cap"));
    }
    if work.validation_reads.len() > 16 || work.action_reads.len() > 16 || work.proposed_writes.len() > 16 {
        return Err(PlanError::Rejected("Governance work trace exceeds record bound"));
    }
    Ok((
        nonce_after,
        FeeReservation {
            owner: req.actor,
            cap,
            balance_before: ledger.balance,
            eligible_before: ledger.eligible,
            balance_while_reserved: ledger.balance - cap,
            eligible_while_reserved: ledger.eligible - cap,
        },
    ))
}

fn run_reads(meter: &mut V3GovernanceMeter, recs: &Vec<LogicalRecord>) -> (r: Result<(), MeterError>)
    requires
        old(meter)@.wf(),
    ensures
        (final(meter)@, r) === reads_v3(old(meter)@, recs@),
        final(meter)@.wf(),
{
    let ghost m0 = meter@;
    let mut i: usize = 0;
    assert(recs@.take(0) =~= Seq::<LogicalRecord>::empty());
    while i < recs.len()
        invariant
            i <= recs@.len(),
            meter@.wf(),
            m0 == old(meter)@,
            (meter@, Ok::<(), MeterError>(())) === reads_v3(m0, recs@.take(i as int)),
        decreases recs@.len() - i,
    {
        proof {
            assert(recs@.take(i as int + 1).drop_last() =~= recs@.take(i as int));
            assert(recs@.take(i as int + 1).last() == recs@[i as int]);
        }
        match meter.read(&recs[i]) {
            Ok(()) => {},
            Err(e) => {
                proof { lemma_reads_err_sticks(m0, recs@, i as int + 1); }
                return Err(e);
            },
        }
        i = i + 1;
    }
    assert(recs@.take(i as int) =~= recs@);
    Ok(())
}

fn run_writes(meter: &mut V3GovernanceMeter, recs: &Vec<LogicalRecord>) -> (r: Result<(), MeterError>)
    requires
        old(meter)@.wf(),
    ensures
        (final(meter)@, r) === writes_v3(old(meter)@, recs@),
        final(meter)@.wf(),
{
    let ghost m0 = meter@;
    let mut i: usize = 0;
    assert(recs@.take(0) =~= Seq::<LogicalRecord>::empty());
    while i < recs.len()
        invariant
            i <= recs@.len(),
            meter@.wf(),
            m0 == old(meter)@,
            (meter@, Ok::<(), MeterError>(())) === writes_v3(m0, recs@.take(i as int)),
        decreases recs@.len() - i,
    {
        proof {
            assert(recs@.take(i as int + 1).drop_last() =~= recs@.take(i as int));
            assert(recs@.take(i as int + 1).last() == recs@[i as int]);
        }
        match meter.write(&recs[i]) {
            Ok(()) => {},
            Err(e) => {
                proof { lemma_writes_err_sticks(m0, recs@, i as int + 1); }
                return Err(e);
            },
        }
        i = i + 1;
    }
    assert(recs@.take(i as int) =~= recs@);
    Ok(())
}

fn run_work(meter: &mut V3GovernanceMeter, work: &ActionWork) -> (r: Result<Outcome, MeterError>)
    requires
        old(meter)@.wf(),
    ensures
        (final(meter)@, r) === drive_spec(old(meter)@, *work),
        final(meter)@.wf(),
{
    match meter.signature() {
        Ok(()) => {},
        Err(e) => return Err(e),
    }
    match run_reads(meter, &work.validation_reads) {
        Ok(()) => {},
        Err(e) => return Err(e),
    }
    match meter.accept() {
        Ok(()) => {},
        Err(e) => return Err(e),
    }
    match meter.action() {
        Ok(()) => {},
        Err(MeterError::AcceptedOutOfGas) => return Ok(Outcome::OutOfGas),
        Err(e) => return Err(e),
    }
    match run_reads(meter, &work.action_reads) {
        Ok(()) => {},
        Err(MeterError::AcceptedOutOfGas) => return Ok(Outcome::OutOfGas),
        Err(e) => return Err(e),
    }
    match run_writes(meter, &work.proposed_writes) {
        Ok(()) => {},
        Err(MeterError::AcceptedOutOfGas) => return Ok(Outcome::OutOfGas),
        Err(e) => return Err(e),
    }
    match work.end {
        ActionEnd::ApplicationFailure => Ok(Outcome::ApplicationFailure),
        ActionEnd::Applied => Ok(Outcome::Success),
    }
}

fn settle(
    profile: &FeeProfileV3,
    req: &GovernanceRequest,
    ledger: &GovernanceLedger,
    terms: &ContractTerms,
    height: u64,
    index: u32,
    nonce_after: u64,
    reservation: FeeReservation,
    outcome: Outcome,
    s: Summary,
) -> (r: Result<FeePlan, PlanError>)
    ensures
        r == settlement_spec(*profile, *req, *ledger, *terms, height, index, nonce_after, reservation, outcome, s),
{
    let oog = match outcome {
        Outcome::OutOfGas => true,
        _ => false,
    };
    if !s.accepted || s.action_count != 1 || s.metadata_gas != profile.base.receipt_metadata_cost
        || s.used_gas > req.body.gas_limit || s.exhausted != oog || (!oog && s.processed_actions != 1) {
        return Err(PlanError::Internal("V3 measured work differs from accepted outcome"));
    }
    let billed: u64 = if s.used_gas > profile.base.minimum_gas { s.used_gas } else { profile.base.minimum_gas };
    let charge = match (billed as u128).checked_mul(profile.base.gas_price as u128) {
        Some(c) => c,
        None => return Err(PlanError::Internal("V3 fee multiplication overflow")),
    };
    if charge > reservation.cap {
        return Err(PlanError::Internal("V3 charge exceeds signed reservation"));
    }
    let released = reservation.cap - charge;
    let balance = match reservation.balance_while_reserved.checked_add(released) {
        Some(b) => b,
        None => return Err(PlanError::Internal("V3 balance release overflow")),
    };
    let eligible = match reservation.eligible_while_reserved.checked_add(released) {
        Some(b) => b,
        None => return Err(PlanError::Internal("V3 eligible release overflow")),
    };
    let withheld = match ledger.withheld_udrt.checked_add(charge) {
        Some(w) => w,
        None => return Err(PlanError::Internal("V3 withheld fee custody overflow")),
    };
    let failure_code = match outcome {
        Outcome::Success => None,
        Outcome::ApplicationFailure => Some("GOVERNANCE_APPLICATION_FAILURE"),
        Outcome::OutOfGas => Some("OUT_OF_GAS"),
    };
    let disposition = match outcome {
        Outcome::Success => ActionDisposition::KeepProposed,
        _ => ActionDisposition::DiscardAll,
    };
    Ok(FeePlan {
        reservation,
        receipt: V3FeeReceipt {
            version: 2,
            transaction_id: req.transaction_id,
            envelope_hash: req.envelope_hash,
            actor: req.actor,
            block_height: height,
            block_index: index,
            contract_version: terms.contract_version,
            profile_version: terms.profile_version,
            profile_digest: terms.profile_digest,
            outcome,
            failure_code,
            gas_limit: req.body.gas_limit,
            gas_used: s.used_gas,
            metadata_gas: s.metadata_gas,
            reserved_cap: reservation.cap,
            charge,
            released_cap: released,
            nonce_before: req.spending_nonce,
            nonce_after,
        },
        disposition,
        checkpoint: FeeCheckpoint { balance, eligible, withheld_udrt: withheld, nonce: nonce_after },
    })
}

/// Plan the fee, nonce and receipt of one signed governance transaction:
/// check the request and the staged ledger, reserve the full signed cap,
/// meter the signature, reads, acceptance, action and writes against the
/// shared block, then charge the measured work and release the rest of the
/// cap. The block meter comes back in every case; after an error the caller
/// must discard the block plan.
pub fn plan_governance_fee(
    profile: &FeeProfileV3,
    req: &GovernanceRequest,
    ledger: &GovernanceLedger,
    terms: &ContractTerms,
    height: u64,
    index: u32,
    work: &ActionWork,
    block: SharedBlockMeter,
) -> (r: (Result<FeePlan, PlanError>, SharedBlockMeter))
    requires
        block@.wf(),
    ensures
        (r.1@, r.0) == governance_plan_spec(*profile, *req, *ledger, *terms, height, index, *work, block@),
{
    let (nonce_after, reservation) = match check_admission(req, ledger, terms, height, work) {
        Ok(a) => a,
        Err(e) => return (Err(e), block),
    };
    let mut meter = match V3GovernanceMeter::new(profile, &req.body, block) {
        Ok(m) => m,
        Err((e, b)) => return (Err(PlanError::from_meter(e)), b),
    };
    let outcome = match run_work(&mut meter, work) {
        Ok(o) => o,
        Err(e) => return (Err(PlanError::from_meter(e)), meter.into_block()),
    };
    let (settled, block) = meter.finish();
    let summary = match settled {
        Ok(s) => s,
        Err(e) => return (Err(PlanError::from_meter(e)), block),
    };
    let plan = settle(profile, req, ledger, terms, height, index, nonce_after, reservation, outcome, summary);
    (plan, block)
}

/// A governance fee moves value, never creates it. In every plan the charge
/// is the larger of used and minimum gas times the gas price and never
/// exceeds the signed cap; the actor's uDRT and eligible uDRT fall by exactly
/// the charge, custody rises by exactly the charge, the unused cap is
/// released, the nonce advances by one, and proposed effects are kept only
/// on success.
pub proof fn law_governance_fee_conserves(
    profile: FeeProfileV3,
    req: GovernanceRequest,
    ledger: GovernanceLedger,
    terms: ContractTerms,
    height: u64,
    index: u32,
    work: ActionWork,
    block: BlockMeterView,
)
    ensures
        governance_plan_spec(profile, req, ledger, terms, height, index, work, block).1 matches Ok(p) ==> {
            &&& p.receipt.charge == charge_of(profile, p.receipt.gas_used)
            &&& p.receipt.charge <= p.receipt.reserved_cap
            &&& p.receipt.reserved_cap == req.maximum_fee
            &&& p.receipt.released_cap + p.receipt.charge == p.receipt.reserved_cap
            &&& p.checkpoint.balance + p.receipt.charge == ledger.balance
            &&& p.checkpoint.eligible + p.receipt.charge == ledger.eligible
            &&& p.checkpoint.withheld_udrt == ledger.withheld_udrt + p.receipt.charge
            &&& p.receipt.nonce_before == req.spending_nonce
            &&& p.checkpoint.nonce == req.spending_nonce + 1
            &&& p.receipt.nonce_after == p.checkpoint.nonce
            &&& p.receipt.gas_used <= req.body.gas_limit
            &&& (p.disposition == ActionDisposition::KeepProposed <==> p.receipt.outcome == Outcome::Success)
            &&& (p.receipt.failure_code is None <==> p.receipt.outcome == Outcome::Success)
        },
{
}

/// A governance plan admits only a live, authorized, funded request: in
/// every plan the block height is the staged recovery height and before the
/// request's expiry, which lies no further ahead than the contract's
/// lifetime; the profile accepted the request and its proof binds the
/// metered envelope; the nonce mirrors agree; the actor's registered account
/// holds the signed authority; and its balance and eligible uDRT both cover
/// the full signed cap.
pub proof fn law_governance_plan_admits_only_live_requests(
    profile: FeeProfileV3,
    req: GovernanceRequest,
    ledger: GovernanceLedger,
    terms: ContractTerms,
    height: u64,
    index: u32,
    work: ActionWork,
    block: BlockMeterView,
)
    ensures
        governance_plan_spec(profile, req, ledger, terms, height, index, work, block).1 is Ok ==> {
            &&& height > 0 && ledger.staged_height == height
            &&& height < req.expiry_height
            &&& req.expiry_height - height <= terms.max_expiry_lifetime
            &&& req.request_valid && req.proof_matches
            &&& ledger.mirrors_valid
            &&& ledger.actor_registered && ledger.actor == req.actor && ledger.authority_matches
            &&& req.spending_nonce < u64::MAX
            &&& req.maximum_fee <= ledger.eligible <= ledger.balance
        },
{
    if governance_plan_spec(profile, req, ledger, terms, height, index, work, block).1 is Ok {
        assert(admission_spec(req, ledger, terms, height, work) is Ok);
        assert(ledger.actor@ == req.actor@);
        assert(ledger.actor =~= req.actor);
    }
}

} // verus!
