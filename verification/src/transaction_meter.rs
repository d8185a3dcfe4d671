//! Deterministic ordinary fee meter for one signed transaction. It has no
//! execution permit: the caller authenticates and then calls each increment
//! before the corresponding operation. Reads count once per logical key;
//! writes count the latest proposed representation of a key once. Rejection,
//! exhaustion and faults are terminal, and measured work stays in the block.
use vstd::prelude::*;
use vstd::utf8::encode_utf8;
use vstd::string::StringSliceAdditionalSpecFns;
use crate::block_meter::{
    add_spec, adjust_outcome, checked_add_u64, checked_mul_u64, mul_spec, BlockMeterView,
    FeeProfile, PriceEntry, ResourceUsage, SharedBlockMeter,
};
use crate::ordinary_meter::{LogicalRecord, MeterError};
use crate::record_keys::{key_views, position_of, seq_sum, to_vec, bytes_equal, lemma_seq_sum_push, lemma_seq_sum_update};

verus! {

/// The variant of an ordinary action, which selects its price.
#[derive(Clone, Copy, Debug, PartialEq, Eq, Structural)]
pub enum ActionKind {
    Send,
    Data,
    DmsRegister,
    DmsPing,
    DmsClaim,
    RewardBond,
    RewardBeginUnbond,
    RewardClaim,
    ValidatorRegister,
    ValidatorRotateKey,
    ValidatorExit,
    ValidatorWithdraw,
}

pub open spec fn action_tag_spec(a: ActionKind) -> int {
    match a {
        ActionKind::Send => 0,
        ActionKind::Data => 1,
        ActionKind::DmsRegister => 2,
        ActionKind::DmsPing => 3,
        ActionKind::DmsClaim => 4,
        ActionKind::RewardBond => 5,
        ActionKind::RewardBeginUnbond => 6,
        ActionKind::RewardClaim => 7,
        ActionKind::ValidatorRegister => 8,
        ActionKind::ValidatorRotateKey => 9,
        ActionKind::ValidatorExit => 10,
        ActionKind::ValidatorWithdraw => 11,
    }
}

/// Index of an action's price in the profile's action cost table.
pub fn action_tag(action: ActionKind) -> (r: usize)
    ensures
        r == action_tag_spec(action),
        r < 12,
{
    match action {
        ActionKind::Send => 0,
        ActionKind::Data => 1,
        ActionKind::DmsRegister => 2,
        ActionKind::DmsPing => 3,
        ActionKind::DmsClaim => 4,
        ActionKind::RewardBond => 5,
        ActionKind::RewardBeginUnbond => 6,
        ActionKind::RewardClaim => 7,
        ActionKind::ValidatorRegister => 8,
        ActionKind::ValidatorRotateKey => 9,
        ActionKind::ValidatorExit => 10,
        ActionKind::ValidatorWithdraw => 11,
    }
}

/// How the signed body encodes with a zero signature of its algorithm's size.
#[derive(Clone, Copy, Debug, PartialEq, Eq, Structural)]
pub enum WireEncoding {
    UnsupportedAlgorithm,
    OutsideLimits,
    Bytes(u64),
}

/// What the meter reads from a signed ordinary transaction body.
pub struct MeteredBody {
    pub gas_limit: u64,
    pub algorithm: String,
    pub actions: Vec<ActionKind>,
    pub wire: WireEncoding,
    /// Whether the profile accepts the signed gas limit and fee cap.
    pub request_valid: bool,
}

#[derive(Clone, Copy, Debug, PartialEq, Eq, Structural)]
pub enum Phase {
    Validation,
    Accepted,
    Rejected,
    Exhausted,
    Fault,
}

/// A price table as (UTF-8 algorithm name, cost) pairs.
pub open spec fn price_table(entries: Seq<PriceEntry>) -> Seq<(Seq<u8>, u64)> {
    entries.map_values(|e: PriceEntry| (encode_utf8(e.algorithm@), e.cost))
}

/// The price of `algorithm` (by its UTF-8 bytes): the first matching entry.
pub open spec fn price_lookup(table: Seq<(Seq<u8>, u64)>, algorithm: Seq<u8>) -> Option<u64>
    decreases table.len(),
{
    if table.len() == 0 {
        None
    } else if table[0].0 == algorithm {
        Some(table[0].1)
    } else {
        price_lookup(table.drop_first(), algorithm)
    }
}

pub open spec fn price_of_spec(entries: Seq<PriceEntry>, algorithm: Seq<u8>) -> Option<u64> {
    price_lookup(price_table(entries), algorithm)
}

pub fn price_of(entries: &Vec<PriceEntry>, algorithm: &str) -> (r: Option<u64>)
    ensures
        r == price_of_spec(entries@, algorithm.spec_bytes()),
{
    let alg = algorithm.as_bytes();
    let mut i: usize = 0;
    assert(entries@.skip(0) =~= entries@);
    while i < entries.len()
        invariant
            i <= entries@.len(),
            alg@ == algorithm.spec_bytes(),
            price_of_spec(entries@, alg@) == price_of_spec(entries@.skip(i as int), alg@),
            price_table(entries@).len() == entries@.len(),
        decreases entries@.len() - i,
    {
        assert(price_table(entries@.skip(i as int)).drop_first() =~= price_table(entries@.skip(i + 1)));
        assert(price_table(entries@.skip(i as int))[0] == price_table(entries@)[i as int]);
        let name = entries[i].algorithm.as_str().as_bytes();
        if bytes_equal(name, alg) {
            return Some(entries[i].cost);
        }
        i = i + 1;
    }
    assert(entries@.skip(i as int).len() == 0);
    None
}

fn copy_prices(entries: &Vec<PriceEntry>) -> (r: Vec<PriceEntry>)
    ensures
        price_table(r@) == price_table(entries@),
        r@.len() == entries@.len(),
        forall|i: int| 0 <= i < r@.len() ==> #[trigger] r@[i].algorithm@ == entries@[i].algorithm@
            && r@[i].cost == entries@[i].cost,
{
    let mut out: Vec<PriceEntry> = Vec::new();
    let mut i: usize = 0;
    while i < entries.len()
        invariant
            i <= entries@.len(),
            out@.len() == i,
            forall|j: int| 0 <= j < i ==> #[trigger] out@[j].algorithm@ == entries@[j].algorithm@
                && out@[j].cost == entries@[j].cost,
        decreases entries@.len() - i,
    {
        let name = entries[i].algorithm.clone();
        out.push(PriceEntry { algorithm: name, cost: entries[i].cost });
        i = i + 1;
    }
    assert(price_table(out@) =~= price_table(entries@));
    out
}

/// Totals that a settled transaction meter reports.
#[derive(Clone, Debug, PartialEq, Eq, Structural)]
pub struct MeterSummary {
    used_gas: u64,
    gas_limit: u64,
    metadata_gas: u64,
    accepted: bool,
    exhausted: bool,
    processed_actions: u16,
    action_count: u16,
}

impl MeterSummary {
    pub closed spec fn spec_used_gas(&self) -> u64 {
        self.used_gas
    }

    pub closed spec fn spec_gas_limit(&self) -> u64 {
        self.gas_limit
    }

    pub closed spec fn spec_metadata_gas(&self) -> u64 {
        self.metadata_gas
    }

    pub closed spec fn spec_accepted(&self) -> bool {
        self.accepted
    }

    pub closed spec fn spec_exhausted(&self) -> bool {
        self.exhausted
    }

    pub closed spec fn spec_processed_actions(&self) -> u16 {
        self.processed_actions
    }

    pub closed spec fn spec_action_count(&self) -> u16 {
        self.action_count
    }

    pub fn used_gas(&self) -> (r: u64)
        ensures
            r == self.spec_used_gas(),
    {
        self.used_gas
    }

    pub fn gas_limit(&self) -> (r: u64)
        ensures
            r == self.spec_gas_limit(),
    {
        self.gas_limit
    }

    pub fn metadata_gas(&self) -> (r: u64)
        ensures
            r == self.spec_metadata_gas(),
    {
        self.metadata_gas
    }

    pub fn accepted(&self) -> (r: bool)
        ensures
            r == self.spec_accepted(),
    {
        self.accepted
    }

    pub fn exhausted(&self) -> (r: bool)
        ensures
            r == self.spec_exhausted(),
    {
        self.exhausted
    }

    pub fn processed_actions(&self) -> (r: u16)
        ensures
            r == self.spec_processed_actions(),
    {
        self.processed_actions
    }

    pub fn action_count(&self) -> (r: u16)
        ensures
            r == self.spec_action_count(),
    {
        self.action_count
    }
}

/// The mathematical state of an ordinary transaction meter.
pub struct OrdinaryMeterView {
    pub block: BlockMeterView,
    pub limit: u64,
    pub phase: Phase,
    pub usage: ResourceUsage,
    pub base_gas: u64,
    pub write_gas: u64,
    pub metadata: u64,
    pub read_keys: Seq<Seq<u8>>,
    pub write_keys: Seq<Seq<u8>>,
    pub write_costs: Seq<u64>,
    pub actions: Seq<ActionKind>,
    pub next_action: u16,
    pub proofs: Seq<u16>,
    pub next_proof: nat,
    pub signature: bool,
    pub signature_price: Option<u64>,
    pub proof_costs: Seq<(Seq<u8>, u64)>,
    pub read_price: u64,
    pub write_price: u64,
    pub metadata_price: u64,
    pub action_costs: Seq<u64>,
}

pub open spec fn is_live(p: Phase) -> bool {
    p == Phase::Validation || p == Phase::Accepted
}

pub open spec fn keys_unique(keys: Seq<Seq<u8>>) -> bool {
    forall|i: int, j: int| 0 <= i < j < keys.len() ==> keys[i] != keys[j]
}

impl OrdinaryMeterView {
    pub open spec fn wf(self) -> bool {
        &&& self.block.wf()
        &&& self.usage.gas <= self.block.usage.gas
        &&& self.usage.bytes <= self.block.usage.bytes
        &&& self.usage.signatures <= self.block.usage.signatures
        &&& is_live(self.phase) ==> self.usage.gas == self.base_gas + self.write_gas
            + self.metadata && self.usage.gas <= self.limit
        &&& self.write_gas == seq_sum(self.write_costs)
        &&& self.write_keys.len() == self.write_costs.len()
        &&& keys_unique(self.write_keys)
        &&& self.next_action <= self.actions.len() <= u16::MAX
        &&& self.next_proof <= self.proofs.len()
        &&& self.action_costs.len() == 12
    }

    pub open spec fn faulted(self) -> OrdinaryMeterView {
        OrdinaryMeterView { phase: Phase::Fault, ..self }
    }

    /// The cost currently recorded for a proposed write of `key`.
    pub open spec fn written_cost(self, key: Seq<u8>) -> u64 {
        if self.write_keys.contains(key) {
            self.write_costs[self.write_keys.index_of(key)]
        } else {
            0
        }
    }
}

/// Record new totals in the meter and the block, or end the meter.
pub open spec fn update_outcome(
    m: OrdinaryMeterView,
    base: u64,
    writes: u64,
    metadata: u64,
    bytes: u64,
    signatures: u64,
) -> (OrdinaryMeterView, Result<(), MeterError>) {
    if !is_live(m.phase) {
        (m, Err(MeterError::Internal("terminal meter cannot resume")))
    } else if base + writes > u64::MAX || base + writes + metadata > u64::MAX {
        (m.faulted(), Err(MeterError::Internal("meter addition overflow")))
    } else {
        let total = (base + writes + metadata) as u64;
        let over = total > m.limit;
        let gas = if over && m.phase == Phase::Accepted {
            m.limit
        } else {
            total
        };
        let next = ResourceUsage { gas, bytes, signatures };
        let (block, r) = adjust_outcome(m.block, m.usage, next);
        match r {
            Err(e) => (OrdinaryMeterView { block, phase: Phase::Fault, ..m }, Err(e)),
            Ok(_) => if over {
                if m.phase == Phase::Accepted {
                    (
                        OrdinaryMeterView { block, usage: next, phase: Phase::Exhausted, ..m },
                        Err(MeterError::AcceptedOutOfGas),
                    )
                } else {
                    (
                        OrdinaryMeterView { block, usage: next, phase: Phase::Rejected, ..m },
                        Err(MeterError::PreAcceptanceRejected("validation gas exceeds signed limit")),
                    )
                }
            } else {
                (
                    OrdinaryMeterView {
                        block,
                        usage: next,
                        base_gas: base,
                        write_gas: writes,
                        metadata,
                        ..m
                    },
                    Ok(()),
                )
            },
        }
    }
}

/// Internal errors and block capacity end the meter and fault the block.
pub open spec fn settle_error(m: OrdinaryMeterView, r: Result<(), MeterError>) -> (
    OrdinaryMeterView,
    Result<(), MeterError>,
) {
    match r {
        Err(MeterError::Internal(_)) | Err(MeterError::BlockCapacity) => (
            OrdinaryMeterView { phase: Phase::Fault, block: m.block.with_fault(), ..m },
            r,
        ),
        _ => (m, r),
    }
}

pub open spec fn order_fault(m: OrdinaryMeterView, message: &'static str) -> (
    OrdinaryMeterView,
    Result<(), MeterError>,
) {
    (m.faulted(), Err(MeterError::Internal(message)))
}

pub open spec fn signature_inner(m: OrdinaryMeterView) -> (OrdinaryMeterView, Result<(), MeterError>) {
    if !is_live(m.phase) {
        (m, Err(MeterError::Internal("terminal meter cannot resume")))
    } else if m.phase != Phase::Validation || m.signature {
        order_fault(m, "ordinary signature phase/order mismatch")
    } else {
        match m.signature_price {
            None => (m, Err(MeterError::Internal("ordinary signature cost missing"))),
            Some(price) => match add_spec(m.base_gas, price) {
                Err(e) => (m, Err(e)),
                Ok(base) => match add_spec(m.usage.signatures, 1) {
                    Err(e) => (m, Err(e)),
                    Ok(sigs) => {
                        let (m2, r) = update_outcome(
                            m,
                            base,
                            m.write_gas,
                            m.metadata,
                            m.usage.bytes,
                            sigs,
                        );
                        if r is Ok {
                            (OrdinaryMeterView { signature: true, ..m2 }, r)
                        } else {
                            (m2, r)
                        }
                    },
                },
            },
        }
    }
}

pub open spec fn proof_inner(m: OrdinaryMeterView, index: u16, algorithm: Seq<u8>) -> (
    OrdinaryMeterView,
    Result<(), MeterError>,
) {
    if !is_live(m.phase) {
        (m, Err(MeterError::Internal("terminal meter cannot resume")))
    } else if m.phase != Phase::Validation || !m.signature || m.next_proof >= m.proofs.len()
        || m.proofs[m.next_proof as int] != index {
        order_fault(m, "validator proof phase/order mismatch")
    } else {
        match price_lookup(m.proof_costs, algorithm) {
            None => (
                OrdinaryMeterView { phase: Phase::Rejected, ..m },
                Err(MeterError::PreAcceptanceRejected("proof algorithm outside explicit profile")),
            ),
            Some(price) => match add_spec(m.base_gas, price) {
                Err(e) => (m, Err(e)),
                Ok(base) => match add_spec(m.usage.signatures, 1) {
                    Err(e) => (m, Err(e)),
                    Ok(sigs) => {
                        let (m2, r) = update_outcome(
                            m,
                            base,
                            m.write_gas,
                            m.metadata,
                            m.usage.bytes,
                            sigs,
                        );
                        if r is Ok {
                            (OrdinaryMeterView { next_proof: m.next_proof + 1, ..m2 }, r)
                        } else {
                            (m2, r)
                        }
                    },
                },
            },
        }
    }
}

pub open spec fn read_inner(m: OrdinaryMeterView, key: Seq<u8>, len: u64) -> (
    OrdinaryMeterView,
    Result<(), MeterError>,
) {
    if !is_live(m.phase) {
        (m, Err(MeterError::Internal("terminal meter cannot resume")))
    } else if m.read_keys.contains(key) {
        (m, Ok(()))
    } else {
        match mul_spec(len, m.read_price) {
            Err(e) => (m, Err(e)),
            Ok(cost) => match add_spec(m.base_gas, cost) {
                Err(e) => (m, Err(e)),
                Ok(base) => {
                    let (m2, r) = update_outcome(
                        m,
                        base,
                        m.write_gas,
                        m.metadata,
                        m.usage.bytes,
                        m.usage.signatures,
                    );
                    if r is Ok {
                        (OrdinaryMeterView { read_keys: m.read_keys.push(key), ..m2 }, r)
                    } else {
                        (m2, r)
                    }
                },
            },
        }
    }
}

pub open spec fn accept_inner(m: OrdinaryMeterView) -> (OrdinaryMeterView, Result<(), MeterError>) {
    if !is_live(m.phase) {
        (m, Err(MeterError::Internal("terminal meter cannot resume")))
    } else if m.phase != Phase::Validation || !m.signature || m.next_proof != m.proofs.len() {
        order_fault(m, "acceptance before complete signature metering")
    } else {
        let (m2, r) = update_outcome(
            m,
            m.base_gas,
            m.write_gas,
            m.metadata_price,
            m.usage.bytes,
            m.usage.signatures,
        );
        if r is Ok {
            (OrdinaryMeterView { phase: Phase::Accepted, ..m2 }, r)
        } else {
            (m2, r)
        }
    }
}

pub open spec fn action_inner(m: OrdinaryMeterView, index: u16) -> (
    OrdinaryMeterView,
    Result<(), MeterError>,
) {
    if !is_live(m.phase) {
        (m, Err(MeterError::Internal("terminal meter cannot resume")))
    } else if m.phase != Phase::Accepted || index != m.next_action || index >= m.actions.len() {
        order_fault(m, "ordinary action phase/order mismatch")
    } else {
        let price = m.action_costs[action_tag_spec(m.actions[index as int])];
        match add_spec(m.base_gas, price) {
            Err(e) => (m, Err(e)),
            Ok(base) => {
                let (m2, r) = update_outcome(
                    m,
                    base,
                    m.write_gas,
                    m.metadata,
                    m.usage.bytes,
                    m.usage.signatures,
                );
                if r is Ok {
                    (OrdinaryMeterView { next_action: (m.next_action + 1) as u16, ..m2 }, r)
                } else {
                    (m2, r)
                }
            },
        }
    }
}

pub open spec fn record_write(m: OrdinaryMeterView, key: Seq<u8>, cost: u64) -> OrdinaryMeterView {
    if m.write_keys.contains(key) {
        OrdinaryMeterView {
            write_costs: m.write_costs.update(m.write_keys.index_of(key), cost),
            ..m
        }
    } else {
        OrdinaryMeterView {
            write_keys: m.write_keys.push(key),
            write_costs: m.write_costs.push(cost),
            ..m
        }
    }
}

pub open spec fn write_inner(m: OrdinaryMeterView, key: Seq<u8>, len: u64) -> (
    OrdinaryMeterView,
    Result<(), MeterError>,
) {
    if !is_live(m.phase) {
        (m, Err(MeterError::Internal("terminal meter cannot resume")))
    } else if m.phase != Phase::Accepted || m.next_action == 0 {
        order_fault(m, "write before accepted action")
    } else {
        match mul_spec(len, m.write_price) {
            Err(e) => (m, Err(e)),
            Ok(cost) => {
                let prior = m.written_cost(key);
                if m.write_gas < prior {
                    (m, Err(MeterError::Internal("write meter invariant")))
                } else {
                    match add_spec((m.write_gas - prior) as u64, cost) {
                        Err(e) => (m, Err(e)),
                        Ok(proposed) => {
                            let (m2, r) = update_outcome(
                                m,
                                m.base_gas,
                                proposed,
                                m.metadata,
                                m.usage.bytes,
                                m.usage.signatures,
                            );
                            if r is Ok {
                                (record_write(m2, key, cost), r)
                            } else {
                                (m2, r)
                            }
                        },
                    }
                }
            },
        }
    }
}

/// Exclusive ownership of the block meter prevents copying or resetting a
/// transaction's resource ownership; `finish` hands the block back.
pub struct OrdinaryMeter {
    block: SharedBlockMeter,
    limit: u64,
    phase: Phase,
    usage: ResourceUsage,
    base_gas: u64,
    write_gas: u64,
    metadata: u64,
    read_keys: Vec<Vec<u8>>,
    write_keys: Vec<Vec<u8>>,
    write_costs: Vec<u64>,
    actions: Vec<ActionKind>,
    next_action: u16,
    proofs: Vec<u16>,
    next_proof: usize,
    signature: bool,
    signature_price: Option<u64>,
    proof_costs: Vec<PriceEntry>,
    read_price: u64,
    write_price: u64,
    metadata_price: u64,
    action_costs: [u64; 12],
}

impl View for OrdinaryMeter {
    type V = OrdinaryMeterView;

    closed spec fn view(&self) -> OrdinaryMeterView {
        OrdinaryMeterView {
            block: self.block@,
            limit: self.limit,
            phase: self.phase,
            usage: self.usage,
            base_gas: self.base_gas,
            write_gas: self.write_gas,
            metadata: self.metadata,
            read_keys: key_views(self.read_keys@),
            write_keys: key_views(self.write_keys@),
            write_costs: self.write_costs@,
            actions: self.actions@,
            next_action: self.next_action,
            proofs: self.proofs@,
            next_proof: self.next_proof as nat,
            signature: self.signature,
            signature_price: self.signature_price,
            proof_costs: price_table(self.proof_costs@),
            read_price: self.read_price,
            write_price: self.write_price,
            metadata_price: self.metadata_price,
            action_costs: self.action_costs@,
        }
    }
}

pub open spec fn needs_proof(a: ActionKind) -> bool {
    a == ActionKind::ValidatorRegister || a == ActionKind::ValidatorRotateKey
}

/// Positions of the actions that carry a validator proof, in order.
pub open spec fn proof_indices(actions: Seq<ActionKind>) -> Seq<u16>
    decreases actions.len(),
{
    if actions.len() == 0 {
        Seq::empty()
    } else {
        let p = proof_indices(actions.drop_last());
        if needs_proof(actions.last()) {
            p.push((actions.len() - 1) as u16)
        } else {
            p
        }
    }
}

/// The state of a fresh meter for `body` before any work is recorded.
pub open spec fn initial_view(profile: FeeProfile, body: MeteredBody, block: BlockMeterView) -> OrdinaryMeterView {
    OrdinaryMeterView {
        block,
        limit: body.gas_limit,
        phase: Phase::Validation,
        usage: ResourceUsage { gas: 0, bytes: 0, signatures: 0 },
        base_gas: 0,
        write_gas: 0,
        metadata: 0,
        read_keys: Seq::empty(),
        write_keys: Seq::empty(),
        write_costs: Seq::empty(),
        actions: body.actions@,
        next_action: 0,
        proofs: proof_indices(body.actions@),
        next_proof: 0,
        signature: false,
        signature_price: price_of_spec(profile.signature_costs@, encode_utf8(body.algorithm@)),
        proof_costs: price_table(profile.validator_proof_costs@),
        read_price: profile.read_byte_cost,
        write_price: profile.write_byte_cost,
        metadata_price: profile.receipt_metadata_cost,
        action_costs: profile.action_costs@,
    }
}

/// The meter that `OrdinaryMeter::new` opens, or the error and the block it hands back.
pub open spec fn new_outcome(profile: FeeProfile, body: MeteredBody, block: BlockMeterView) -> Result<
    OrdinaryMeterView,
    (MeterError, BlockMeterView),
> {
    if !profile.valid {
        Err((MeterError::Internal("invalid ordinary fee profile"), block))
    } else if block.faulted || profile.digest@ != block.profile_digest {
        Err((MeterError::Internal("block fee profile differs or block is faulted"), block))
    } else {
        match body.wire {
            WireEncoding::UnsupportedAlgorithm => Err(
                (MeterError::PreAcceptanceRejected("unsupported account algorithm"), block),
            ),
            WireEncoding::OutsideLimits => Err(
                (MeterError::PreAcceptanceRejected("ordinary body outside selected limits"), block),
            ),
            WireEncoding::Bytes(n) => match mul_spec(n, profile.wire_byte_cost) {
                Err(e) => Err((e, block)),
                Ok(wire_gas) => match add_spec(wire_gas, profile.transaction_overhead) {
                    Err(e) => Err((e, block)),
                    Ok(initial) => {
                        let (m, r) = update_outcome(
                            initial_view(profile, body, block),
                            initial,
                            0,
                            0,
                            n,
                            0,
                        );
                        match r {
                            Err(e) => Err((e, m.block)),
                            Ok(_) => if !body.request_valid {
                                Err(
                                    (
                                        MeterError::PreAcceptanceRejected("invalid signed gas or cap"),
                                        m.block,
                                    ),
                                )
                            } else {
                                Ok(m)
                            },
                        }
                    },
                },
            },
        }
    }
}

/// Whether `s` reports the totals of a meter in state `m`.
pub open spec fn summarizes(s: MeterSummary, m: OrdinaryMeterView) -> bool {
    &&& s.spec_used_gas() == m.usage.gas
    &&& s.spec_gas_limit() == m.limit
    &&& s.spec_metadata_gas() == m.metadata
    &&& s.spec_accepted() == (m.phase == Phase::Accepted || m.phase == Phase::Exhausted)
    &&& s.spec_exhausted() == (m.phase == Phase::Exhausted)
    &&& s.spec_processed_actions() == m.next_action
    &&& s.spec_action_count() == m.actions.len() as u16
}

fn proof_positions(actions: &Vec<ActionKind>) -> (r: Vec<u16>)
    ensures
        r@ == proof_indices(actions@),
{
    let mut out: Vec<u16> = Vec::new();
    let mut i: usize = 0;
    while i < actions.len()
        invariant
            i <= actions@.len(),
            out@ == proof_indices(actions@.take(i as int)),
        decreases actions@.len() - i,
    {
        assert(actions@.take(i + 1).drop_last() =~= actions@.take(i as int));
        let a = actions[i];
        if a == ActionKind::ValidatorRegister || a == ActionKind::ValidatorRotateKey {
            out.push(i as u16);
        }
        i = i + 1;
    }
    assert(actions@.take(actions@.len() as int) =~= actions@);
    out
}

fn copy_actions(actions: &Vec<ActionKind>) -> (r: Vec<ActionKind>)
    ensures
        r@ == actions@,
{
    let mut out: Vec<ActionKind> = Vec::new();
    let mut i: usize = 0;
    while i < actions.len()
        invariant
            i <= actions@.len(),
            out@ == actions@.take(i as int),
        decreases actions@.len() - i,
    {
        out.push(actions[i]);
        i = i + 1;
        assert(out@ =~= actions@.take(i as int));
    }
    assert(actions@.take(actions@.len() as int) =~= actions@);
    out
}

impl OrdinaryMeter {
    /// Open the meter for one signed body and charge its wire bytes and
    /// transaction overhead to the block. On error the block comes back,
    /// keeping whatever work was already charged.
    pub fn new(profile: &FeeProfile, body: &MeteredBody, block: SharedBlockMeter) -> (r: Result<
        OrdinaryMeter,
        (MeterError, SharedBlockMeter),
    >)
        requires
            block@.wf(),
            body.actions@.len() <= u16::MAX,
        ensures
            match (r, new_outcome(*profile, *body, block@)) {
                (Ok(m), Ok(v)) => m@ == v && m@.wf(),
                (Err((e, b)), Err((e2, v))) => e == e2 && b@ == v && b@.wf(),
                _ => false,
            },
    {
        if !profile.valid {
            return Err((MeterError::Internal("invalid ordinary fee profile"), block));
        }
        if block.is_faulted() || !block.profile_matches(&profile.digest) {
            return Err((MeterError::Internal("block fee profile differs or block is faulted"), block));
        }
        let bytes = match body.wire {
            WireEncoding::UnsupportedAlgorithm => {
                return Err(
                    (MeterError::PreAcceptanceRejected("unsupported account algorithm"), block),
                );
            },
            WireEncoding::OutsideLimits => {
                return Err(
                    (
                        MeterError::PreAcceptanceRejected("ordinary body outside selected limits"),
                        block,
                    ),
                );
            },
            WireEncoding::Bytes(n) => n,
        };
        let wire_gas = match checked_mul_u64(bytes, profile.wire_byte_cost) {
            Ok(v) => v,
            Err(e) => return Err((e, block)),
        };
        let initial = match checked_add_u64(wire_gas, profile.transaction_overhead) {
            Ok(v) => v,
            Err(e) => return Err((e, block)),
        };
        let mut meter = OrdinaryMeter {
            block,
            limit: body.gas_limit,
            phase: Phase::Validation,
            usage: ResourceUsage { gas: 0, bytes: 0, signatures: 0 },
            base_gas: 0,
            write_gas: 0,
            metadata: 0,
            read_keys: Vec::new(),
            write_keys: Vec::new(),
            write_costs: Vec::new(),
            actions: copy_actions(&body.actions),
            next_action: 0,
            proofs: proof_positions(&body.actions),
            next_proof: 0,
            signature: false,
            signature_price: price_of(&profile.signature_costs, body.algorithm.as_str()),
            proof_costs: copy_prices(&profile.validator_proof_costs),
            read_price: profile.read_byte_cost,
            write_price: profile.write_byte_cost,
            metadata_price: profile.receipt_metadata_cost,
            action_costs: profile.action_costs,
        };
        assert(key_views(meter.read_keys@) =~= Seq::<Seq<u8>>::empty());
        assert(key_views(meter.write_keys@) =~= Seq::<Seq<u8>>::empty());
        assert(meter@ == initial_view(*profile, *body, meter.block@));
        let res = meter.update(initial, 0, 0, bytes, 0);
        match res {
            Err(e) => {
                return Err((e, meter.block));
            },
            Ok(()) => {},
        }
        if !body.request_valid {
            return Err((MeterError::PreAcceptanceRejected("invalid signed gas or cap"), meter.block));
        }
        Ok(meter)
    }

    fn update(&mut self, base: u64, writes: u64, metadata: u64, bytes: u64, signatures: u64) -> (r:
        Result<(), MeterError>)
        requires
            old(self)@.block.wf(),
            old(self)@.usage.gas <= old(self)@.block.usage.gas,
            old(self)@.usage.bytes <= old(self)@.block.usage.bytes,
            old(self)@.usage.signatures <= old(self)@.block.usage.signatures,
        ensures
            (final(self)@, r) === update_outcome(old(self)@, base, writes, metadata, bytes, signatures),
            final(self)@.block.wf(),
            final(self)@.usage.gas <= final(self)@.block.usage.gas,
            final(self)@.usage.bytes <= final(self)@.block.usage.bytes,
            final(self)@.usage.signatures <= final(self)@.block.usage.signatures,
    {
        if !(self.phase == Phase::Validation || self.phase == Phase::Accepted) {
            return Err(MeterError::Internal("terminal meter cannot resume"));
        }
        let partial = match checked_add_u64(base, writes) {
            Ok(v) => v,
            Err(e) => {
                self.phase = Phase::Fault;
                return Err(e);
            },
        };
        let total = match checked_add_u64(partial, metadata) {
            Ok(v) => v,
            Err(e) => {
                self.phase = Phase::Fault;
                return Err(e);
            },
        };
        let over = total > self.limit;
        let gas = if over && self.phase == Phase::Accepted {
            self.limit
        } else {
            total
        };
        let next = ResourceUsage { gas, bytes, signatures };
        let adjusted = self.block.adjust(self.usage, next);
        match adjusted {
            Err(e) => {
                self.phase = Phase::Fault;
                return Err(e);
            },
            Ok(()) => {},
        }
        self.usage = next;
        if over {
            if self.phase == Phase::Accepted {
                self.phase = Phase::Exhausted;
                return Err(MeterError::AcceptedOutOfGas);
            }
            self.phase = Phase::Rejected;
            return Err(MeterError::PreAcceptanceRejected("validation gas exceeds signed limit"));
        }
        self.base_gas = base;
        self.write_gas = writes;
        self.metadata = metadata;
        Ok(())
    }

    fn settle(&mut self, result: Result<(), MeterError>) -> (r: Result<(), MeterError>)
        requires
            old(self)@.wf(),
        ensures
            (final(self)@, r) === settle_error(old(self)@, result),
            final(self)@.wf(),
    {
        match result {
            Err(MeterError::Internal(_)) | Err(MeterError::BlockCapacity) => {
                self.phase = Phase::Fault;
                self.block.fault();
            },
            _ => {},
        }
        result
    }

    fn signature_step(&mut self) -> (r: Result<(), MeterError>)
        requires
            old(self)@.wf(),
        ensures
            (final(self)@, r) === signature_inner(old(self)@),
            final(self)@.wf(),
    {
        if !(self.phase == Phase::Validation || self.phase == Phase::Accepted) {
            return Err(MeterError::Internal("terminal meter cannot resume"));
        }
        if self.phase != Phase::Validation || self.signature {
            self.phase = Phase::Fault;
            return Err(MeterError::Internal("ordinary signature phase/order mismatch"));
        }
        let price = match self.signature_price {
            Some(p) => p,
            None => return Err(MeterError::Internal("ordinary signature cost missing")),
        };
        let base = match checked_add_u64(self.base_gas, price) {
            Ok(v) => v,
            Err(e) => return Err(e),
        };
        let sigs = match checked_add_u64(self.usage.signatures, 1) {
            Ok(v) => v,
            Err(e) => return Err(e),
        };
        let r = self.update(base, self.write_gas, self.metadata, self.usage.bytes, sigs);
        if r.is_ok() {
            self.signature = true;
        }
        r
    }

    /// Count the account signature check. This measures work; it does not authenticate.
    pub fn ordinary_signature(&mut self) -> (r: Result<(), MeterError>)
        requires
            old(self)@.wf(),
        ensures
            (final(self)@, r) === settle_error(signature_inner(old(self)@).0, signature_inner(old(self)@).1),
            final(self)@.wf(),
    {
        let result = self.signature_step();
        self.settle(result)
    }

    fn proof_step(&mut self, index: u16, algorithm: &str) -> (r: Result<(), MeterError>)
        requires
            old(self)@.wf(),
        ensures
            (final(self)@, r) === proof_inner(old(self)@, index, algorithm.spec_bytes()),
            final(self)@.wf(),
    {
        if !(self.phase == Phase::Validation || self.phase == Phase::Accepted) {
            return Err(MeterError::Internal("terminal meter cannot resume"));
        }
        if self.phase != Phase::Validation || !self.signature || self.next_proof >= self.proofs.len()
            || self.proofs[self.next_proof] != index {
            self.phase = Phase::Fault;
            return Err(MeterError::Internal("validator proof phase/order mismatch"));
        }
        let price = match price_of(&self.proof_costs, algorithm) {
            Some(p) => p,
            None => {
                self.phase = Phase::Rejected;
                return Err(MeterError::PreAcceptanceRejected("proof algorithm outside explicit profile"));
            },
        };
        let base = match checked_add_u64(self.base_gas, price) {
            Ok(v) => v,
            Err(e) => return Err(e),
        };
        let sigs = match checked_add_u64(self.usage.signatures, 1) {
            Ok(v) => v,
            Err(e) => return Err(e),
        };
        let r = self.update(base, self.write_gas, self.metadata, self.usage.bytes, sigs);
        if r.is_ok() {
            self.next_proof = self.next_proof + 1;
        }
        r
    }

    /// Count the validator proof of the action at `index`, in action order.
    pub fn validator_proof(&mut self, index: u16, algorithm: &str) -> (r: Result<(), MeterError>)
        requires
            old(self)@.wf(),
        ensures
            (final(self)@, r) === settle_error(
                proof_inner(old(self)@, index, algorithm.spec_bytes()).0,
                proof_inner(old(self)@, index, algorithm.spec_bytes()).1,
            ),
            final(self)@.wf(),
    {
        let result = self.proof_step(index, algorithm);
        self.settle(result)
    }

    fn read_step(&mut self, record: &LogicalRecord) -> (r: Result<(), MeterError>)
        requires
            old(self)@.wf(),
        ensures
            (final(self)@, r) === read_inner(old(self)@, record.key_view(), record.bytes_view().len() as u64),
            final(self)@.wf(),
    {
        if !(self.phase == Phase::Validation || self.phase == Phase::Accepted) {
            return Err(MeterError::Internal("terminal meter cannot resume"));
        }
        let key = record.key();
        match position_of(&self.read_keys, key) {
            Some(_) => return Ok(()),
            None => {},
        }
        let cost = match checked_mul_u64(record.byte_len(), self.read_price) {
            Ok(v) => v,
            Err(e) => return Err(e),
        };
        let base = match checked_add_u64(self.base_gas, cost) {
            Ok(v) => v,
            Err(e) => return Err(e),
        };
        let r = self.update(base, self.write_gas, self.metadata, self.usage.bytes, self.usage.signatures);
        if r.is_ok() {
            let k = to_vec(key);
            self.read_keys.push(k);
            assert(key_views(self.read_keys@) =~= key_views(old(self).read_keys@).push(key@));
        }
        r
    }

    /// Count one logical state read; a key already read costs nothing more.
    pub fn read(&mut self, record: &LogicalRecord) -> (r: Result<(), MeterError>)
        requires
            old(self)@.wf(),
        ensures
            (final(self)@, r) === settle_error(
                read_inner(old(self)@, record.key_view(), record.bytes_view().len() as u64).0,
                read_inner(old(self)@, record.key_view(), record.bytes_view().len() as u64).1,
            ),
            final(self)@.wf(),
    {
        let result = self.read_step(record);
        self.settle(result)
    }

    fn accept_step(&mut self) -> (r: Result<(), MeterError>)
        requires
            old(self)@.wf(),
        ensures
            (final(self)@, r) === accept_inner(old(self)@),
            final(self)@.wf(),
    {
        if !(self.phase == Phase::Validation || self.phase == Phase::Accepted) {
            return Err(MeterError::Internal("terminal meter cannot resume"));
        }
        if self.phase != Phase::Validation || !self.signature || self.next_proof != self.proofs.len() {
            self.phase = Phase::Fault;
            return Err(MeterError::Internal("acceptance before complete signature metering"));
        }
        let r = self.update(self.base_gas, self.write_gas, self.metadata_price, self.usage.bytes, self.usage.signatures);
        if r.is_ok() {
            self.phase = Phase::Accepted;
        }
        r
    }

    /// Accept the transaction for fee charging: receipt metadata gas is charged.
    pub fn accept(&mut self) -> (r: Result<(), MeterError>)
        requires
            old(self)@.wf(),
        ensures
            (final(self)@, r) === settle_error(accept_inner(old(self)@).0, accept_inner(old(self)@).1),
            final(self)@.wf(),
    {
        let result = self.accept_step();
        self.settle(result)
    }

    fn action_step(&mut self, index: u16) -> (r: Result<(), MeterError>)
        requires
            old(self)@.wf(),
        ensures
            (final(self)@, r) === action_inner(old(self)@, index),
            final(self)@.wf(),
    {
        if !(self.phase == Phase::Validation || self.phase == Phase::Accepted) {
            return Err(MeterError::Internal("terminal meter cannot resume"));
        }
        if self.phase != Phase::Accepted || index != self.next_action || index as usize >= self.actions.len() {
            self.phase = Phase::Fault;
            return Err(MeterError::Internal("ordinary action phase/order mismatch"));
        }
        let price = self.action_costs[action_tag(self.actions[index as usize])];
        let base = match checked_add_u64(self.base_gas, price) {
            Ok(v) => v,
            Err(e) => return Err(e),
        };
        let r = self.update(base, self.write_gas, self.metadata, self.usage.bytes, self.usage.signatures);
        if r.is_ok() {
            self.next_action = self.next_action + 1;
        }
        r
    }

    /// Count the action at `index`, in order, after acceptance.
    pub fn action(&mut self, index: u16) -> (r: Result<(), MeterError>)
        requires
            old(self)@.wf(),
        ensures
            (final(self)@, r) === settle_error(action_inner(old(self)@, index).0, action_inner(old(self)@, index).1),
            final(self)@.wf(),
    {
        let result = self.action_step(index);
        self.settle(result)
    }

    fn write_step(&mut self, record: &LogicalRecord) -> (r: Result<(), MeterError>)
        requires
            old(self)@.wf(),
        ensures
            (final(self)@, r) === write_inner(old(self)@, record.key_view(), record.bytes_view().len() as u64),
            final(self)@.wf(),
    {
        if !(self.phase == Phase::Validation || self.phase == Phase::Accepted) {
            return Err(MeterError::Internal("terminal meter cannot resume"));
        }
        if self.phase != Phase::Accepted || self.next_action == 0 {
            self.phase = Phase::Fault;
            return Err(MeterError::Internal("write before accepted action"));
        }
        let key = record.key();
        let position = position_of(&self.write_keys, key);
        let ghost m = self@;
        let prior = match position {
            Some(i) => {
                proof {
                    let j = m.write_keys.index_of(key@);
                    assert(m.write_keys.contains(key@));
                    assert(m.write_keys[j] == key@);
                    assert(j == i);
                }
                self.write_costs[i]
            },
            None => 0,
        };
        assert(prior == m.written_cost(key@));
        let cost = match checked_mul_u64(record.byte_len(), self.write_price) {
            Ok(v) => v,
            Err(e) => return Err(e),
        };
        if self.write_gas < prior {
            return Err(MeterError::Internal("write meter invariant"));
        }
        let proposed = match checked_add_u64(self.write_gas - prior, cost) {
            Ok(v) => v,
            Err(e) => return Err(e),
        };
        let r = self.update(self.base_gas, proposed, self.metadata, self.usage.bytes, self.usage.signatures);
        if r.is_ok() {
            let ghost m2 = self@;
            match position {
                Some(i) => {
                    proof { lemma_seq_sum_update(m.write_costs, i as int, cost); }
                    self.write_costs.set(i, cost);
                    assert(self@.write_costs =~= m2.write_costs.update(m.write_keys.index_of(key@), cost));
                },
                None => {
                    proof { lemma_seq_sum_push(m.write_costs, cost); }
                    let k = to_vec(key);
                    self.write_keys.push(k);
                    self.write_costs.push(cost);
                    assert(key_views(self.write_keys@) =~= m2.write_keys.push(key@));
                },
            }
        }
        r
    }

    /// Count the latest proposed representation of a logical key once.
    pub fn write(&mut self, record: &LogicalRecord) -> (r: Result<(), MeterError>)
        requires
            old(self)@.wf(),
        ensures
            (final(self)@, r) === settle_error(
                write_inner(old(self)@, record.key_view(), record.bytes_view().len() as u64).0,
                write_inner(old(self)@, record.key_view(), record.bytes_view().len() as u64).1,
            ),
            final(self)@.wf(),
    {
        let result = self.write_step(record);
        self.settle(result)
    }

    /// Settle the meter: its totals, unless it or the block faulted. The
    /// block comes back with every charge this transaction made.
    pub fn finish(self) -> (r: (Result<MeterSummary, MeterError>, SharedBlockMeter))
        ensures
            r.1@ == self@.block,
            (self@.phase == Phase::Fault || self@.block.faulted) ==> r.0 == Err::<MeterSummary, MeterError>(
                MeterError::Internal("cannot settle faulted meter"),
            ),
            !(self@.phase == Phase::Fault || self@.block.faulted) ==> (r.0 matches Ok(s) && summarizes(s, self@)),
    {
        if self.phase == Phase::Fault || self.block.is_faulted() {
            return (Err(MeterError::Internal("cannot settle faulted meter")), self.block);
        }
        let summary = MeterSummary {
            used_gas: self.usage.gas,
            gas_limit: self.limit,
            metadata_gas: self.metadata,
            accepted: self.phase == Phase::Accepted || self.phase == Phase::Exhausted,
            exhausted: self.phase == Phase::Exhausted,
            processed_actions: self.next_action,
            action_count: self.actions.len() as u16,
        };
        (Ok(summary), self.block)
    }

    /// The block counters this meter charges.
    pub fn block(&self) -> (r: &SharedBlockMeter)
        ensures
            r@ == self@.block,
    {
        &self.block
    }

    /// Give the block back without settling; every charge already made stays.
    pub fn into_block(self) -> (r: SharedBlockMeter)
        ensures
            r@ == self@.block,
    {
        self.block
    }
}

} // verus!
