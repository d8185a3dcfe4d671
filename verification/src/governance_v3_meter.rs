//! Governance (ordinary-v3) work meter. It borrows the same block counters as
//! ordinary and recovery work. Signature metering counts work; it does not
//! verify the signature. Any fault also faults the shared block.
use vstd::prelude::*;
use vstd::utf8::encode_utf8;
use crate::block_meter::{
    adjust_outcome, checked_add_u64, BlockMeterView, FeeProfileV3, ResourceUsage,
    SharedBlockMeter,
};
use crate::ordinary_meter::{LogicalRecord, MeterError as SharedMeterError};
use crate::record_keys::{key_views, lemma_seq_sum_push, lemma_seq_sum_update, position_of, seq_sum, to_vec};
use crate::transaction_meter::{is_live, keys_unique, price_of, price_of_spec, Phase, WireEncoding};

verus! {

#[derive(Clone, Debug, PartialEq, Eq)]
pub enum MeterError {
    Rejected(&'static str),
    AcceptedOutOfGas,
    BlockCapacity,
    Internal(&'static str),
}

pub open spec fn from_shared(e: SharedMeterError) -> MeterError {
    match e {
        SharedMeterError::PreAcceptanceRejected(m) => MeterError::Rejected(m),
        SharedMeterError::AcceptedOutOfGas => MeterError::AcceptedOutOfGas,
        SharedMeterError::BlockCapacity => MeterError::BlockCapacity,
        SharedMeterError::Internal(m) => MeterError::Internal(m),
    }
}

impl MeterError {
    /// The governance form of a shared meter error.
    pub fn from_shared(error: SharedMeterError) -> (r: MeterError)
        ensures
            r == from_shared(error),
    {
        match error {
            SharedMeterError::PreAcceptanceRejected(m) => MeterError::Rejected(m),
            SharedMeterError::AcceptedOutOfGas => MeterError::AcceptedOutOfGas,
            SharedMeterError::BlockCapacity => MeterError::BlockCapacity,
            SharedMeterError::Internal(m) => MeterError::Internal(m),
        }
    }
}

/// The single governance action of a v3 transaction.
#[derive(Clone, Copy, Debug, PartialEq, Eq, Structural)]
pub enum GovernanceActionKind {
    Proposal,
    Deposit,
    Vote,
}

/// What the meter reads from a signed v3 governance transaction.
pub struct MeteredGovernanceBody {
    pub gas_limit: u64,
    pub algorithm: String,
    /// The body's actions when it has exactly one governance action.
    pub action: Option<GovernanceActionKind>,
    pub wire: WireEncoding,
    /// Whether the v3 profile accepts the signed request at this height.
    pub request_valid: bool,
}

/// Totals of a settled governance meter. Alone it authorizes nothing.
#[derive(Clone, Copy, Debug, PartialEq, Eq, Structural)]
pub struct Summary {
    pub used_gas: u64,
    pub metadata_gas: u64,
    pub accepted: bool,
    pub exhausted: bool,
    pub processed_actions: u16,
    pub action_count: u16,
}

pub struct GovernanceMeterView {
    pub block: BlockMeterView,
    pub limit: u64,
    pub usage: ResourceUsage,
    pub base_gas: u64,
    pub write_gas: u64,
    pub metadata_gas: u64,
    pub metadata_price: u64,
    pub signature_price: u64,
    pub action_price: u64,
    pub read_price: u64,
    pub write_price: u64,
    pub read_keys: Seq<Seq<u8>>,
    pub write_keys: Seq<Seq<u8>>,
    pub write_costs: Seq<u64>,
    pub signature_counted: bool,
    pub action_counted: bool,
    pub phase: Phase,
}

impl GovernanceMeterView {
    pub open spec fn wf(self) -> bool {
        &&& self.block.wf()
        &&& self.block.governance_profile_digest is Some
        &&& self.usage.gas <= self.block.usage.gas
        &&& self.usage.bytes <= self.block.usage.bytes
        &&& self.usage.signatures <= self.block.usage.signatures
        &&& is_live(self.phase) ==> {
            &&& self.usage.gas == self.base_gas + self.write_gas + self.metadata_gas
            &&& self.usage.gas <= self.limit
            &&& self.write_gas == seq_sum(self.write_costs)
        }
        &&& self.write_keys.len() == self.write_costs.len()
        &&& keys_unique(self.write_keys)
    }

    pub open spec fn written_cost(self, key: Seq<u8>) -> u64 {
        if self.write_keys.contains(key) {
            self.write_costs[self.write_keys.index_of(key)]
        } else {
            0
        }
    }
}

/// End the meter and fault the shared block.
pub open spec fn fault_v3(m: GovernanceMeterView, e: MeterError) -> (
    GovernanceMeterView,
    Result<(), MeterError>,
) {
    (GovernanceMeterView { phase: Phase::Fault, block: m.block.with_fault(), ..m }, Err(e))
}

pub open spec fn update_v3(
    m: GovernanceMeterView,
    base: u64,
    metadata: u64,
    bytes: u64,
    signatures: u64,
) -> (GovernanceMeterView, Result<(), MeterError>) {
    if !is_live(m.phase) {
        fault_v3(m, MeterError::Internal("terminal v3 meter cannot resume"))
    } else if base + m.write_gas > u64::MAX || base + m.write_gas + metadata > u64::MAX {
        fault_v3(m, MeterError::Internal("v3 gas addition overflow"))
    } else {
        let total = (base + m.write_gas + metadata) as u64;
        let over = total > m.limit;
        let gas = if over && m.phase == Phase::Accepted {
            m.limit
        } else {
            total
        };
        let next = ResourceUsage { gas, bytes, signatures };
        let (block, r) = if m.block.governance_profile_digest is None {
            (m.block.with_fault(), Err(SharedMeterError::Internal("v3 fee profile is not bound")))
        } else {
            adjust_outcome(m.block, m.usage, next)
        };
        match r {
            Err(e) => fault_v3(GovernanceMeterView { block, ..m }, from_shared(e)),
            Ok(_) => if over {
                if m.phase == Phase::Accepted {
                    (
                        GovernanceMeterView { block, usage: next, phase: Phase::Exhausted, ..m },
                        Err(MeterError::AcceptedOutOfGas),
                    )
                } else {
                    (
                        GovernanceMeterView { block, usage: next, phase: Phase::Rejected, ..m },
                        Err(MeterError::Rejected("validation gas exceeds signed limit")),
                    )
                }
            } else {
                (
                    GovernanceMeterView { block, usage: next, base_gas: base, metadata_gas: metadata, ..m },
                    Ok(()),
                )
            },
        }
    }
}

pub open spec fn signature_v3(m: GovernanceMeterView) -> (GovernanceMeterView, Result<(), MeterError>) {
    if m.phase != Phase::Validation || m.signature_counted {
        fault_v3(m, MeterError::Internal("v3 signature phase differs"))
    } else if m.base_gas + m.signature_price > u64::MAX {
        fault_v3(m, MeterError::Internal("v3 signature gas overflow"))
    } else if m.usage.signatures + 1 > u64::MAX {
        fault_v3(m, MeterError::Internal("v3 signature count overflow"))
    } else {
        let (m2, r) = update_v3(
            m,
            (m.base_gas + m.signature_price) as u64,
            m.metadata_gas,
            m.usage.bytes,
            (m.usage.signatures + 1) as u64,
        );
        if r is Ok {
            (GovernanceMeterView { signature_counted: true, ..m2 }, r)
        } else {
            (m2, r)
        }
    }
}

pub open spec fn read_v3(m: GovernanceMeterView, key: Seq<u8>, len: u64) -> (
    GovernanceMeterView,
    Result<(), MeterError>,
) {
    if !is_live(m.phase) {
        fault_v3(m, MeterError::Internal("terminal v3 read"))
    } else if m.read_keys.contains(key) {
        (m, Ok(()))
    } else if len * m.read_price > u64::MAX {
        fault_v3(m, MeterError::Internal("v3 read cost overflow"))
    } else if m.base_gas + len * m.read_price > u64::MAX {
        fault_v3(m, MeterError::Internal("v3 read gas overflow"))
    } else {
        let (m2, r) = update_v3(
            m,
            (m.base_gas + len * m.read_price) as u64,
            m.metadata_gas,
            m.usage.bytes,
            m.usage.signatures,
        );
        if r is Ok {
            (GovernanceMeterView { read_keys: m.read_keys.push(key), ..m2 }, r)
        } else {
            (m2, r)
        }
    }
}

pub open spec fn accept_v3(m: GovernanceMeterView) -> (GovernanceMeterView, Result<(), MeterError>) {
    if m.phase != Phase::Validation || !m.signature_counted {
        fault_v3(m, MeterError::Internal("v3 acceptance phase differs"))
    } else {
        let (m2, r) = update_v3(m, m.base_gas, m.metadata_price, m.usage.bytes, m.usage.signatures);
        if r is Ok {
            (GovernanceMeterView { phase: Phase::Accepted, ..m2 }, r)
        } else {
            (m2, r)
        }
    }
}

pub open spec fn action_v3(m: GovernanceMeterView) -> (GovernanceMeterView, Result<(), MeterError>) {
    if m.phase != Phase::Accepted || m.action_counted {
        fault_v3(m, MeterError::Internal("v3 action phase differs"))
    } else if m.base_gas + m.action_price > u64::MAX {
        fault_v3(m, MeterError::Internal("v3 action gas overflow"))
    } else {
        let (m2, r) = update_v3(
            m,
            (m.base_gas + m.action_price) as u64,
            m.metadata_gas,
            m.usage.bytes,
            m.usage.signatures,
        );
        if r is Ok {
            (GovernanceMeterView { action_counted: true, ..m2 }, r)
        } else {
            (m2, r)
        }
    }
}

pub open spec fn record_write_v3(m: GovernanceMeterView, key: Seq<u8>, cost: u64) -> GovernanceMeterView {
    if m.write_keys.contains(key) {
        GovernanceMeterView {
            write_costs: m.write_costs.update(m.write_keys.index_of(key), cost),
            ..m
        }
    } else {
        GovernanceMeterView {
            write_keys: m.write_keys.push(key),
            write_costs: m.write_costs.push(cost),
            ..m
        }
    }
}

pub open spec fn write_v3(m: GovernanceMeterView, key: Seq<u8>, len: u64) -> (
    GovernanceMeterView,
    Result<(), MeterError>,
) {
    if m.phase != Phase::Accepted || !m.action_counted {
        fault_v3(m, MeterError::Internal("v3 write before accepted action"))
    } else if len * m.write_price > u64::MAX {
        fault_v3(m, MeterError::Internal("v3 write cost overflow"))
    } else if m.write_gas < m.written_cost(key) || m.write_gas - m.written_cost(key) + len
        * m.write_price > u64::MAX {
        fault_v3(m, MeterError::Internal("v3 write gas overflow"))
    } else {
        let proposed = (m.write_gas - m.written_cost(key) + len * m.write_price) as u64;
        let (m2, r) = update_v3(
            GovernanceMeterView { write_gas: proposed, ..m },
            m.base_gas,
            m.metadata_gas,
            m.usage.bytes,
            m.usage.signatures,
        );
        if r is Ok {
            (record_write_v3(m2, key, (len * m.write_price) as u64), r)
        } else {
            (m2, r)
        }
    }
}

pub open spec fn governance_action_tag(a: GovernanceActionKind) -> int {
    match a {
        GovernanceActionKind::Proposal => 13,
        GovernanceActionKind::Deposit => 14,
        GovernanceActionKind::Vote => 15,
    }
}

pub open spec fn governance_action_price(profile: FeeProfileV3, a: GovernanceActionKind) -> u64 {
    profile.governance_action_costs@[governance_action_tag(a) - 13]
}

pub open spec fn initial_v3(
    profile: FeeProfileV3,
    body: MeteredGovernanceBody,
    block: BlockMeterView,
    signature_price: u64,
    action: GovernanceActionKind,
) -> GovernanceMeterView {
    GovernanceMeterView {
        block,
        limit: body.gas_limit,
        usage: ResourceUsage { gas: 0, bytes: 0, signatures: 0 },
        base_gas: 0,
        write_gas: 0,
        metadata_gas: 0,
        metadata_price: profile.base.receipt_metadata_cost,
        signature_price,
        action_price: governance_action_price(profile, action),
        read_price: profile.base.read_byte_cost,
        write_price: profile.base.write_byte_cost,
        read_keys: Seq::empty(),
        write_keys: Seq::empty(),
        write_costs: Seq::empty(),
        signature_counted: false,
        action_counted: false,
        phase: Phase::Validation,
    }
}

/// The meter that `V3GovernanceMeter::new` opens, or the error and the block it hands back.
pub open spec fn new_v3(profile: FeeProfileV3, body: MeteredGovernanceBody, block: BlockMeterView) -> Result<
    GovernanceMeterView,
    (MeterError, BlockMeterView),
> {
    let bound = if block.faulted {
        (block, Err(SharedMeterError::Internal("block meter is faulted")))
    } else if profile.base.digest@ != block.profile_digest {
        (block.with_fault(), Err(SharedMeterError::Internal("v3 base fee profile differs")))
    } else if block.governance_profile_digest matches Some(d) && d != profile.digest@ {
        (block.with_fault(), Err(SharedMeterError::Internal("v3 fee profile changed in block")))
    } else {
        (BlockMeterView { governance_profile_digest: Some(profile.digest@), ..block }, Ok(()))
    };
    match bound.1 {
        Err(e) => Err((from_shared(e), bound.0)),
        Ok(_) => {
            let b = bound.0;
            match body.wire {
                WireEncoding::Bytes(n) => match body.action {
                    None => Err((MeterError::Rejected("v3 requires one governance action"), b)),
                    Some(action) => match price_of_spec(
                        profile.base.signature_costs@,
                        encode_utf8(body.algorithm@),
                    ) {
                        None => Err((MeterError::Rejected("signature algorithm lacks price"), b)),
                        Some(sig_price) => if n * profile.base.wire_byte_cost
                            + profile.base.transaction_overhead > u64::MAX {
                            Err((MeterError::Internal("v3 initial gas overflow"), b))
                        } else {
                            let (m, r) = update_v3(
                                initial_v3(profile, body, b, sig_price, action),
                                (n * profile.base.wire_byte_cost + profile.base.transaction_overhead) as u64,
                                0,
                                n,
                                0,
                            );
                            match r {
                                Err(e) => Err((e, m.block)),
                                Ok(_) => if !body.request_valid {
                                    Err(
                                        (
                                            MeterError::Rejected("signed v3 profile or fee bound differs"),
                                            m.block,
                                        ),
                                    )
                                } else {
                                    Ok(m)
                                },
                            }
                        },
                    },
                },
                _ => Err((MeterError::Rejected("v3 envelope outside selected limits"), b)),
            }
        },
    }
}

/// The governance meter for one signed v3 transaction. It owns the block
/// meter until `finish`, so work cannot be copied or reset.
pub struct V3GovernanceMeter {
    block: SharedBlockMeter,
    limit: u64,
    usage: ResourceUsage,
    base_gas: u64,
    write_gas: u64,
    metadata_gas: u64,
    metadata_price: u64,
    signature_price: u64,
    action_price: u64,
    read_price: u64,
    write_price: u64,
    read_keys: Vec<Vec<u8>>,
    write_keys: Vec<Vec<u8>>,
    write_costs: Vec<u64>,
    signature_counted: bool,
    action_counted: bool,
    phase: Phase,
}

impl View for V3GovernanceMeter {
    type V = GovernanceMeterView;

    closed spec fn view(&self) -> GovernanceMeterView {
        GovernanceMeterView {
            block: self.block@,
            limit: self.limit,
            usage: self.usage,
            base_gas: self.base_gas,
            write_gas: self.write_gas,
            metadata_gas: self.metadata_gas,
            metadata_price: self.metadata_price,
            signature_price: self.signature_price,
            action_price: self.action_price,
            read_price: self.read_price,
            write_price: self.write_price,
            read_keys: key_views(self.read_keys@),
            write_keys: key_views(self.write_keys@),
            write_costs: self.write_costs@,
            signature_counted: self.signature_counted,
            action_counted: self.action_counted,
            phase: self.phase,
        }
    }
}

impl V3GovernanceMeter {
    /// Bind the block to the v3 profile, then charge the envelope's wire bytes.
    pub fn new(profile: &FeeProfileV3, body: &MeteredGovernanceBody, block: SharedBlockMeter) -> (r: Result<
        V3GovernanceMeter,
        (MeterError, SharedBlockMeter),
    >)
        requires
            block@.wf(),
        ensures
            match (r, new_v3(*profile, *body, block@)) {
                (Ok(m), Ok(v)) => m@ == v && m@.wf(),
                (Err((e, b)), Err((e2, v))) => e == e2 && b@ == v && b@.wf(),
                _ => false,
            },
    {
        let mut block = block;
        match block.bind_governance_v3(profile) {
            Err(e) => return Err((MeterError::from_shared(e), block)),
            Ok(()) => {},
        }
        let wire_bytes = match body.wire {
            WireEncoding::Bytes(n) => n,
            _ => return Err((MeterError::Rejected("v3 envelope outside selected limits"), block)),
        };
        let (action_price, action) = match body.action {
            Some(GovernanceActionKind::Proposal) => (profile.governance_action_costs[0], GovernanceActionKind::Proposal),
            Some(GovernanceActionKind::Deposit) => (profile.governance_action_costs[1], GovernanceActionKind::Deposit),
            Some(GovernanceActionKind::Vote) => (profile.governance_action_costs[2], GovernanceActionKind::Vote),
            None => return Err((MeterError::Rejected("v3 requires one governance action"), block)),
        };
        let signature_price = match price_of(&profile.base.signature_costs, body.algorithm.as_str()) {
            Some(p) => p,
            None => return Err((MeterError::Rejected("signature algorithm lacks price"), block)),
        };
        let initial = match wire_bytes.checked_mul(profile.base.wire_byte_cost) {
            Some(v) => match v.checked_add(profile.base.transaction_overhead) {
                Some(t) => t,
                None => return Err((MeterError::Internal("v3 initial gas overflow"), block)),
            },
            None => {
                proof {
                    assert(wire_bytes * profile.base.wire_byte_cost + profile.base.transaction_overhead > u64::MAX);
                }
                return Err((MeterError::Internal("v3 initial gas overflow"), block));
            },
        };
        let mut meter = V3GovernanceMeter {
            block,
            limit: body.gas_limit,
            usage: ResourceUsage { gas: 0, bytes: 0, signatures: 0 },
            base_gas: 0,
            write_gas: 0,
            metadata_gas: 0,
            metadata_price: profile.base.receipt_metadata_cost,
            signature_price,
            action_price,
            read_price: profile.base.read_byte_cost,
            write_price: profile.base.write_byte_cost,
            read_keys: Vec::new(),
            write_keys: Vec::new(),
            write_costs: Vec::new(),
            signature_counted: false,
            action_counted: false,
            phase: Phase::Validation,
        };
        assert(key_views(meter.read_keys@) =~= Seq::<Seq<u8>>::empty());
        assert(key_views(meter.write_keys@) =~= Seq::<Seq<u8>>::empty());
        assert(meter@ == initial_v3(*profile, *body, meter.block@, signature_price, action));
        match meter.update(initial, 0, wire_bytes, 0) {
            Err(e) => return Err((e, meter.block)),
            Ok(()) => {},
        }
        if !body.request_valid {
            return Err((MeterError::Rejected("signed v3 profile or fee bound differs"), meter.block));
        }
        Ok(meter)
    }

    fn fault(&mut self, error: MeterError) -> (r: Result<(), MeterError>)
        ensures
            (final(self)@, r) === fault_v3(old(self)@, error),
    {
        self.phase = Phase::Fault;
        self.block.fault_governance_v3();
        Err(error)
    }

    fn update(&mut self, base: u64, metadata: u64, bytes: u64, signatures: u64) -> (r: Result<(), MeterError>)
        requires
            old(self)@.block.wf(),
            old(self)@.usage.gas <= old(self)@.block.usage.gas,
            old(self)@.usage.bytes <= old(self)@.block.usage.bytes,
            old(self)@.usage.signatures <= old(self)@.block.usage.signatures,
        ensures
            (final(self)@, r) === update_v3(old(self)@, base, metadata, bytes, signatures),
            final(self)@.block.wf(),
            final(self)@.usage.gas <= final(self)@.block.usage.gas,
            final(self)@.usage.bytes <= final(self)@.block.usage.bytes,
            final(self)@.usage.signatures <= final(self)@.block.usage.signatures,
    {
        if !(self.phase == Phase::Validation || self.phase == Phase::Accepted) {
            return self.fault(MeterError::Internal("terminal v3 meter cannot resume"));
        }
        let total = match base.checked_add(self.write_gas) {
            Some(v) => match v.checked_add(metadata) {
                Some(t) => t,
                None => return self.fault(MeterError::Internal("v3 gas addition overflow")),
            },
            None => return self.fault(MeterError::Internal("v3 gas addition overflow")),
        };
        let over = total > self.limit;
        let next = ResourceUsage {
            gas: if over && self.phase == Phase::Accepted {
                self.limit
            } else {
                total
            },
            bytes,
            signatures,
        };
        match self.block.adjust_governance_v3(self.usage, next) {
            Err(e) => return self.fault(MeterError::from_shared(e)),
            Ok(()) => {},
        }
        self.usage = next;
        if over {
            if self.phase == Phase::Accepted {
                self.phase = Phase::Exhausted;
                return Err(MeterError::AcceptedOutOfGas);
            }
            self.phase = Phase::Rejected;
            return Err(MeterError::Rejected("validation gas exceeds signed limit"));
        }
        self.base_gas = base;
        self.metadata_gas = metadata;
        Ok(())
    }

    /// Count the account signature check once, before acceptance.
    pub fn signature(&mut self) -> (r: Result<(), MeterError>)
        requires
            old(self)@.wf(),
        ensures
            (final(self)@, r) === signature_v3(old(self)@),
            final(self)@.wf(),
    {
        if self.phase != Phase::Validation || self.signature_counted {
            return self.fault(MeterError::Internal("v3 signature phase differs"));
        }
        let base = match self.base_gas.checked_add(self.signature_price) {
            Some(v) => v,
            None => return self.fault(MeterError::Internal("v3 signature gas overflow")),
        };
        let signatures = match self.usage.signatures.checked_add(1) {
            Some(v) => v,
            None => return self.fault(MeterError::Internal("v3 signature count overflow")),
        };
        let r = self.update(base, self.metadata_gas, self.usage.bytes, signatures);
        if r.is_ok() {
            self.signature_counted = true;
        }
        r
    }

    /// Charge one logical state read; a key already read costs nothing more.
    pub fn read(&mut self, record: &LogicalRecord) -> (r: Result<(), MeterError>)
        requires
            old(self)@.wf(),
        ensures
            (final(self)@, r) === read_v3(old(self)@, record.key_view(), record.bytes_view().len() as u64),
            final(self)@.wf(),
    {
        if !(self.phase == Phase::Validation || self.phase == Phase::Accepted) {
            return self.fault(MeterError::Internal("terminal v3 read"));
        }
        let key = record.key();
        match position_of(&self.read_keys, key) {
            Some(_) => return Ok(()),
            None => {},
        }
        let cost = match record.byte_len().checked_mul(self.read_price) {
            Some(v) => v,
            None => return self.fault(MeterError::Internal("v3 read cost overflow")),
        };
        let base = match self.base_gas.checked_add(cost) {
            Some(v) => v,
            None => return self.fault(MeterError::Internal("v3 read gas overflow")),
        };
        let r = self.update(base, self.metadata_gas, self.usage.bytes, self.usage.signatures);
        if r.is_ok() {
            let k = to_vec(key);
            self.read_keys.push(k);
            assert(key_views(self.read_keys@) =~= key_views(old(self).read_keys@).push(key@));
        }
        r
    }

    /// Accept for fee charging; receipt metadata gas is charged.
    pub fn accept(&mut self) -> (r: Result<(), MeterError>)
        requires
            old(self)@.wf(),
        ensures
            (final(self)@, r) === accept_v3(old(self)@),
            final(self)@.wf(),
    {
        if self.phase != Phase::Validation || !self.signature_counted {
            return self.fault(MeterError::Internal("v3 acceptance phase differs"));
        }
        let r = self.update(self.base_gas, self.metadata_price, self.usage.bytes, self.usage.signatures);
        if r.is_ok() {
            self.phase = Phase::Accepted;
        }
        r
    }

    /// Count the one governance action after acceptance.
    pub fn action(&mut self) -> (r: Result<(), MeterError>)
        requires
            old(self)@.wf(),
        ensures
            (final(self)@, r) === action_v3(old(self)@),
            final(self)@.wf(),
    {
        if self.phase != Phase::Accepted || self.action_counted {
            return self.fault(MeterError::Internal("v3 action phase differs"));
        }
        let base = match self.base_gas.checked_add(self.action_price) {
            Some(v) => v,
            None => return self.fault(MeterError::Internal("v3 action gas overflow")),
        };
        let r = self.update(base, self.metadata_gas, self.usage.bytes, self.usage.signatures);
        if r.is_ok() {
            self.action_counted = true;
        }
        r
    }

    /// Charge the latest proposed representation of a logical key once.
    pub fn write(&mut self, record: &LogicalRecord) -> (r: Result<(), MeterError>)
        requires
            old(self)@.wf(),
        ensures
            (final(self)@, r) === write_v3(old(self)@, record.key_view(), record.bytes_view().len() as u64),
            final(self)@.wf(),
    {
        if self.phase != Phase::Accepted || !self.action_counted {
            return self.fault(MeterError::Internal("v3 write before accepted action"));
        }
        let next_cost = match record.byte_len().checked_mul(self.write_price) {
            Some(v) => v,
            None => return self.fault(MeterError::Internal("v3 write cost overflow")),
        };
        let key = record.key();
        let position = position_of(&self.write_keys, key);
        let ghost m = self@;
        let prior = match position {
            Some(i) => {
                proof {
                    let j = m.write_keys.index_of(key@);
                    assert(m.write_keys.contains(key@));
                    assert(m.write_keys[j] == key@);
                    assert(j == i);
                }
                self.write_costs[i]
            },
            None => 0,
        };
        assert(prior == m.written_cost(key@));
        if self.write_gas < prior {
            return self.fault(MeterError::Internal("v3 write gas overflow"));
        }
        let proposed = match (self.write_gas - prior).checked_add(next_cost) {
            Some(v) => v,
            None => return self.fault(MeterError::Internal("v3 write gas overflow")),
        };
        self.write_gas = proposed;
        let r = self.update(self.base_gas, self.metadata_gas, self.usage.bytes, self.usage.signatures);
        if r.is_ok() {
            let ghost m2 = self@;
            match position {
                Some(i) => {
                    proof { lemma_seq_sum_update(m.write_costs, i as int, next_cost); }
                    self.write_costs.set(i, next_cost);
                    assert(self@.write_costs =~= m2.write_costs.update(m.write_keys.index_of(key@), next_cost));
                },
                None => {
                    proof { lemma_seq_sum_push(m.write_costs, next_cost); }
                    let k = to_vec(key);
                    self.write_keys.push(k);
                    self.write_costs.push(next_cost);
                    assert(key_views(self.write_keys@) =~= m2.write_keys.push(key@));
                },
            }
        }
        r
    }

    /// Settle: totals unless the meter or the block faulted; the block comes back.
    pub fn finish(self) -> (r: (Result<Summary, MeterError>, SharedBlockMeter))
        ensures
            r.1@ == self@.block,
            (self@.phase == Phase::Fault || self@.block.faulted) ==> r.0 == Err::<Summary, MeterError>(
                MeterError::Internal("faulted v3 meter cannot settle"),
            ),
            !(self@.phase == Phase::Fault || self@.block.faulted) ==> r.0 == Ok::<Summary, MeterError>(
                Summary {
                    used_gas: self@.usage.gas,
                    metadata_gas: self@.metadata_gas,
                    accepted: self@.phase == Phase::Accepted || self@.phase == Phase::Exhausted,
                    exhausted: self@.phase == Phase::Exhausted,
                    processed_actions: if self@.action_counted { 1 } else { 0 },
                    action_count: 1,
                },
            ),
    {
        if self.phase == Phase::Fault || self.block.is_faulted() {
            return (Err(MeterError::Internal("faulted v3 meter cannot settle")), self.block);
        }
        let summary = Summary {
            used_gas: self.usage.gas,
            metadata_gas: self.metadata_gas,
            accepted: self.phase == Phase::Accepted || self.phase == Phase::Exhausted,
            exhausted: self.phase == Phase::Exhausted,
            processed_actions: if self.action_counted { 1 } else { 0 },
            action_count: 1,
        };
        (Ok(summary), self.block)
    }

    pub fn block(&self) -> (r: &SharedBlockMeter)
        ensures
            r@ == self@.block,
    {
        &self.block
    }

    pub fn into_block(self) -> (r: SharedBlockMeter)
        ensures
            r@ == self@.block,
    {
        self.block
    }
}

} // verus!
