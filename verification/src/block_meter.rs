//! One block's cumulative fee-meter counters, shared by ordinary, governance
//! and recovery work. There is no reset: measured work cannot be rolled back,
//! and the first failed update faults the block for good.
use vstd::prelude::*;
use crate::ordinary_meter::MeterError;

verus! {

#[derive(Clone, Copy, Debug, Default, PartialEq, Eq, Structural)]
pub struct ResourceUsage {
    pub gas: u64,
    pub bytes: u64,
    pub signatures: u64,
}

#[derive(Clone, Copy, Debug, PartialEq, Eq, Structural)]
pub struct RecoveryCeilings {
    pub max_gas: u64,
    pub max_bytes: u64,
    pub max_signatures: u64,
    pub mandatory_expiry_gas: u64,
}

/// A priced algorithm of a fee profile.
#[derive(Clone, Debug, PartialEq, Eq)]
pub struct PriceEntry {
    pub algorithm: String,
    pub cost: u64,
}

/// The parts of an ordinary fee profile that the meters read. `digest` and
/// `valid` are the profile's digest and validation result, computed by the
/// protocol-types crate that defines the profile's canonical form.
#[derive(Clone, Debug, PartialEq, Eq)]
pub struct FeeProfile {
    pub valid: bool,
    pub digest: [u8; 32],
    pub max_block_transaction_gas: u64,
    pub max_block_transaction_bytes: u64,
    pub max_block_signature_checks: u64,
    pub wire_byte_cost: u64,
    pub transaction_overhead: u64,
    pub read_byte_cost: u64,
    pub write_byte_cost: u64,
    pub receipt_metadata_cost: u64,
    pub minimum_gas: u64,
    pub gas_price: u64,
    pub action_costs: [u64; 12],
    pub signature_costs: Vec<PriceEntry>,
    pub validator_proof_costs: Vec<PriceEntry>,
}

/// The governance (v3) fee profile: its base profile and its own digest.
#[derive(Clone, Debug, PartialEq, Eq)]
pub struct FeeProfileV3 {
    pub digest: [u8; 32],
    pub base: FeeProfile,
    /// Prices of the governance proposal, deposit and vote actions (tags 13-15).
    pub governance_action_costs: [u64; 3],
}

/// The mathematical state of a block meter.
pub struct BlockMeterView {
    pub limits: ResourceUsage,
    pub recovery_limits: RecoveryCeilings,
    pub usage: ResourceUsage,
    pub recovery: ResourceUsage,
    pub expiry: u64,
    pub faulted: bool,
    pub profile_digest: Seq<u8>,
    pub governance_profile_digest: Option<Seq<u8>>,
}

impl BlockMeterView {
    /// Counters stay within their block limits.
    pub open spec fn wf(self) -> bool {
        &&& self.usage.gas <= self.limits.gas
        &&& self.usage.bytes <= self.limits.bytes
        &&& self.usage.signatures <= self.limits.signatures
        &&& self.recovery.gas <= self.recovery_limits.max_gas
        &&& self.recovery.bytes <= self.recovery_limits.max_bytes
        &&& self.recovery.signatures <= self.recovery_limits.max_signatures
        &&& self.expiry <= self.recovery_limits.mandatory_expiry_gas
    }

    pub open spec fn with_usage(self, usage: ResourceUsage) -> BlockMeterView {
        BlockMeterView { usage, ..self }
    }

    pub open spec fn with_fault(self) -> BlockMeterView {
        BlockMeterView { faulted: true, ..self }
    }
}

/// `total - old + new`, or the error that the checked arithmetic reports.
pub open spec fn change_spec(total: u64, old: u64, new: u64) -> Result<u64, MeterError> {
    if total < old {
        Err(MeterError::Internal("resource ownership mismatch"))
    } else if total - old + new > u64::MAX {
        Err(MeterError::Internal("meter addition overflow"))
    } else {
        Ok((total - old + new) as u64)
    }
}

/// Replace a caller's owned usage `old` by `new` within the block limits.
pub open spec fn adjust_spec(
    usage: ResourceUsage,
    limits: ResourceUsage,
    old: ResourceUsage,
    new: ResourceUsage,
) -> Result<ResourceUsage, MeterError> {
    match change_spec(usage.gas, old.gas, new.gas) {
        Err(e) => Err(e),
        Ok(gas) => match change_spec(usage.bytes, old.bytes, new.bytes) {
            Err(e) => Err(e),
            Ok(bytes) => match change_spec(usage.signatures, old.signatures, new.signatures) {
                Err(e) => Err(e),
                Ok(signatures) => if gas > limits.gas || bytes > limits.bytes || signatures
                    > limits.signatures {
                    Err(MeterError::BlockCapacity)
                } else {
                    Ok(ResourceUsage { gas, bytes, signatures })
                },
            },
        },
    }
}

/// The state after an adjustment and the result it returns.
pub open spec fn adjust_outcome(m: BlockMeterView, owned: ResourceUsage, next: ResourceUsage) -> (
    BlockMeterView,
    Result<(), MeterError>,
) {
    if m.faulted {
        (m, Err(MeterError::Internal("block meter is faulted")))
    } else {
        match adjust_spec(m.usage, m.limits, owned, next) {
            Ok(u) => (m.with_usage(u), Ok(())),
            Err(e) => (m.with_fault(), Err(e)),
        }
    }
}

pub open spec fn add_spec(a: u64, b: u64) -> Result<u64, MeterError> {
    if a + b > u64::MAX {
        Err(MeterError::Internal("meter addition overflow"))
    } else {
        Ok((a + b) as u64)
    }
}

pub open spec fn mul_spec(a: u64, b: u64) -> Result<u64, MeterError> {
    if a * b > u64::MAX {
        Err(MeterError::Internal("meter multiplication overflow"))
    } else {
        Ok((a * b) as u64)
    }
}

pub fn checked_add_u64(a: u64, b: u64) -> (r: Result<u64, MeterError>)
    ensures
        r == add_spec(a, b),
{
    if a > u64::MAX - b {
        Err(MeterError::Internal("meter addition overflow"))
    } else {
        Ok(a + b)
    }
}

pub fn checked_mul_u64(a: u64, b: u64) -> (r: Result<u64, MeterError>)
    ensures
        r == mul_spec(a, b),
{
    match a.checked_mul(b) {
        Some(v) => Ok(v),
        None => Err(MeterError::Internal("meter multiplication overflow")),
    }
}

fn change(total: u64, old: u64, new: u64) -> (r: Result<u64, MeterError>)
    ensures
        r == change_spec(total, old, new),
{
    if total < old {
        return Err(MeterError::Internal("resource ownership mismatch"));
    }
    checked_add_u64(total - old, new)
}

/// Whether two digests hold the same bytes.
pub fn digest_eq(a: &[u8; 32], b: &[u8; 32]) -> (r: bool)
    ensures
        r == (a@ == b@),
{
    let mut i: usize = 0;
    while i < 32
        invariant
            i <= 32,
            a@.len() == 32 && b@.len() == 32,
            forall|j: int| 0 <= j < i ==> a@[j] == b@[j],
        decreases 32 - i,
    {
        if a[i] != b[i] {
            return false;
        }
        i = i + 1;
    }
    assert(a@ =~= b@);
    true
}

/// One block's cumulative counters. No reset or clone permits rollback of work.
#[derive(Debug)]
pub struct SharedBlockMeter {
    limits: ResourceUsage,
    recovery_limits: RecoveryCeilings,
    usage: ResourceUsage,
    recovery: ResourceUsage,
    expiry: u64,
    faulted: bool,
    profile_digest: [u8; 32],
    governance_profile_digest: Option<[u8; 32]>,
}

impl View for SharedBlockMeter {
    type V = BlockMeterView;

    closed spec fn view(&self) -> BlockMeterView {
        BlockMeterView {
            limits: self.limits,
            recovery_limits: self.recovery_limits,
            usage: self.usage,
            recovery: self.recovery,
            expiry: self.expiry,
            faulted: self.faulted,
            profile_digest: self.profile_digest@,
            governance_profile_digest: match self.governance_profile_digest {
                Some(d) => Some(d@),
                None => None,
            },
        }
    }
}

impl SharedBlockMeter {
    /// Open a block meter whose limits come from the ordinary fee profile.
    pub fn new(profile: &FeeProfile, recovery: RecoveryCeilings) -> (r: Result<Self, MeterError>)
        ensures
            !profile.valid ==> r == Err::<Self, MeterError>(
                MeterError::Internal("invalid ordinary fee profile"),
            ),
            profile.valid && (recovery.max_gas == 0 || recovery.max_bytes == 0
                || recovery.max_signatures == 0 || recovery.mandatory_expiry_gas == 0) ==> r
                == Err::<Self, MeterError>(MeterError::Internal("missing recovery ceilings")),
            r matches Ok(m) ==> {
                &&& profile.valid
                &&& m@.wf()
                &&& m@.limits == (ResourceUsage {
                    gas: profile.max_block_transaction_gas,
                    bytes: profile.max_block_transaction_bytes,
                    signatures: profile.max_block_signature_checks,
                })
                &&& m@.recovery_limits == recovery
                &&& m@.usage == (ResourceUsage { gas: 0, bytes: 0, signatures: 0 })
                &&& m@.recovery == (ResourceUsage { gas: 0, bytes: 0, signatures: 0 })
                &&& m@.expiry == 0
                &&& !m@.faulted
                &&& m@.profile_digest == profile.digest@
                &&& m@.governance_profile_digest is None
            },
            profile.valid && recovery.max_gas != 0 && recovery.max_bytes != 0
                && recovery.max_signatures != 0 && recovery.mandatory_expiry_gas != 0 ==> r is Ok,
    {
        if !profile.valid {
            return Err(MeterError::Internal("invalid ordinary fee profile"));
        }
        if recovery.max_gas == 0 || recovery.max_bytes == 0 || recovery.max_signatures == 0
            || recovery.mandatory_expiry_gas == 0 {
            return Err(MeterError::Internal("missing recovery ceilings"));
        }
        Ok(SharedBlockMeter {
            limits: ResourceUsage {
                gas: profile.max_block_transaction_gas,
                bytes: profile.max_block_transaction_bytes,
                signatures: profile.max_block_signature_checks,
            },
            recovery_limits: recovery,
            usage: ResourceUsage { gas: 0, bytes: 0, signatures: 0 },
            recovery: ResourceUsage { gas: 0, bytes: 0, signatures: 0 },
            expiry: 0,
            faulted: false,
            profile_digest: profile.digest,
            governance_profile_digest: None,
        })
    }

    pub fn usage(&self) -> (r: ResourceUsage)
        ensures
            r == self@.usage,
    {
        self.usage
    }

    pub fn recovery_usage(&self) -> (r: ResourceUsage)
        ensures
            r == self@.recovery,
    {
        self.recovery
    }

    pub fn expiry_gas(&self) -> (r: u64)
        ensures
            r == self@.expiry,
    {
        self.expiry
    }

    pub fn is_faulted(&self) -> (r: bool)
        ensures
            r == self@.faulted,
    {
        self.faulted
    }

    /// Whether the block's limits were taken from a profile with this digest.
    pub fn profile_matches(&self, digest: &[u8; 32]) -> (r: bool)
        ensures
            r == (self@.profile_digest == digest@),
    {
        digest_eq(&self.profile_digest, digest)
    }

    /// Bind governance v3 to the exact ordinary profile that owns this block's
    /// shared limits. A different v3 profile in the same block faults the meter.
    pub fn bind_governance_v3(&mut self, profile: &FeeProfileV3) -> (r: Result<(), MeterError>)
        ensures
            old(self)@.faulted ==> r == Err::<(), MeterError>(
                MeterError::Internal("block meter is faulted"),
            ) && final(self)@ == old(self)@,
            !old(self)@.faulted && profile.base.digest@ != old(self)@.profile_digest ==> r
                == Err::<(), MeterError>(MeterError::Internal("v3 base fee profile differs"))
                && final(self)@ == old(self)@.with_fault(),
            old(self)@.governance_profile_digest matches Some(d) && d != profile.digest@
                && !old(self)@.faulted && profile.base.digest@ == old(self)@.profile_digest ==> r == Err::<(), MeterError>(
                MeterError::Internal("v3 fee profile changed in block"),
            ) && final(self)@ == old(self)@.with_fault(),
            !old(self)@.faulted && profile.base.digest@ == old(self)@.profile_digest && (old(
                self,
            )@.governance_profile_digest is None || old(self)@.governance_profile_digest
                == Some(profile.digest@)) ==> r is Ok && final(self)@ == (BlockMeterView {
                governance_profile_digest: Some(profile.digest@),
                ..old(self)@
            }),
    {
        if self.faulted {
            return Err(MeterError::Internal("block meter is faulted"));
        }
        if !digest_eq(&profile.base.digest, &self.profile_digest) {
            self.faulted = true;
            return Err(MeterError::Internal("v3 base fee profile differs"));
        }
        match &self.governance_profile_digest {
            Some(bound) => {
                if !digest_eq(bound, &profile.digest) {
                    self.faulted = true;
                    return Err(MeterError::Internal("v3 fee profile changed in block"));
                }
            },
            None => {},
        }
        self.governance_profile_digest = Some(profile.digest);
        Ok(())
    }

    /// Adjust governance work; the v3 profile must already be bound.
    pub fn adjust_governance_v3(&mut self, owned: ResourceUsage, next: ResourceUsage) -> (r: Result<
        (),
        MeterError,
    >)
        ensures
            old(self)@.governance_profile_digest is None ==> r == Err::<(), MeterError>(
                MeterError::Internal("v3 fee profile is not bound"),
            ) && final(self)@ == old(self)@.with_fault(),
            old(self)@.governance_profile_digest is Some ==> (final(self)@, r) === adjust_outcome(old(self)@, owned, next),
    {
        if self.governance_profile_digest.is_none() {
            self.faulted = true;
            return Err(MeterError::Internal("v3 fee profile is not bound"));
        }
        self.adjust(owned, next)
    }

    /// Mark the block unusable after a transaction meter failed.
    pub fn fault(&mut self)
        ensures
            final(self)@ == old(self)@.with_fault(),
    {
        self.faulted = true;
    }

    pub fn fault_governance_v3(&mut self)
        ensures
            final(self)@ == old(self)@.with_fault(),
    {
        self.faulted = true;
    }

    /// Replace the caller's owned usage `old` by `new`; any failure faults the block.
    pub fn adjust(&mut self, owned: ResourceUsage, next: ResourceUsage) -> (r: Result<(), MeterError>)
        ensures
            (final(self)@, r) === adjust_outcome(old(self)@, owned, next),
    {
        if self.faulted {
            return Err(MeterError::Internal("block meter is faulted"));
        }
        let result = self.adjust_inner(owned, next);
        if result.is_err() {
            self.faulted = true;
        }
        result
    }

    fn adjust_inner(&mut self, owned: ResourceUsage, next: ResourceUsage) -> (r: Result<(), MeterError>)
        ensures
            match adjust_spec(old(self)@.usage, old(self)@.limits, owned, next) {
                Ok(u) => r == Ok::<(), MeterError>(()) && final(self)@ == old(self)@.with_usage(u),
                Err(e) => r == Err::<(), MeterError>(e) && final(self)@ == old(self)@,
            },
    {
        let gas = match change(self.usage.gas, owned.gas, next.gas) {
            Ok(v) => v,
            Err(e) => return Err(e),
        };
        let bytes = match change(self.usage.bytes, owned.bytes, next.bytes) {
            Ok(v) => v,
            Err(e) => return Err(e),
        };
        let signatures = match change(self.usage.signatures, owned.signatures, next.signatures) {
            Ok(v) => v,
            Err(e) => return Err(e),
        };
        if gas > self.limits.gas || bytes > self.limits.bytes || signatures > self.limits.signatures {
            return Err(MeterError::BlockCapacity);
        }
        self.usage = ResourceUsage { gas, bytes, signatures };
        Ok(())
    }

    /// Feed incremental recovery work, including rejected requests.
    pub fn charge_recovery(&mut self, gas: u64, bytes: u64, signatures: u64) -> (r: Result<
        (),
        MeterError,
    >)
        ensures
            (final(self)@, r) === charge_recovery_outcome(old(self)@, gas, bytes, signatures),
    {
        if self.faulted {
            return Err(MeterError::Internal("block meter is faulted"));
        }
        let result = self.charge_recovery_inner(gas, bytes, signatures);
        if result.is_err() {
            self.faulted = true;
        }
        result
    }

    fn charge_recovery_inner(&mut self, gas: u64, bytes: u64, signatures: u64) -> (r: Result<
        (),
        MeterError,
    >)
        requires
            !old(self)@.faulted,
        ensures
            match recovery_spec(old(self)@, gas, bytes, signatures) {
                Ok((next, u)) => r == Ok::<(), MeterError>(()) && final(self)@ == (BlockMeterView {
                    recovery: next,
                    usage: u,
                    ..old(self)@
                }),
                Err(e) => r == Err::<(), MeterError>(e) && (final(self)@ == old(self)@
                    || final(self)@ == old(self)@.with_fault()),
            },
    {
        let g = match checked_add_u64(self.recovery.gas, gas) {
            Ok(v) => v,
            Err(e) => return Err(e),
        };
        let b = match checked_add_u64(self.recovery.bytes, bytes) {
            Ok(v) => v,
            Err(e) => return Err(e),
        };
        let s = match checked_add_u64(self.recovery.signatures, signatures) {
            Ok(v) => v,
            Err(e) => return Err(e),
        };
        if g > self.recovery_limits.max_gas || b > self.recovery_limits.max_bytes || s
            > self.recovery_limits.max_signatures {
            return Err(MeterError::BlockCapacity);
        }
        let res = self.adjust(
            ResourceUsage { gas: 0, bytes: 0, signatures: 0 },
            ResourceUsage { gas, bytes, signatures },
        );
        if res.is_err() {
            return res;
        }
        self.recovery = ResourceUsage { gas: g, bytes: b, signatures: s };
        Ok(())
    }

    /// Charge mandatory recovery-expiry gas within its own ceiling.
    pub fn charge_expiry(&mut self, gas: u64) -> (r: Result<(), MeterError>)
        ensures
            old(self)@.faulted ==> r == Err::<(), MeterError>(
                MeterError::Internal("block meter is faulted"),
            ) && final(self)@ == old(self)@,
            !old(self)@.faulted && old(self)@.expiry + gas > u64::MAX ==> r == Err::<
                (),
                MeterError,
            >(MeterError::Internal("meter addition overflow")) && final(self)@ == old(
                self,
            )@.with_fault(),
            !old(self)@.faulted && old(self)@.expiry + gas <= u64::MAX && old(self)@.expiry + gas
                > old(self)@.recovery_limits.mandatory_expiry_gas ==> r == Err::<(), MeterError>(
                MeterError::BlockCapacity,
            ) && final(self)@ == old(self)@.with_fault(),
            !old(self)@.faulted && old(self)@.expiry + gas <= old(
                self,
            )@.recovery_limits.mandatory_expiry_gas ==> r is Ok && final(self)@ == (BlockMeterView {
                expiry: (old(self)@.expiry + gas) as u64,
                ..old(self)@
            }),
    {
        if self.faulted {
            return Err(MeterError::Internal("block meter is faulted"));
        }
        let next = match checked_add_u64(self.expiry, gas) {
            Ok(v) => v,
            Err(e) => {
                self.faulted = true;
                return Err(e);
            },
        };
        if next > self.recovery_limits.mandatory_expiry_gas {
            self.faulted = true;
            return Err(MeterError::BlockCapacity);
        }
        self.expiry = next;
        Ok(())
    }

    /// Charge a malformed ordinary wire input, which has no body or signed gas limit.
    pub fn rejected_wire(&mut self, bytes: u64, profile: &FeeProfile) -> (r: Result<(), MeterError>)
        ensures
            (final(self)@, r) === rejected_wire_outcome(old(self)@, bytes, *profile),
    {
        if self.faulted {
            return Err(MeterError::Internal("block meter is faulted"));
        }
        if !profile.valid {
            self.faulted = true;
            return Err(MeterError::Internal("invalid ordinary fee profile"));
        }
        if !digest_eq(&profile.digest, &self.profile_digest) {
            self.faulted = true;
            return Err(MeterError::Internal("block fee profile differs"));
        }
        let gas = match checked_mul_u64(bytes, profile.wire_byte_cost) {
            Ok(v) => v,
            Err(e) => {
                self.faulted = true;
                return Err(e);
            },
        };
        self.adjust(
            ResourceUsage { gas: 0, bytes: 0, signatures: 0 },
            ResourceUsage { gas, bytes, signatures: 0 },
        )
    }
}

/// New recovery and block usage after charging recovery work.
pub open spec fn recovery_spec(m: BlockMeterView, gas: u64, bytes: u64, signatures: u64) -> Result<
    (ResourceUsage, ResourceUsage),
    MeterError,
> {
    match add_spec(m.recovery.gas, gas) {
        Err(e) => Err(e),
        Ok(g) => match add_spec(m.recovery.bytes, bytes) {
            Err(e) => Err(e),
            Ok(b) => match add_spec(m.recovery.signatures, signatures) {
                Err(e) => Err(e),
                Ok(s) => if g > m.recovery_limits.max_gas || b > m.recovery_limits.max_bytes || s
                    > m.recovery_limits.max_signatures {
                    Err(MeterError::BlockCapacity)
                } else {
                    match adjust_spec(
                        m.usage,
                        m.limits,
                        ResourceUsage { gas: 0, bytes: 0, signatures: 0 },
                        ResourceUsage { gas, bytes, signatures },
                    ) {
                        Err(e) => Err(e),
                        Ok(u) => Ok((ResourceUsage { gas: g, bytes: b, signatures: s }, u)),
                    }
                },
            },
        },
    }
}

pub open spec fn charge_recovery_outcome(
    m: BlockMeterView,
    gas: u64,
    bytes: u64,
    signatures: u64,
) -> (BlockMeterView, Result<(), MeterError>) {
    if m.faulted {
        (m, Err(MeterError::Internal("block meter is faulted")))
    } else {
        match recovery_spec(m, gas, bytes, signatures) {
            Ok((next, u)) => (BlockMeterView { recovery: next, usage: u, ..m }, Ok(())),
            Err(e) => (m.with_fault(), Err(e)),
        }
    }
}

pub open spec fn rejected_wire_outcome(m: BlockMeterView, bytes: u64, profile: FeeProfile) -> (
    BlockMeterView,
    Result<(), MeterError>,
) {
    if m.faulted {
        (m, Err(MeterError::Internal("block meter is faulted")))
    } else if !profile.valid {
        (m.with_fault(), Err(MeterError::Internal("invalid ordinary fee profile")))
    } else if profile.digest@ != m.profile_digest {
        (m.with_fault(), Err(MeterError::Internal("block fee profile differs")))
    } else {
        match mul_spec(bytes, profile.wire_byte_cost) {
            Err(e) => (m.with_fault(), Err(e)),
            Ok(gas) => adjust_outcome(
                m,
                ResourceUsage { gas: 0, bytes: 0, signatures: 0 },
                ResourceUsage { gas, bytes, signatures: 0 },
            ),
        }
    }
}

} // verus!
