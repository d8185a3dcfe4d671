//! Properties that hold across every step of the work meters.
use vstd::prelude::*;
use crate::block_meter::{adjust_outcome, BlockMeterView, FeeProfile, ResourceUsage};
use crate::ordinary_meter::MeterError;
use crate::transaction_meter::{
    accept_inner, action_inner, is_live, new_outcome, read_inner, settle_error, signature_inner, update_outcome,
    write_inner, MeteredBody, OrdinaryMeterView, Phase,
};
use crate::governance_v3_meter::{
    new_v3, read_v3, update_v3, write_v3, GovernanceMeterView, MeterError as GovernanceError, MeteredGovernanceBody,
};

verus! {

/// A faulted block stays faulted: every adjustment is refused and leaves the
/// block as it was.
pub proof fn law_block_fault_is_sticky(b: BlockMeterView, owned: ResourceUsage, next: ResourceUsage)
    requires
        b.faulted,
    ensures
        adjust_outcome(b, owned, next).0 == b,
        adjust_outcome(b, owned, next).1 is Err,
{
}

/// Block counters never pass their limits: an adjustment of a block within
/// its limits leaves it within its limits, whether it succeeds or fails.
pub proof fn law_block_stays_within_limits(b: BlockMeterView, owned: ResourceUsage, next: ResourceUsage)
    requires
        b.wf(),
    ensures
        adjust_outcome(b, owned, next).0.wf(),
        adjust_outcome(b, owned, next).0.limits == b.limits,
{
}

/// A meter update keeps the block within its limits.
pub proof fn law_update_keeps_block_within_limits(
    m: OrdinaryMeterView,
    base: u64,
    writes: u64,
    metadata: u64,
    bytes: u64,
    signatures: u64,
)
    requires
        m.block.wf(),
    ensures
        update_outcome(m, base, writes, metadata, bytes, signatures).0.block.wf(),
{
}

/// Whether a step leaves a meter ended and its counters as they were.
pub open spec fn stays_ended(m: OrdinaryMeterView, step: (OrdinaryMeterView, Result<(), MeterError>)) -> bool {
    &&& step.1 is Err
    &&& !is_live(step.0.phase)
    &&& step.0.usage == m.usage
    &&& step.0.block.usage == m.block.usage
    &&& step.0.block.limits == m.block.limits
}

/// A rejected, exhausted or faulted ordinary meter never resumes: every step
/// fails and charges nothing more to the meter or to the block.
pub proof fn law_terminal_meter_never_resumes(m: OrdinaryMeterView, index: u16, key: Seq<u8>, len: u64)
    requires
        !is_live(m.phase),
    ensures
        stays_ended(m, settle_error(signature_inner(m).0, signature_inner(m).1)),
        stays_ended(m, settle_error(read_inner(m, key, len).0, read_inner(m, key, len).1)),
        stays_ended(m, settle_error(accept_inner(m).0, accept_inner(m).1)),
        stays_ended(m, settle_error(action_inner(m, index).0, action_inner(m, index).1)),
        stays_ended(m, settle_error(write_inner(m, key, len).0, write_inner(m, key, len).1)),
{
}

/// A logical key is charged once: reading a key already read changes
/// nothing and succeeds.
pub proof fn law_read_counts_once(m: OrdinaryMeterView, key: Seq<u8>, len: u64)
    requires
        is_live(m.phase),
        m.read_keys.contains(key),
    ensures
        settle_error(read_inner(m, key, len).0, read_inner(m, key, len).1) == (m, Ok::<(), MeterError>(())),
{
}

/// Running out of gas after acceptance charges exactly the signed limit and
/// ends the meter as exhausted.
pub proof fn law_out_of_gas_charges_the_limit(
    m: OrdinaryMeterView,
    base: u64,
    writes: u64,
    metadata: u64,
    bytes: u64,
    signatures: u64,
)
    ensures
        update_outcome(m, base, writes, metadata, bytes, signatures).1 == Err::<(), MeterError>(MeterError::AcceptedOutOfGas)
            ==> {
            &&& update_outcome(m, base, writes, metadata, bytes, signatures).0.usage.gas == m.limit
            &&& update_outcome(m, base, writes, metadata, bytes, signatures).0.phase == Phase::Exhausted
            &&& m.phase == Phase::Accepted
        },
        update_outcome(m, base, writes, metadata, bytes, signatures).1 matches Err(MeterError::PreAcceptanceRejected(_))
            ==> update_outcome(m, base, writes, metadata, bytes, signatures).0.phase == Phase::Rejected
            && m.phase == Phase::Validation,
{
}

/// The same out-of-gas rule for every governance read and write.
pub proof fn law_governance_out_of_gas_charges_the_limit(m: GovernanceMeterView, key: Seq<u8>, len: u64)
    ensures
        read_v3(m, key, len).1 == Err::<(), GovernanceError>(GovernanceError::AcceptedOutOfGas) ==> read_v3(
            m,
            key,
            len,
        ).0.usage.gas == m.limit && read_v3(m, key, len).0.phase == Phase::Exhausted,
        write_v3(m, key, len).1 == Err::<(), GovernanceError>(GovernanceError::AcceptedOutOfGas) ==> write_v3(
            m,
            key,
            len,
        ).0.usage.gas == m.limit && write_v3(m, key, len).0.phase == Phase::Exhausted,
{
}

proof fn lemma_written_cost_after_record(m: OrdinaryMeterView, key: Seq<u8>, cost: u64)
    requires
        m.write_keys.len() == m.write_costs.len(),
    ensures
        crate::transaction_meter::record_write(m, key, cost).written_cost(key) == cost,
        crate::transaction_meter::record_write(m, key, cost).write_keys.len()
            == crate::transaction_meter::record_write(m, key, cost).write_costs.len(),
{
    let r = crate::transaction_meter::record_write(m, key, cost);
    if m.write_keys.contains(key) {
        let i = m.write_keys.index_of(key);
        assert(r.write_keys == m.write_keys);
        assert(r.write_costs[i] == cost);
    } else {
        let k = m.write_keys.push(key);
        assert(k[m.write_keys.len() as int] == key);
        assert(k.contains(key));
        let i = k.index_of(key);
        assert(k[i] == key);
        if i < m.write_keys.len() {
            assert(m.write_keys[i] == key);
            assert(m.write_keys.contains(key));
        }
        assert(i == m.write_keys.len());
        assert(r.write_costs[i] == cost);
    }
}

/// Proposing the same write twice costs what proposing it once costs: the
/// latest representation of a key replaces the earlier one.
pub proof fn law_rewrite_same_size_is_free(m: OrdinaryMeterView, key: Seq<u8>, len: u64)
    requires
        m.write_keys.len() == m.write_costs.len(),
        write_inner(m, key, len).1 is Ok,
    ensures
        write_inner(write_inner(m, key, len).0, key, len).1 is Ok,
        write_inner(write_inner(m, key, len).0, key, len).0.usage == write_inner(m, key, len).0.usage,
        write_inner(write_inner(m, key, len).0, key, len).0.write_gas == write_inner(m, key, len).0.write_gas,
{
    let m1 = write_inner(m, key, len).0;
    let cost = (len * m.write_price) as u64;
    let prior = m.written_cost(key);
    let proposed = (m.write_gas - prior + cost) as u64;
    let m2 = update_outcome(m, m.base_gas, proposed, m.metadata, m.usage.bytes, m.usage.signatures).0;
    assert(m1 == crate::transaction_meter::record_write(m2, key, cost));
    lemma_written_cost_after_record(m2, key, cost);
    assert(m1.written_cost(key) == cost);
    assert(m1.write_gas == proposed);
    assert(m1.usage.gas == m.base_gas + proposed + m.metadata);
}

/// A meter prices reads and writes as its fee profile does: a meter that
/// opens successfully carries the profile's read and write byte costs.
pub proof fn law_meter_prices_come_from_the_profile(profile: FeeProfile, body: MeteredBody, block: BlockMeterView)
    ensures
        new_outcome(profile, body, block) matches Ok(m) ==> m.read_price == profile.read_byte_cost
            && m.write_price == profile.write_byte_cost && m.usage.gas == m.base_gas + m.write_gas + m.metadata
            && m.read_keys.len() == 0 && is_live(m.phase),
        new_outcome(profile, body, block) matches Ok(m) ==> {
            &&& m.metadata_price == profile.receipt_metadata_cost
            &&& m.action_costs == profile.action_costs@
            &&& m.phase == Phase::Validation && !m.signature && m.limit == body.gas_limit
            &&& body.wire matches crate::transaction_meter::WireEncoding::Bytes(n) && m.usage.gas == n
                * profile.wire_byte_cost + profile.transaction_overhead && m.usage.bytes == n && m.usage.signatures == 0
        },
{
}

/// No meter step changes the prices a meter charges.
pub proof fn law_meter_steps_keep_prices(m: OrdinaryMeterView, index: u16, key: Seq<u8>, len: u64)
    ensures
        signature_inner(m).0.read_price == m.read_price && signature_inner(m).0.write_price == m.write_price,
        read_inner(m, key, len).0.read_price == m.read_price && read_inner(m, key, len).0.write_price == m.write_price,
        accept_inner(m).0.read_price == m.read_price && accept_inner(m).0.write_price == m.write_price,
        action_inner(m, index).0.read_price == m.read_price && action_inner(m, index).0.write_price == m.write_price,
        write_inner(m, key, len).0.read_price == m.read_price && write_inner(m, key, len).0.write_price
            == m.write_price,
{
}

/// The first read of a key charges its bytes at the read price: when it
/// succeeds, the meter's gas grows by exactly `len` times the read price and
/// the key counts as read.
pub proof fn law_first_read_charges_its_bytes(m: OrdinaryMeterView, key: Seq<u8>, len: u64)
    requires
        is_live(m.phase),
        m.usage.gas == m.base_gas + m.write_gas + m.metadata,
        !m.read_keys.contains(key),
    ensures
        read_inner(m, key, len).1 is Ok ==> {
            &&& read_inner(m, key, len).0.usage.gas == m.usage.gas + len * m.read_price
            &&& read_inner(m, key, len).0.read_keys.contains(key)
        },
{
    if read_inner(m, key, len).1 is Ok {
        assert(read_inner(m, key, len).0.read_keys == m.read_keys.push(key));
        assert(m.read_keys.push(key)[m.read_keys.len() as int] == key);
    }
}

/// A signed meter reads at its profile's read byte cost: after a meter opens
/// and meters the signature, a first read of `len` bytes that succeeds adds
/// exactly `len * profile.read_byte_cost` gas, whatever the write cost is.
pub proof fn law_signed_meter_reads_at_the_profile_price(
    profile: FeeProfile,
    body: MeteredBody,
    block: BlockMeterView,
    key: Seq<u8>,
    len: u64,
)
    ensures
        new_outcome(profile, body, block) matches Ok(m0) ==> ({
            let m1 = signature_inner(m0).0;
            signature_inner(m0).1 is Ok && read_inner(m1, key, len).1 is Ok ==> read_inner(m1, key, len).0.usage.gas
                == m1.usage.gas + len * profile.read_byte_cost
        }),
{
    law_meter_prices_come_from_the_profile(profile, body, block);
    if let Ok(m0) = new_outcome(profile, body, block) {
        let m1 = signature_inner(m0).0;
        law_meter_steps_keep_prices(m0, 0, key, len);
        if signature_inner(m0).1 is Ok {
            assert(m1.read_keys == m0.read_keys);
            law_first_read_charges_its_bytes(m1, key, len);
        }
    }
}

/// A proposed write charges its bytes at the write price, replacing what the
/// key's earlier proposal cost: when it succeeds, the meter's gas becomes
/// what it was, less the key's earlier write cost, plus `len` times the
/// write price, and that is the key's recorded cost.
pub proof fn law_write_charges_its_bytes(m: OrdinaryMeterView, key: Seq<u8>, len: u64)
    requires
        is_live(m.phase),
        m.usage.gas == m.base_gas + m.write_gas + m.metadata,
        m.write_keys.len() == m.write_costs.len(),
    ensures
        write_inner(m, key, len).1 is Ok ==> {
            &&& write_inner(m, key, len).0.usage.gas == m.usage.gas - m.written_cost(key) + len * m.write_price
            &&& write_inner(m, key, len).0.written_cost(key) == len * m.write_price
        },
{
    if write_inner(m, key, len).1 is Ok {
        let cost = (len * m.write_price) as u64;
        let prior = m.written_cost(key);
        let proposed = (m.write_gas - prior + cost) as u64;
        let m2 = update_outcome(m, m.base_gas, proposed, m.metadata, m.usage.bytes, m.usage.signatures).0;
        lemma_written_cost_after_record(m2, key, cost);
    }
}

/// The signature charges its algorithm's price once: when it succeeds, the
/// meter's gas grows by exactly that price and one signature check is
/// counted; a second signature is refused.
pub proof fn law_signature_charges_its_price(m: OrdinaryMeterView)
    requires
        is_live(m.phase),
        m.usage.gas == m.base_gas + m.write_gas + m.metadata,
    ensures
        signature_inner(m).1 is Ok ==> {
            &&& m.signature_price matches Some(price) && signature_inner(m).0.usage.gas == m.usage.gas + price
            &&& signature_inner(m).0.usage.signatures == m.usage.signatures + 1
            &&& signature_inner(m).0.signature
            &&& !m.signature
        },
{
}

/// Acceptance charges the receipt metadata once, in place of what metadata
/// was charged before, and moves the meter to the accepted phase.
pub proof fn law_acceptance_charges_metadata(m: OrdinaryMeterView)
    requires
        is_live(m.phase),
        m.usage.gas == m.base_gas + m.write_gas + m.metadata,
    ensures
        accept_inner(m).1 is Ok ==> {
            &&& accept_inner(m).0.usage.gas == m.usage.gas - m.metadata + m.metadata_price
            &&& accept_inner(m).0.phase == Phase::Accepted
            &&& m.phase == Phase::Validation && m.signature
        },
{
}

/// Each action charges its kind's entry of the cost table, in the table's
/// order (send, data, grant register, ping, claim, stake bond, begin unbond,
/// reward claim, validator register, rotate key, exit, withdraw), and the
/// actions are charged in order.
pub proof fn law_action_charges_its_kind_cost(m: OrdinaryMeterView, index: u16)
    requires
        is_live(m.phase),
        m.usage.gas == m.base_gas + m.write_gas + m.metadata,
        m.actions.len() <= u16::MAX,
    ensures
        action_inner(m, index).1 is Ok ==> {
            &&& index == m.next_action && index < m.actions.len()
            &&& action_inner(m, index).0.next_action == index + 1
            &&& action_inner(m, index).0.usage.gas == m.usage.gas + m.action_costs[match m.actions[index as int] {
                crate::transaction_meter::ActionKind::Send => 0int,
                crate::transaction_meter::ActionKind::Data => 1int,
                crate::transaction_meter::ActionKind::DmsRegister => 2int,
                crate::transaction_meter::ActionKind::DmsPing => 3int,
                crate::transaction_meter::ActionKind::DmsClaim => 4int,
                crate::transaction_meter::ActionKind::RewardBond => 5int,
                crate::transaction_meter::ActionKind::RewardBeginUnbond => 6int,
                crate::transaction_meter::ActionKind::RewardClaim => 7int,
                crate::transaction_meter::ActionKind::ValidatorRegister => 8int,
                crate::transaction_meter::ActionKind::ValidatorRotateKey => 9int,
                crate::transaction_meter::ActionKind::ValidatorExit => 10int,
                crate::transaction_meter::ActionKind::ValidatorWithdraw => 11int,
            }]
        },
{
    if action_inner(m, index).1 is Ok {
        let a = m.actions[index as int];
        let t = crate::transaction_meter::action_tag_spec(a);
        match a {
            crate::transaction_meter::ActionKind::Send => assert(t == 0),
            crate::transaction_meter::ActionKind::Data => assert(t == 1),
            crate::transaction_meter::ActionKind::DmsRegister => assert(t == 2),
            crate::transaction_meter::ActionKind::DmsPing => assert(t == 3),
            crate::transaction_meter::ActionKind::DmsClaim => assert(t == 4),
            crate::transaction_meter::ActionKind::RewardBond => assert(t == 5),
            crate::transaction_meter::ActionKind::RewardBeginUnbond => assert(t == 6),
            crate::transaction_meter::ActionKind::RewardClaim => assert(t == 7),
            crate::transaction_meter::ActionKind::ValidatorRegister => assert(t == 8),
            crate::transaction_meter::ActionKind::ValidatorRotateKey => assert(t == 9),
            crate::transaction_meter::ActionKind::ValidatorExit => assert(t == 10),
            crate::transaction_meter::ActionKind::ValidatorWithdraw => assert(t == 11),
        }
    }
}

/// A governance meter prices reads and writes as the base fee profile does.
pub proof fn law_governance_meter_prices_come_from_the_profile(
    profile: crate::block_meter::FeeProfileV3,
    body: MeteredGovernanceBody,
    block: BlockMeterView,
)
    ensures
        new_v3(profile, body, block) matches Ok(m) ==> m.read_price == profile.base.read_byte_cost
            && m.write_price == profile.base.write_byte_cost && m.metadata_price == profile.base.receipt_metadata_cost
            && m.read_keys.len() == 0 && m.usage.gas == m.base_gas + m.write_gas + m.metadata_gas && is_live(m.phase),
{
}

/// A first governance read charges its bytes at the read price: when it
/// succeeds, the meter's gas grows by exactly `len` times the read price.
pub proof fn law_governance_first_read_charges_its_bytes(m: GovernanceMeterView, key: Seq<u8>, len: u64)
    requires
        is_live(m.phase),
        m.usage.gas == m.base_gas + m.write_gas + m.metadata_gas,
        !m.read_keys.contains(key),
    ensures
        read_v3(m, key, len).1 is Ok ==> read_v3(m, key, len).0.usage.gas == m.usage.gas + len * m.read_price
            && read_v3(m, key, len).0.read_price == m.read_price,
{
}

/// A governance write charges its bytes at the write price, replacing what
/// the key's earlier proposal cost.
pub proof fn law_governance_write_charges_its_bytes(m: GovernanceMeterView, key: Seq<u8>, len: u64)
    requires
        is_live(m.phase),
        m.usage.gas == m.base_gas + m.write_gas + m.metadata_gas,
    ensures
        write_v3(m, key, len).1 is Ok ==> write_v3(m, key, len).0.usage.gas == m.usage.gas - m.written_cost(key) + len
            * m.write_price && write_v3(m, key, len).0.write_price == m.write_price,
{
}

} // verus!
