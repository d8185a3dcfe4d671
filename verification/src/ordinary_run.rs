//! The ordered action loop of paid ordinary execution, as a step function
//! from the loop's state and the result of the last step to the next state
//! and the next step. The caller performs each step: it meters an action,
//! applies it to a proposed copy of the checkpoint, and meters that copy's
//! writes. Only a transaction whose every action applied and was written
//! keeps its action checkpoint; any other outcome rolls back to the
//! reservation checkpoint, and its fee and nonce are still applied. An
//! internal fault aborts the block.
use vstd::prelude::*;
use crate::ordinary_actions::ActionFault;
use crate::ordinary_fee_settlement::{Outcome, PlanError, RuntimeFailure};

verus! {

/// Where the loop stands within its current action.
#[derive(Clone, Copy, Debug, PartialEq, Eq, Structural)]
pub enum Phase {
    Meter,
    Apply,
    Write,
    Finished,
}

/// The loop's state: the current action, the number of actions, where it
/// stands, and the outcome so far.
#[derive(Clone, Copy, Debug, PartialEq, Eq)]
pub struct RunState {
    pub action: u16,
    pub count: u16,
    pub phase: Phase,
    pub outcome: Outcome,
    pub failure: Option<RuntimeFailure>,
}

/// The result of the step the caller performed.
#[derive(Clone, Copy, Debug, PartialEq, Eq)]
pub enum RunEvent {
    /// The meter's charge for the current action: within gas, or out of it.
    Metered { out_of_gas: bool },
    /// Applying the current action to the proposed checkpoint.
    Applied(Result<(), ActionFault>),
    /// Metering the proposed checkpoint's writes: within gas, or out of it.
    Written { out_of_gas: bool },
}

/// The step the caller performs next.
#[derive(Clone, Copy, Debug, PartialEq, Eq)]
pub enum RunStep {
    /// Meter action `0`-based index.
    MeterAction(u16),
    /// Apply the action to a copy of the current checkpoint.
    ApplyAction(u16),
    /// Meter the copy's writes against the current checkpoint.
    WriteChanges(u16),
    /// Make the written copy the current checkpoint, then meter the next action.
    CommitAndMeter(u16),
    /// Finish the meter and retain the receipt: keep the action checkpoint
    /// (with the last written copy committed) or roll back to the
    /// reservation checkpoint.
    Finish { keep_actions: bool },
    /// An internal fault: the block must be aborted.
    Abort(&'static str),
}

pub open spec fn finished(s: RunState, outcome: Outcome, failure: Option<RuntimeFailure>) -> RunState {
    RunState { phase: Phase::Finished, outcome, failure, ..s }
}

pub open spec fn out_of_order() -> &'static str {
    "Ordinary execution step out of order"
}

/// The loop before its first step.
pub open spec fn start_spec(count: u16) -> (RunState, RunStep) {
    let s = RunState { action: 0, count, phase: Phase::Meter, outcome: Outcome::Success, failure: None };
    if count == 0 {
        (finished(s, Outcome::Success, None), RunStep::Finish { keep_actions: true })
    } else {
        (s, RunStep::MeterAction(0))
    }
}

/// One step of the loop.
pub open spec fn step_spec(s: RunState, e: RunEvent) -> (RunState, RunStep) {
    let i = s.action;
    match (s.phase, e) {
        (Phase::Meter, RunEvent::Metered { out_of_gas }) => if out_of_gas {
            (
                finished(s, Outcome::OutOfGas, Some((i, "ACTION", "", "OUT_OF_GAS"))),
                RunStep::Finish { keep_actions: false },
            )
        } else {
            (RunState { phase: Phase::Apply, ..s }, RunStep::ApplyAction(i))
        },
        (Phase::Apply, RunEvent::Applied(r)) => match r {
            Ok(()) => (RunState { phase: Phase::Write, ..s }, RunStep::WriteChanges(i)),
            Err(ActionFault::Rule(class, code)) => (
                finished(s, Outcome::ApplicationFailure, Some((i, "APPLICATION", class, code))),
                RunStep::Finish { keep_actions: false },
            ),
            Err(ActionFault::Internal(m)) => (finished(s, s.outcome, s.failure), RunStep::Abort(m)),
        },
        (Phase::Write, RunEvent::Written { out_of_gas }) => if out_of_gas {
            (
                finished(s, Outcome::OutOfGas, Some((i, "WRITE", "", "OUT_OF_GAS"))),
                RunStep::Finish { keep_actions: false },
            )
        } else if i + 1 >= s.count {
            (finished(s, Outcome::Success, None), RunStep::Finish { keep_actions: true })
        } else {
            (
                RunState { action: (i + 1) as u16, phase: Phase::Meter, ..s },
                RunStep::CommitAndMeter((i + 1) as u16),
            )
        },
        _ => (finished(s, s.outcome, s.failure), RunStep::Abort(out_of_order())),
    }
}

/// Begin the loop over `count` actions.
pub fn start(count: u16) -> (r: (RunState, RunStep))
    ensures
        r == start_spec(count),
{
    let s = RunState { action: 0, count, phase: Phase::Meter, outcome: Outcome::Success, failure: None };
    if count == 0 {
        (RunState { phase: Phase::Finished, ..s }, RunStep::Finish { keep_actions: true })
    } else {
        (s, RunStep::MeterAction(0))
    }
}

/// Take one step: from the loop's state and the result of the step the
/// caller performed, the next state and the next step.
pub fn step(s: RunState, e: RunEvent) -> (r: (RunState, RunStep))
    requires
        s.action < s.count,
    ensures
        r == step_spec(s, e),
{
    let i = s.action;
    match (s.phase, e) {
        (Phase::Meter, RunEvent::Metered { out_of_gas }) => if out_of_gas {
            (
                RunState { phase: Phase::Finished, outcome: Outcome::OutOfGas, failure: Some((i, "ACTION", "", "OUT_OF_GAS")), ..s },
                RunStep::Finish { keep_actions: false },
            )
        } else {
            (RunState { phase: Phase::Apply, ..s }, RunStep::ApplyAction(i))
        },
        (Phase::Apply, RunEvent::Applied(r)) => match r {
            Ok(()) => (RunState { phase: Phase::Write, ..s }, RunStep::WriteChanges(i)),
            Err(ActionFault::Rule(class, code)) => (
                RunState {
                    phase: Phase::Finished,
                    outcome: Outcome::ApplicationFailure,
                    failure: Some((i, "APPLICATION", class, code)),
                    ..s
                },
                RunStep::Finish { keep_actions: false },
            ),
            Err(ActionFault::Internal(m)) => (RunState { phase: Phase::Finished, ..s }, RunStep::Abort(m)),
        },
        (Phase::Write, RunEvent::Written { out_of_gas }) => if out_of_gas {
            (
                RunState { phase: Phase::Finished, outcome: Outcome::OutOfGas, failure: Some((i, "WRITE", "", "OUT_OF_GAS")), ..s },
                RunStep::Finish { keep_actions: false },
            )
        } else if i + 1 >= s.count {
            (RunState { phase: Phase::Finished, outcome: Outcome::Success, failure: None, ..s }, RunStep::Finish { keep_actions: true })
        } else {
            (RunState { action: i + 1, phase: Phase::Meter, ..s }, RunStep::CommitAndMeter(i + 1))
        },
        _ => (RunState { phase: Phase::Finished, ..s }, RunStep::Abort("Ordinary execution step out of order")),
    }
}

/// Only an accepted, fully applied result publishes its action checkpoint:
/// every step that finishes keeps the action checkpoint exactly when the
/// outcome is a success, a success records no failure, and any other outcome
/// records the failing action, which is the action the loop stood at.
pub proof fn law_only_success_keeps_the_action_checkpoint(s: RunState, e: RunEvent)
    requires
        s.action < s.count,
        s.outcome == Outcome::Success,
        s.failure is None,
    ensures
        step_spec(s, e).1 matches RunStep::Finish { keep_actions } ==> {
            let n = step_spec(s, e).0;
            &&& keep_actions == (n.outcome == Outcome::Success)
            &&& n.phase == Phase::Finished
            &&& (n.outcome == Outcome::Success ==> n.failure is None && s.action + 1 == s.count)
            &&& (n.outcome != Outcome::Success ==> (n.failure matches Some(f) && f.0 == s.action))
        },
{
}

/// The loop takes the actions in order: a step that goes on moves to the
/// next action exactly when the current one was applied and written, and
/// never past the last one.
pub proof fn law_actions_run_in_order(s: RunState, e: RunEvent)
    requires
        s.action < s.count,
    ensures
        step_spec(s, e).1 matches RunStep::CommitAndMeter(j) ==> j == s.action + 1 && j < s.count
            && s.phase == Phase::Write && step_spec(s, e).0.action == j,
        step_spec(s, e).1 matches RunStep::ApplyAction(j) ==> j == s.action && s.phase == Phase::Meter,
        step_spec(s, e).1 matches RunStep::WriteChanges(j) ==> j == s.action && s.phase == Phase::Apply,
        step_spec(s, e).0.count == s.count,
{
}

/// The explicit retention limits of ordinary execution.
#[derive(Clone, Copy, Debug, PartialEq, Eq)]
pub struct RuntimeLimits {
    pub max_receipts: usize,
    pub max_retained_profiles: usize,
    pub max_grants: usize,
}

/// Whether the limits are usable: receipts and profiles each within 1 to
/// 65536, and room for at least one grant.
pub open spec fn limits_valid(l: RuntimeLimits) -> bool {
    0 < l.max_receipts <= 65536 && 0 < l.max_retained_profiles <= 65536 && l.max_grants > 0
}

/// The retention checks of execution before the signature's transaction ID
/// is looked up: the limits, then the committed history and grants against
/// them.
pub open spec fn retention_spec(l: RuntimeLimits, receipts: nat, profiles: nat, grants: nat) -> Result<(), PlanError> {
    if !limits_valid(l) {
        Err(PlanError::Internal("Invalid explicit ordinary retention limits"))
    } else if receipts > l.max_receipts || profiles > l.max_retained_profiles || grants > l.max_grants {
        Err(PlanError::Internal("Committed ordinary retention bound exceeded"))
    } else {
        Ok(())
    }
}

/// Check the limits and the committed retention against them.
pub fn check_retention(l: &RuntimeLimits, receipts: usize, profiles: usize, grants: usize) -> (r: Result<(), PlanError>)
    ensures
        r == retention_spec(*l, receipts as nat, profiles as nat, grants as nat),
{
    if l.max_receipts == 0 || l.max_receipts > 65536 || l.max_retained_profiles == 0 || l.max_retained_profiles > 65536
        || l.max_grants == 0 {
        return Err(PlanError::Internal("Invalid explicit ordinary retention limits"));
    }
    if receipts > l.max_receipts || profiles > l.max_retained_profiles || grants > l.max_grants {
        return Err(PlanError::Internal("Committed ordinary retention bound exceeded"));
    }
    Ok(())
}

/// The capacity checks of a new transaction: a new receipt must fit, and so
/// must its profile (unless already retained) and the grants it would leave.
pub open spec fn capacity_spec(
    l: RuntimeLimits,
    receipts: nat,
    profiles: nat,
    profile_retained: bool,
    prospective_grants: nat,
) -> Result<(), PlanError> {
    if receipts >= l.max_receipts {
        Err(PlanError::Rejected("Ordinary receipt retention capacity exhausted"))
    } else if (!profile_retained && profiles >= l.max_retained_profiles) || prospective_grants > l.max_grants {
        Err(PlanError::Rejected("Ordinary retained profile or grant capacity exhausted"))
    } else {
        Ok(())
    }
}

/// Check that a new transaction's receipt, profile and grants fit.
pub fn check_capacity(
    l: &RuntimeLimits,
    receipts: usize,
    profiles: usize,
    profile_retained: bool,
    prospective_grants: usize,
) -> (r: Result<(), PlanError>)
    ensures
        r == capacity_spec(*l, receipts as nat, profiles as nat, profile_retained, prospective_grants as nat),
{
    if receipts >= l.max_receipts {
        return Err(PlanError::Rejected("Ordinary receipt retention capacity exhausted"));
    }
    if (!profile_retained && profiles >= l.max_retained_profiles) || prospective_grants > l.max_grants {
        return Err(PlanError::Rejected("Ordinary retained profile or grant capacity exhausted"));
    }
    Ok(())
}

} // verus!
