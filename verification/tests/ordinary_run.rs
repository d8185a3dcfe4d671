use dytallix_fast_node::ordinary_actions::ActionFault;
use dytallix_fast_node::ordinary_fee_settlement::{Outcome, PlanError};
use dytallix_fast_node::ordinary_run::{
    check_capacity, check_retention, start, step, Phase, RunEvent, RunStep, RuntimeLimits,
};

#[test]
fn every_action_applied_and_written_keeps_the_action_checkpoint() {
    let (s, first) = start(2);
    assert_eq!(first, RunStep::MeterAction(0));
    let (s, next) = step(s, RunEvent::Metered { out_of_gas: false });
    assert_eq!(next, RunStep::ApplyAction(0));
    let (s, next) = step(s, RunEvent::Applied(Ok(())));
    assert_eq!(next, RunStep::WriteChanges(0));
    let (s, next) = step(s, RunEvent::Written { out_of_gas: false });
    assert_eq!(next, RunStep::CommitAndMeter(1));
    let (s, _) = step(s, RunEvent::Metered { out_of_gas: false });
    let (s, _) = step(s, RunEvent::Applied(Ok(())));
    let (s, last) = step(s, RunEvent::Written { out_of_gas: false });
    assert_eq!(last, RunStep::Finish { keep_actions: true });
    assert_eq!((s.phase, s.outcome, s.failure), (Phase::Finished, Outcome::Success, None));
    assert_eq!(start(0).1, RunStep::Finish { keep_actions: true });
}

#[test]
fn failures_roll_back_and_record_the_failing_action() {
    let (s, _) = start(3);
    let (s, _) = step(s, RunEvent::Metered { out_of_gas: false });
    let (s, _) = step(s, RunEvent::Applied(Ok(())));
    let (s, _) = step(s, RunEvent::Written { out_of_gas: false });
    let (s, _) = step(s, RunEvent::Metered { out_of_gas: false });
    let (rule, done) = step(s, RunEvent::Applied(Err(ActionFault::Rule("ACTION_STATE_PRECONDITION", "DMS_INACTIVITY_DELAY"))));
    assert_eq!(done, RunStep::Finish { keep_actions: false });
    assert_eq!(rule.outcome, Outcome::ApplicationFailure);
    assert_eq!(rule.failure, Some((1, "APPLICATION", "ACTION_STATE_PRECONDITION", "DMS_INACTIVITY_DELAY")));
    let (gas, done) = step(s, RunEvent::Applied(Ok(())));
    assert_eq!(done, RunStep::WriteChanges(1));
    let (gas, done) = step(gas, RunEvent::Written { out_of_gas: true });
    assert_eq!(done, RunStep::Finish { keep_actions: false });
    assert_eq!((gas.outcome, gas.failure), (Outcome::OutOfGas, Some((1, "WRITE", "", "OUT_OF_GAS"))));
    let (metered, _) = step(start(1).0, RunEvent::Metered { out_of_gas: true });
    assert_eq!(metered.failure, Some((0, "ACTION", "", "OUT_OF_GAS")));
    let (_, abort) = step(s, RunEvent::Applied(Err(ActionFault::Internal("Grant disappeared"))));
    assert_eq!(abort, RunStep::Abort("Grant disappeared"));
    let (_, wrong) = step(start(1).0, RunEvent::Written { out_of_gas: false });
    assert_eq!(wrong, RunStep::Abort("Ordinary execution step out of order"));
}

#[test]
fn retention_and_capacity_limits_are_checked_in_order() {
    let limits = RuntimeLimits { max_receipts: 2, max_retained_profiles: 1, max_grants: 1 };
    assert_eq!(check_retention(&limits, 2, 1, 1), Ok(()));
    assert_eq!(check_retention(&limits, 3, 1, 1), Err(PlanError::Internal("Committed ordinary retention bound exceeded")));
    let zero = RuntimeLimits { max_grants: 0, ..limits };
    assert_eq!(check_retention(&zero, 0, 0, 0), Err(PlanError::Internal("Invalid explicit ordinary retention limits")));
    assert_eq!(check_capacity(&limits, 1, 1, true, 1), Ok(()));
    assert_eq!(check_capacity(&limits, 2, 0, true, 0), Err(PlanError::Rejected("Ordinary receipt retention capacity exhausted")));
    assert_eq!(
        check_capacity(&limits, 1, 1, false, 0),
        Err(PlanError::Rejected("Ordinary retained profile or grant capacity exhausted"))
    );
    assert_eq!(
        check_capacity(&limits, 1, 0, false, 2),
        Err(PlanError::Rejected("Ordinary retained profile or grant capacity exhausted"))
    );
}
