use dytallix_fast_node::governance_signed_admission::{BallotChoice, GovernanceActionInput};
use dytallix_fast_node::ordinary_authority::{Action, Denomination};
use dytallix_fast_node::ordinary_fee_settlement::PlanError;
use dytallix_fast_node::ordinary_reservation::{
    expected_debits, governance_reservation_request, reservation_request, ActionDebit, AssetBalance, DebitKind,
    GovernanceRequestInput, RequestInput, ReservationId,
};

const ACTOR: [u8; 32] = [3; 32];
const CONTEXT: [u8; 32] = [5; 32];

fn governance_input(actions: Vec<GovernanceActionInput>, nonce: u64) -> GovernanceRequestInput {
    GovernanceRequestInput {
        body_matches_verified: true,
        wire_len: Ok(321),
        envelope_matches: true,
        request_check: Ok(()),
        profile_digest: Ok([7; 32]),
        transaction_id: [1; 32],
        actor: ACTOR,
        spending_nonce: nonce,
        maximum_fee: 1000,
        fee_profile_digest: [7; 32],
        actions,
    }
}

#[test]
fn deposit_reserves_full_fee_and_unrestricted_dgt() {
    let input = governance_input(vec![GovernanceActionInput::Deposit { proposal_id: 1, amount_udgt: 17 }], 4);
    let request = governance_reservation_request(&input, CONTEXT).unwrap();
    assert_eq!(request.context_digest, CONTEXT);
    assert_eq!(request.payer, ACTOR);
    assert_eq!(request.nonce, 4);
    assert_eq!(request.fee_cap_udrt, 1000);
    assert_eq!(request.signature_work, 1);
    assert_eq!(request.wire_bytes, 321);
    assert_eq!(request.action_debits, request.unrestricted_debits);
    assert_eq!(request.action_debits.len(), 1);
    assert_eq!(request.action_debits[0].amount, 17);
    assert_eq!(request.action_debits[0].kind, DebitKind::Outflow);
    assert_eq!(request.id, ReservationId::OrdinaryV3 { transaction_id: [1; 32], profile_digest: [7; 32] });
}

#[test]
fn proposal_and_vote_reserve_no_dgt() {
    for action in [
        GovernanceActionInput::Proposal { proposal_id: 1, action_class: 9, action_data: vec![1, 2, 3], action_digest: [4; 32] },
        GovernanceActionInput::Vote { proposal_id: 1, choice: BallotChoice::Yes },
    ] {
        let request = governance_reservation_request(&governance_input(vec![action], 0), CONTEXT).unwrap();
        assert!(request.action_debits.is_empty());
        assert!(request.unrestricted_debits.is_empty());
    }
}

#[test]
fn verified_binding_rejects_changed_envelope_and_profile() {
    let vote = || vec![GovernanceActionInput::Vote { proposal_id: 1, choice: BallotChoice::No }];
    let changed = GovernanceRequestInput { envelope_matches: false, ..governance_input(vote(), 0) };
    assert_eq!(
        governance_reservation_request(&changed, CONTEXT).err(),
        Some("Governance reservation differs from verified envelope")
    );
    let other_body = GovernanceRequestInput { body_matches_verified: false, ..governance_input(vote(), 0) };
    assert_eq!(
        governance_reservation_request(&other_body, CONTEXT).err(),
        Some("Governance reservation body differs from verified body")
    );
    let other_profile = GovernanceRequestInput { profile_digest: Ok([8; 32]), ..governance_input(vote(), 0) };
    assert_eq!(
        governance_reservation_request(&other_profile, CONTEXT).err(),
        Some("Governance fee profile differs from signed body")
    );
    let early = GovernanceRequestInput { request_check: Err("Governance request is not yet active"), ..governance_input(vote(), 0) };
    assert_eq!(governance_reservation_request(&early, CONTEXT).err(), Some("Governance request is not yet active"));
    let exhausted = governance_input(vote(), u64::MAX);
    assert_eq!(governance_reservation_request(&exhausted, CONTEXT).err(), Some("Governance nonce exhausted"));
    let empty = GovernanceRequestInput { wire_len: Ok(0), ..governance_input(vote(), 0) };
    assert_eq!(governance_reservation_request(&empty, CONTEXT).err(), Some("Governance wire is empty"));
}

#[test]
fn zero_deposit_and_multiple_actions_cannot_make_reservations() {
    let zero = governance_input(vec![GovernanceActionInput::Deposit { proposal_id: 1, amount_udgt: 0 }], 0);
    assert_eq!(governance_reservation_request(&zero, CONTEXT).err(), Some("Governance deposit is zero"));
    let multiple = governance_input(
        vec![
            GovernanceActionInput::Vote { proposal_id: 1, choice: BallotChoice::Yes },
            GovernanceActionInput::Vote { proposal_id: 1, choice: BallotChoice::No },
        ],
        0,
    );
    assert_eq!(
        governance_reservation_request(&multiple, CONTEXT).err(),
        Some("Ordinary-v3 requires exactly one governance action")
    );
}

fn balances() -> Vec<AssetBalance> {
    vec![
        AssetBalance { owner: [2; 32], denomination: Denomination::Udgt, amount: 40 },
        AssetBalance { owner: [2; 32], denomination: Denomination::Udrt, amount: 0 },
        AssetBalance { owner: [4; 32], denomination: Denomination::Udrt, amount: 9 },
    ]
}

#[test]
fn debits_follow_actions_and_claim_each_owner_once() {
    let actions = vec![
        Action::Send { recipient: [2; 32], denomination: Denomination::Udrt, amount: 5 },
        Action::Send { recipient: ACTOR, denomination: Denomination::Udgt, amount: 6 },
        Action::RewardBond { validator_id: "v".to_string(), amount_udgt: 7 },
        Action::DmsClaim { owner: [2; 32], expected_grant_generation: 0 },
        Action::DmsClaim { owner: [2; 32], expected_grant_generation: 0 },
        Action::DmsClaim { owner: [4; 32], expected_grant_generation: 0 },
        Action::Data,
    ];
    let with_staking = expected_debits(ACTOR, &actions, &balances(), true);
    assert_eq!(
        with_staking,
        vec![
            ActionDebit { owner: ACTOR, denomination: Denomination::Udrt, amount: 5, kind: DebitKind::Outflow },
            ActionDebit { owner: ACTOR, denomination: Denomination::Udgt, amount: 6, kind: DebitKind::SelfTransfer },
            ActionDebit { owner: ACTOR, denomination: Denomination::Udgt, amount: 7, kind: DebitKind::Outflow },
            ActionDebit { owner: [2; 32], denomination: Denomination::Udgt, amount: 40, kind: DebitKind::Outflow },
            ActionDebit { owner: [4; 32], denomination: Denomination::Udrt, amount: 9, kind: DebitKind::Outflow },
        ]
    );
    let spending = expected_debits(ACTOR, &actions, &balances(), false);
    assert_eq!(spending.len(), 4);
    assert!(spending.iter().all(|d| d.amount != 7));
}

#[test]
fn ordinary_request_counts_wire_and_proofs() {
    let input = RequestInput {
        transaction_id: [1; 32],
        actor: ACTOR,
        spending_nonce: 2,
        maximum_fee: 900,
        actions: vec![
            Action::ValidatorRegister { validator_id: "v".to_string(), amount_udgt: 10 },
            Action::ValidatorRotateKey { validator_id: "v".to_string() },
            Action::Data,
        ],
        wire_prefix_len: 8,
        signing_len: Ok(200),
        signature_size: Ok(3309),
    };
    let request = reservation_request(&input, CONTEXT, &balances()).unwrap();
    assert_eq!(request.wire_bytes, 8 + 2 + 4 + 200 + 4 + 3309);
    assert_eq!(request.signature_work, 3);
    assert_eq!(request.id, ReservationId::Ordinary([1; 32]));
    assert_eq!(request.action_debits.len(), 1);
    assert!(request.unrestricted_debits.is_empty());
    let unknown = RequestInput { signature_size: Err("Unsupported ordinary signature algorithm"), ..input };
    assert_eq!(
        reservation_request(&unknown, CONTEXT, &balances()).err(),
        Some(PlanError::Rejected("Unsupported ordinary signature algorithm"))
    );
}
