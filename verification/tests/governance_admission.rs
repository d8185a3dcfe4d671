use dytallix_fast_node::governance_signed_admission::{
    assess_signed, assess_signed_staged, assess_signed_view, ActorAuthority, StagedAccount, StagedBook, AdmissionAction, AdmissionParent, AdmissionStage,
    AssessedAction, BallotChoice, BallotView, GovernanceActionInput, ProposalView, SignedGovernance,
};
use dytallix_fast_node::governance_v3_fee_settlement::{Outcome, V3FeeReceipt};

fn parent() -> AdmissionParent {
    AdmissionParent {
        candidate_valid: true,
        governance_valid: true,
        mirrors_valid: true,
        recovery_height: 9,
        finalized_height: 9,
        lifecycle_height: 9,
        app_hash: [5; 32],
        lifecycle_valid: true,
        chains_match: true,
        max_expiry_lifetime: 100,
        action_classes: vec![(1, 8), (2, 64)],
    }
}

fn stage() -> AdmissionStage {
    AdmissionStage {
        mirrors_valid: true,
        next_proposal_id: 3,
        actor: Some(ActorAuthority { account_id: [3; 32], domain_matches: true, key_current: true, spending_nonce: 4, outgoing_allowed: true }),
        proposals: vec![ProposalView {
            proposal_id: 2,
            deposit_rules_match: true,
            collecting: true,
            close_height: 50,
            ballot: Some(BallotView { rules_match: true, accepts_vote: true }),
        }],
    }
}

fn signed(action: GovernanceActionInput) -> SignedGovernance {
    SignedGovernance {
        signature_valid: true,
        request_valid: true,
        domain_matches_candidate: true,
        transaction_id: [1; 32],
        envelope_hash: [2; 32],
        actor: [3; 32],
        spending_nonce: 4,
        expiry_height: 20,
        gas_limit: 1000,
        maximum_fee: 5000,
        contract_version: 1,
        profile_version: 7,
        profile_digest: [8; 32],
        actions: vec![action],
        digest_matches: true,
        proposer_bonded: true,
    }
}

fn receipt() -> V3FeeReceipt {
    V3FeeReceipt {
        version: 2,
        transaction_id: [1; 32],
        envelope_hash: [2; 32],
        actor: [3; 32],
        block_height: 10,
        block_index: 0,
        contract_version: 1,
        profile_version: 7,
        profile_digest: [8; 32],
        outcome: Outcome::Success,
        failure_code: None,
        gas_limit: 1000,
        gas_used: 900,
        metadata_gas: 50,
        reserved_cap: 5000,
        charge: 1800,
        released_cap: 3200,
        nonce_before: 4,
        nonce_after: 5,
    }
}

#[test]
fn ordered_vote_uses_the_authenticated_actor() {
    let a = assess_signed(
        &signed(GovernanceActionInput::Vote { proposal_id: 2, choice: BallotChoice::NoWithVeto }),
        &parent(),
        &stage(),
    )
    .unwrap();
    assert_eq!(a.admission_height(), 10);
    assert_eq!((a.nonce_before(), a.nonce_after()), (4, 5));
    assert_eq!(a.actor(), [3; 32]);
    assert_eq!(a.transaction_id(), [1; 32]);
    assert_eq!(a.envelope_hash(), [2; 32]);
    assert_eq!(a.action(), &AssessedAction::Vote { proposal_id: 2, choice: BallotChoice::NoWithVeto });
    assert_eq!(
        a.ordered_action(),
        AdmissionAction::Vote { proposal_id: 2, owner: [3; 32], choice: BallotChoice::NoWithVeto }
    );
}

#[test]
fn proposals_need_the_next_id_an_approved_class_and_bond() {
    let proposal = |id: u64, class: u16, len: usize| GovernanceActionInput::Proposal {
        proposal_id: id,
        action_class: class,
        action_data: vec![0; len],
        action_digest: [4; 32],
    };
    let a = assess_signed(&signed(proposal(3, 1, 8)), &parent(), &stage()).unwrap();
    assert_eq!(
        a.ordered_action(),
        AdmissionAction::Proposal { proposal_id: 3, action_class: 1, action_data: vec![0; 8], action_digest: [4; 32] }
    );
    assert_eq!(assess_signed(&signed(proposal(4, 1, 8)), &parent(), &stage()).err(), Some("Governance proposal ID differs"));
    assert_eq!(
        assess_signed(&signed(proposal(3, 9, 8)), &parent(), &stage()).err(),
        Some("Governance action class lacks candidate approval")
    );
    assert_eq!(
        assess_signed(&signed(proposal(3, 1, 9)), &parent(), &stage()).err(),
        Some("Governance action exceeds class bound or digest differs")
    );
    let mut unbonded = signed(proposal(3, 2, 9));
    unbonded.proposer_bonded = false;
    assert_eq!(assess_signed(&unbonded, &parent(), &stage()).err(), Some("Proposer has no effective registered bond"));
}

#[test]
fn deposit_requires_existing_open_stage_and_positive_amount() {
    let deposit = |id: u64, amount: u128| GovernanceActionInput::Deposit { proposal_id: id, amount_udgt: amount };
    let a = assess_signed(&signed(deposit(2, 7)), &parent(), &stage()).unwrap();
    assert_eq!(a.ordered_action(), AdmissionAction::Deposit { proposal_id: 2, owner: [3; 32], amount_udgt: 7 });
    assert_eq!(assess_signed(&signed(deposit(2, 0)), &parent(), &stage()).err(), Some("Governance deposit is zero"));
    assert_eq!(
        assess_signed(&signed(deposit(8, 1)), &parent(), &stage()).err(),
        Some("Governance deposit proposal is absent")
    );
    let mut closed = stage();
    closed.proposals[0].close_height = 10;
    assert_eq!(
        assess_signed(&signed(deposit(2, 1)), &parent(), &closed).err(),
        Some("Governance deposit rules differ or period is closed")
    );
}

#[test]
fn profile_expiry_nonce_and_single_action_fail_closed() {
    let vote = GovernanceActionInput::Vote { proposal_id: 2, choice: BallotChoice::Yes };
    let mut expired = signed(vote.clone());
    expired.expiry_height = 10;
    assert_eq!(
        assess_signed(&expired, &parent(), &stage()).err(),
        Some("Governance request expired or exceeds configured lifetime")
    );
    let mut stale = stage();
    stale.actor = Some(ActorAuthority { account_id: [3; 32], domain_matches: true, key_current: true, spending_nonce: 3, outgoing_allowed: true });
    assert_eq!(assess_signed(&signed(vote.clone()), &parent(), &stale).err(), Some("Governance spending nonce is stale"));
    let mut two = signed(vote.clone());
    two.actions.push(vote.clone());
    assert_eq!(
        assess_signed(&two, &parent(), &stage()).err(),
        Some("Ordinary-v3 requires exactly one governance action")
    );
    let mut unregistered = stage();
    unregistered.actor = None;
    assert_eq!(assess_signed(&signed(vote.clone()), &parent(), &unregistered).err(), Some("Unregistered governance actor"));
    assert_eq!(
        assess_signed_view(&signed(vote.clone()), &parent(), &stage(), 11).err(),
        Some("Governance admission height differs from parent")
    );
    let mut zero_hash = parent();
    zero_hash.app_hash = [0; 32];
    assert_eq!(
        assess_signed(&signed(vote), &zero_hash, &stage()).err(),
        Some("Governance inputs are not one committed parent")
    );
}

#[test]
fn fee_receipt_must_match_the_signed_admission_identity() {
    let a = assess_signed(&signed(GovernanceActionInput::Vote { proposal_id: 2, choice: BallotChoice::Yes }), &parent(), &stage())
        .unwrap();
    assert_eq!(a.bind_fee_receipt(&receipt()), Ok(()));
    let mut other = receipt();
    other.actor = [4; 32];
    assert_eq!(a.bind_fee_receipt(&other), Err("Governance fee receipt differs from signed admission"));
    let mut released = receipt();
    released.released_cap = 3199;
    assert!(a.bind_fee_receipt(&released).is_err());
    let mut over = receipt();
    over.gas_used = 1001;
    assert!(a.bind_fee_receipt(&over).is_err());
}

fn staged_book() -> StagedBook {
    StagedBook {
        validation: Ok(()),
        last_height: 10,
        profile_matches_parent: true,
        accounts: vec![
            StagedAccount { id: [3; 32], address: "actor".to_string(), origin_matches: true },
            StagedAccount { id: [4; 32], address: "other".to_string(), origin_matches: true },
        ],
        parent_accounts: vec![([3; 32], "actor".to_string()), ([4; 32], "other".to_string())],
        planned_next_proposal_id: Ok(5),
    }
}

#[test]
fn staged_assessment_uses_the_planned_proposal_id() {
    let proposal = || GovernanceActionInput::Proposal { proposal_id: 5, action_class: 1, action_data: vec![1], action_digest: [6; 32] };
    let staged = assess_signed_staged(&signed(proposal()), &parent(), &stage(), &staged_book()).unwrap();
    assert_eq!(staged.admission_height(), 10);
    // The unstaged check expects the stage's own next ID.
    assert!(assess_signed(&signed(proposal()), &parent(), &stage()).is_err());
}

#[test]
fn staged_checkpoint_must_come_from_the_parent() {
    let vote = || GovernanceActionInput::Vote { proposal_id: 2, choice: BallotChoice::Yes };
    let late = StagedBook { last_height: 11, ..staged_book() };
    assert_eq!(
        assess_signed_staged(&signed(vote()), &parent(), &stage(), &late).err(),
        Some("Governance staged account inventory or height differs")
    );
    let mut moved = staged_book();
    moved.accounts[1].address = "elsewhere".to_string();
    assert_eq!(
        assess_signed_staged(&signed(vote()), &parent(), &stage(), &moved).err(),
        Some("Governance staged account origin differs")
    );
    let mut missing = staged_book();
    missing.accounts.pop();
    assert_eq!(
        assess_signed_staged(&signed(vote()), &parent(), &stage(), &missing).err(),
        Some("Governance staged account inventory or height differs")
    );
    let invalid = StagedBook { validation: Err("Recovery book is structurally invalid"), ..staged_book() };
    assert_eq!(
        assess_signed_staged(&signed(vote()), &parent(), &stage(), &invalid).err(),
        Some("Recovery book is structurally invalid")
    );
    let blocked = StagedBook { planned_next_proposal_id: Err("Governance proposals cannot commit"), ..staged_book() };
    assert_eq!(
        assess_signed_staged(&signed(vote()), &parent(), &stage(), &blocked).err(),
        Some("Governance proposals cannot commit")
    );
    assert!(assess_signed_staged(&signed(vote()), &parent(), &stage(), &staged_book()).is_ok());
}
