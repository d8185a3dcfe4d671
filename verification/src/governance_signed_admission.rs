//! Read-only governance (ordinary-v3) preadmission.
//!
//! A successful assessment is not a fee charge, reservation, execution permit
//! or consensus activation. The caller must recheck the committed parent
//! before use. The checks that need the signature proof or the governance
//! state arrive as their results; the actor's recovery account is looked up
//! and compared by `admission_stage`; the order of the checks, the heights,
//! nonces and the action's shape are decided here.
use vstd::prelude::*;
use crate::block_meter::digest_eq;
use crate::governance_v3_fee_settlement::{GovernanceLedger, V3FeeReceipt};
use crate::text::str_eq;
use crate::ordinary_authority::{
    book_index, domain_eq, domain_view, find_account, identity_eq, identity_view, mirrors_check, validate_nonce_mirrors,
    KeyIdentity, RecoveryBook, RecoveryDomain,
};

verus! {

#[derive(Clone, Copy, Debug, PartialEq, Eq, Structural)]
pub enum BallotChoice {
    Yes,
    No,
    NoWithVeto,
    Abstain,
}

/// The one governance action of a signed v3 body.
#[derive(Clone, Debug, PartialEq, Eq)]
pub enum AssessedAction {
    Proposal { proposal_id: u64, action_class: u16, action_data: Vec<u8>, action_digest: [u8; 32] },
    Deposit { proposal_id: u64, amount_udgt: u128 },
    Vote { proposal_id: u64, choice: BallotChoice },
}

/// The action handed to the ordered state planner, with its owner.
#[derive(Clone, Debug, PartialEq, Eq)]
pub enum AdmissionAction {
    Proposal { proposal_id: u64, action_class: u16, action_data: Vec<u8>, action_digest: [u8; 32] },
    Deposit { proposal_id: u64, owner: [u8; 32], amount_udgt: u128 },
    Vote { proposal_id: u64, owner: [u8; 32], choice: BallotChoice },
}

/// Authentication and current-state checks only. It carries no mutable state
/// or settlement authority. Fee liquidity and DGT custody remain unchecked.
#[derive(Clone, Debug, PartialEq, Eq)]
pub struct PreadmissionAssessment {
    transaction_id: [u8; 32],
    envelope_hash: [u8; 32],
    actor: [u8; 32],
    admission_height: u64,
    contract_version: u16,
    profile_version: u64,
    profile_digest: [u8; 32],
    gas_limit: u64,
    maximum_fee: u128,
    nonce_before: u64,
    nonce_after: u64,
    action: AssessedAction,
}

/// The fields of an assessment.
pub struct AssessmentView {
    pub transaction_id: [u8; 32],
    pub envelope_hash: [u8; 32],
    pub actor: [u8; 32],
    pub admission_height: u64,
    pub contract_version: u16,
    pub profile_version: u64,
    pub profile_digest: [u8; 32],
    pub gas_limit: u64,
    pub maximum_fee: u128,
    pub nonce_before: u64,
    pub nonce_after: u64,
    pub action: AssessedAction,
}

impl View for PreadmissionAssessment {
    type V = AssessmentView;

    closed spec fn view(&self) -> AssessmentView {
        AssessmentView {
            transaction_id: self.transaction_id,
            envelope_hash: self.envelope_hash,
            actor: self.actor,
            admission_height: self.admission_height,
            contract_version: self.contract_version,
            profile_version: self.profile_version,
            profile_digest: self.profile_digest,
            gas_limit: self.gas_limit,
            maximum_fee: self.maximum_fee,
            nonce_before: self.nonce_before,
            nonce_after: self.nonce_after,
            action: self.action,
        }
    }
}

/// Whether a fee receipt was produced for this signed admission.
pub open spec fn receipt_binds(a: AssessmentView, r: V3FeeReceipt) -> bool {
    &&& r.version == 2
    &&& r.transaction_id@ == a.transaction_id@
    &&& r.envelope_hash@ == a.envelope_hash@
    &&& r.actor@ == a.actor@
    &&& r.block_height == a.admission_height
    &&& r.contract_version == a.contract_version
    &&& r.profile_version == a.profile_version
    &&& r.profile_digest@ == a.profile_digest@
    &&& r.gas_limit == a.gas_limit
    &&& r.gas_used <= a.gas_limit
    &&& r.reserved_cap == a.maximum_fee
    &&& r.reserved_cap >= r.charge && r.reserved_cap - r.charge == r.released_cap
    &&& r.nonce_before == a.nonce_before
    &&& r.nonce_after == a.nonce_after
}

/// The planner's action for an assessed action and its actor: the same
/// proposal, or the deposit or vote owned by the actor.
pub open spec fn carries_action(r: AdmissionAction, a: AssessmentView) -> bool {
    match (a.action, r) {
        (
            AssessedAction::Proposal { proposal_id, action_class, action_data, action_digest },
            AdmissionAction::Proposal { proposal_id: p2, action_class: c2, action_data: d2, action_digest: g2 },
        ) => p2 == proposal_id && c2 == action_class && d2@ == action_data@ && g2 == action_digest,
        (AssessedAction::Deposit { proposal_id, amount_udgt }, AdmissionAction::Deposit { proposal_id: p2, owner, amount_udgt: a2 }) => {
            p2 == proposal_id && owner == a.actor && a2 == amount_udgt
        },
        (AssessedAction::Vote { proposal_id, choice }, AdmissionAction::Vote { proposal_id: p2, owner, choice: c2 }) => {
            p2 == proposal_id && owner == a.actor && c2 == choice
        },
        _ => false,
    }
}

impl PreadmissionAssessment {
    pub fn transaction_id(&self) -> (r: [u8; 32])
        ensures
            r == self@.transaction_id,
    {
        self.transaction_id
    }

    pub fn envelope_hash(&self) -> (r: [u8; 32])
        ensures
            r == self@.envelope_hash,
    {
        self.envelope_hash
    }

    pub fn actor(&self) -> (r: [u8; 32])
        ensures
            r == self@.actor,
    {
        self.actor
    }

    pub fn admission_height(&self) -> (r: u64)
        ensures
            r == self@.admission_height,
    {
        self.admission_height
    }

    pub fn nonce_before(&self) -> (r: u64)
        ensures
            r == self@.nonce_before,
    {
        self.nonce_before
    }

    pub fn nonce_after(&self) -> (r: u64)
        ensures
            r == self@.nonce_after,
    {
        self.nonce_after
    }

    pub fn action(&self) -> (r: &AssessedAction)
        ensures
            *r == self@.action,
    {
        &self.action
    }

    /// Carry the verified actor and action into the ordered state planner.
    /// This does not authorize fees, custody changes, or a consensus commit.
    pub fn ordered_action(&self) -> (r: AdmissionAction)
        ensures
            carries_action(r, self@),
    {
        match &self.action {
            AssessedAction::Proposal { proposal_id, action_class, action_data, action_digest } => {
                let data = crate::record_keys::to_vec(action_data.as_slice());
                AdmissionAction::Proposal {
                    proposal_id: *proposal_id,
                    action_class: *action_class,
                    action_data: data,
                    action_digest: *action_digest,
                }
            },
            AssessedAction::Deposit { proposal_id, amount_udgt } => AdmissionAction::Deposit {
                proposal_id: *proposal_id,
                owner: self.actor,
                amount_udgt: *amount_udgt,
            },
            AssessedAction::Vote { proposal_id, choice } => AdmissionAction::Vote {
                proposal_id: *proposal_id,
                owner: self.actor,
                choice: *choice,
            },
        }
    }

    /// Reject a fee receipt produced for a different signed admission. The
    /// executor must also apply the receipt's success or rollback disposition.
    pub fn bind_fee_receipt(&self, receipt: &V3FeeReceipt) -> (r: Result<(), &'static str>)
        ensures
            r is Ok <==> receipt_binds(self@, *receipt),
            r is Err ==> r == Err::<(), &'static str>("Governance fee receipt differs from signed admission"),
    {
        let released_ok = match receipt.reserved_cap.checked_sub(receipt.charge) {
            Some(v) => v == receipt.released_cap,
            None => false,
        };
        if receipt.version == 2 && digest_eq(&receipt.transaction_id, &self.transaction_id)
            && digest_eq(&receipt.envelope_hash, &self.envelope_hash) && digest_eq(&receipt.actor, &self.actor)
            && receipt.block_height == self.admission_height && receipt.contract_version == self.contract_version
            && receipt.profile_version == self.profile_version && digest_eq(&receipt.profile_digest, &self.profile_digest)
            && receipt.gas_limit == self.gas_limit && receipt.gas_used <= self.gas_limit
            && receipt.reserved_cap == self.maximum_fee && released_ok && receipt.nonce_before == self.nonce_before
            && receipt.nonce_after == self.nonce_after {
            Ok(())
        } else {
            Err("Governance fee receipt differs from signed admission")
        }
    }
}

/// A governance action as the signed body carries it.
#[derive(Clone, Debug, PartialEq, Eq)]
pub enum GovernanceActionInput {
    Proposal { proposal_id: u64, action_class: u16, action_data: Vec<u8>, action_digest: [u8; 32] },
    Deposit { proposal_id: u64, amount_udgt: u128 },
    Vote { proposal_id: u64, choice: BallotChoice },
}

/// A signed v3 governance transaction: its body's fields and the results of
/// the checks made by the signature proof and the fee profile.
pub struct SignedGovernance {
    pub signature_valid: bool,
    pub request_valid: bool,
    pub domain_matches_candidate: bool,
    pub transaction_id: [u8; 32],
    pub envelope_hash: [u8; 32],
    pub actor: [u8; 32],
    pub spending_nonce: u64,
    pub expiry_height: u64,
    pub gas_limit: u64,
    pub maximum_fee: u128,
    pub contract_version: u16,
    pub profile_version: u64,
    pub profile_digest: [u8; 32],
    pub actions: Vec<GovernanceActionInput>,
    /// Whether a proposal's digest is the digest of its class and data.
    pub digest_matches: bool,
    /// Whether the proposer holds effective registered bond at the parent.
    pub proposer_bonded: bool,
}

/// The committed parent, as far as admission reads it. Every field must
/// describe the same parent; its provenance is the caller's to prove.
pub struct AdmissionParent {
    pub candidate_valid: bool,
    pub governance_valid: bool,
    pub mirrors_valid: bool,
    pub recovery_height: u64,
    pub finalized_height: u64,
    pub lifecycle_height: u64,
    pub app_hash: [u8; 32],
    pub lifecycle_valid: bool,
    pub chains_match: bool,
    pub max_expiry_lifetime: u64,
    /// Approved action classes with their data bound in bytes.
    pub action_classes: Vec<(u16, u32)>,
}

/// The actor's recovery account as the current view holds it.
#[derive(Clone, Copy, Debug, PartialEq, Eq)]
pub struct ActorAuthority {
    /// The stable ID the account is registered under.
    pub account_id: [u8; 32],
    pub domain_matches: bool,
    pub key_current: bool,
    pub spending_nonce: u64,
    pub outgoing_allowed: bool,
}

#[derive(Clone, Copy, Debug, PartialEq, Eq, Structural)]
pub struct BallotView {
    pub rules_match: bool,
    /// Whether the ballot accepts the actor's vote at the admission height.
    pub accepts_vote: bool,
}

#[derive(Clone, Copy, Debug, PartialEq, Eq, Structural)]
pub struct ProposalView {
    pub proposal_id: u64,
    pub deposit_rules_match: bool,
    pub collecting: bool,
    pub close_height: u64,
    pub ballot: Option<BallotView>,
}

/// One ordered block checkpoint: the current nonce mirrors, the next
/// proposal ID, the actor's account and the proposals.
pub struct AdmissionStage {
    pub mirrors_valid: bool,
    pub next_proposal_id: u64,
    pub actor: Option<ActorAuthority>,
    pub proposals: Vec<ProposalView>,
}

/// The first approved class entry for `class`, or -1.
pub open spec fn class_index(c: Seq<(u16, u32)>, class: u16, i: int) -> int
    decreases c.len() - i,
{
    if i < 0 || i >= c.len() {
        -1
    } else if c[i].0 == class {
        i
    } else {
        class_index(c, class, i + 1)
    }
}

/// The first proposal with ID `id`, or -1.
pub open spec fn proposal_index(p: Seq<ProposalView>, id: u64, i: int) -> int
    decreases p.len() - i,
{
    if i < 0 || i >= p.len() {
        -1
    } else if p[i].proposal_id == id {
        i
    } else {
        proposal_index(p, id, i + 1)
    }
}

/// The check of the one governance action.
pub open spec fn action_check(
    signed: SignedGovernance,
    parent: AdmissionParent,
    stage: AdmissionStage,
    height: u64,
) -> Result<(), &'static str> {
    if signed.actions@.len() != 1 {
        Err("Ordinary-v3 requires exactly one governance action")
    } else {
        match signed.actions@[0] {
            GovernanceActionInput::Proposal { proposal_id, action_class, action_data, action_digest } => {
                let ci = class_index(parent.action_classes@, action_class, 0);
                if proposal_id != stage.next_proposal_id {
                    Err("Governance proposal ID differs")
                } else if ci < 0 {
                    Err("Governance action class lacks candidate approval")
                } else if !(action_data@.len() <= parent.action_classes@[ci].1 && signed.digest_matches) {
                    Err("Governance action exceeds class bound or digest differs")
                } else if !signed.proposer_bonded {
                    Err("Proposer has no effective registered bond")
                } else {
                    Ok(())
                }
            },
            GovernanceActionInput::Deposit { proposal_id, amount_udgt } => {
                let pi = proposal_index(stage.proposals@, proposal_id, 0);
                if amount_udgt == 0 {
                    Err("Governance deposit is zero")
                } else if pi < 0 {
                    Err("Governance deposit proposal is absent")
                } else if !(stage.proposals@[pi].deposit_rules_match && stage.proposals@[pi].collecting && height
                    < stage.proposals@[pi].close_height) {
                    Err("Governance deposit rules differ or period is closed")
                } else {
                    Ok(())
                }
            },
            GovernanceActionInput::Vote { proposal_id, choice } => {
                let pi = proposal_index(stage.proposals@, proposal_id, 0);
                if pi < 0 {
                    Err("Governance vote proposal is absent")
                } else {
                    match stage.proposals@[pi].ballot {
                        None => Err("Governance ballot is absent"),
                        Some(b) => if !b.rules_match {
                            Err("Governance ballot rules differ from candidate")
                        } else if !b.accepts_vote {
                            Err("Governance ballot rejects this vote")
                        } else {
                            Ok(())
                        },
                    }
                }
            },
        }
    }
}

/// The checks of preadmission in order; `Ok` when all pass.
pub open spec fn assess_check(
    signed: SignedGovernance,
    parent: AdmissionParent,
    stage: AdmissionStage,
    height: u64,
) -> Result<(), &'static str> {
    let h = parent.recovery_height;
    if !parent.candidate_valid {
        Err("Governance candidate configuration is invalid")
    } else if !parent.governance_valid {
        Err("Governance parent state is invalid")
    } else if !parent.mirrors_valid || !stage.mirrors_valid {
        Err("Governance nonce mirrors differ from the recovery book")
    } else if h + 1 != height {
        Err("Governance admission height differs from parent")
    } else if !(parent.finalized_height == h && parent.lifecycle_height == h && parent.app_hash@ != seq![0u8; 32]) {
        Err("Governance inputs are not one committed parent")
    } else if !parent.lifecycle_valid {
        Err("Governance lifecycle state is invalid")
    } else if !parent.chains_match {
        Err("Governance candidate and parent chain differ")
    } else if !signed.signature_valid {
        Err("Governance signature verification failed")
    } else if !signed.request_valid {
        Err("Governance request differs from the fee profile")
    } else if !signed.domain_matches_candidate {
        Err("Governance signed domain differs from candidate")
    } else {
        match stage.actor {
            None => Err("Unregistered governance actor"),
            Some(a) => if a.account_id@ != signed.actor@ {
                Err("Unregistered governance actor")
            } else if !a.domain_matches {
                Err("Governance signed domain differs from account")
            } else if !a.key_current {
                Err("Governance key or generation is stale")
            } else if a.spending_nonce != signed.spending_nonce {
                Err("Governance spending nonce is stale")
            } else if signed.spending_nonce == u64::MAX {
                Err("Governance nonce exhausted")
            } else if !(height < signed.expiry_height && signed.expiry_height - height <= parent.max_expiry_lifetime) {
                Err("Governance request expired or exceeds configured lifetime")
            } else if !a.outgoing_allowed {
                Err("Protected account cannot authorize governance")
            } else {
                action_check(signed, parent, stage, height)
            },
        }
    }
}

/// The assessment that a passing transaction gets.
pub open spec fn assessment_of(a: AssessmentView, signed: SignedGovernance, height: u64) -> bool {
    &&& a.transaction_id == signed.transaction_id
    &&& a.envelope_hash == signed.envelope_hash
    &&& a.actor == signed.actor
    &&& a.admission_height == height
    &&& a.contract_version == signed.contract_version
    &&& a.profile_version == signed.profile_version
    &&& a.profile_digest == signed.profile_digest
    &&& a.gas_limit == signed.gas_limit
    &&& a.maximum_fee == signed.maximum_fee
    &&& a.nonce_before == signed.spending_nonce
    &&& a.nonce_after == signed.spending_nonce + 1
    &&& match (signed.actions@[0], a.action) {
        (
            GovernanceActionInput::Proposal { proposal_id, action_class, action_data, action_digest },
            AssessedAction::Proposal { proposal_id: p, action_class: c, action_data: d, action_digest: g },
        ) => p == proposal_id && c == action_class && d@ == action_data@ && g == action_digest,
        (GovernanceActionInput::Deposit { proposal_id, amount_udgt }, AssessedAction::Deposit { proposal_id: p, amount_udgt: x }) => {
            p == proposal_id && x == amount_udgt
        },
        (GovernanceActionInput::Vote { proposal_id, choice }, AssessedAction::Vote { proposal_id: p, choice: c }) => {
            p == proposal_id && c == choice
        },
        _ => false,
    }
}

fn find_class(c: &Vec<(u16, u32)>, class: u16) -> (r: Option<usize>)
    ensures
        match r {
            Some(i) => class_index(c@, class, 0) == i && i < c@.len(),
            None => class_index(c@, class, 0) == -1,
        },
{
    let mut i: usize = 0;
    while i < c.len()
        invariant
            i <= c@.len(),
            class_index(c@, class, 0) == class_index(c@, class, i as int),
        decreases c@.len() - i,
    {
        if c[i].0 == class {
            return Some(i);
        }
        i = i + 1;
    }
    None
}

fn find_proposal(p: &Vec<ProposalView>, id: u64) -> (r: Option<usize>)
    ensures
        match r {
            Some(i) => proposal_index(p@, id, 0) == i && i < p@.len(),
            None => proposal_index(p@, id, 0) == -1,
        },
{
    let mut i: usize = 0;
    while i < p.len()
        invariant
            i <= p@.len(),
            proposal_index(p@, id, 0) == proposal_index(p@, id, i as int),
        decreases p@.len() - i,
    {
        if p[i].proposal_id == id {
            return Some(i);
        }
        i = i + 1;
    }
    None
}

fn is_zero_hash(h: &[u8; 32]) -> (r: bool)
    ensures
        r == (h@ == seq![0u8; 32]),
{
    let zero = [0u8; 32];
    assert(zero@ =~= seq![0u8; 32]);
    digest_eq(h, &zero)
}

fn check_action(signed: &SignedGovernance, parent: &AdmissionParent, stage: &AdmissionStage, height: u64) -> (r: Result<
    AssessedAction,
    &'static str,
>)
    ensures
        match r {
            Ok(a) => action_check(*signed, *parent, *stage, height) is Ok && match (signed.actions@[0], a) {
                (
                    GovernanceActionInput::Proposal { proposal_id, action_class, action_data, action_digest },
                    AssessedAction::Proposal { proposal_id: p, action_class: c, action_data: d, action_digest: g },
                ) => p == proposal_id && c == action_class && d@ == action_data@ && g == action_digest,
                (GovernanceActionInput::Deposit { proposal_id, amount_udgt }, AssessedAction::Deposit { proposal_id: p, amount_udgt: x }) => {
                    p == proposal_id && x == amount_udgt
                },
                (GovernanceActionInput::Vote { proposal_id, choice }, AssessedAction::Vote { proposal_id: p, choice: c }) => {
                    p == proposal_id && c == choice
                },
                _ => false,
            },
            Err(m) => action_check(*signed, *parent, *stage, height) == Err::<(), &'static str>(m),
        },
{
    if signed.actions.len() != 1 {
        return Err("Ordinary-v3 requires exactly one governance action");
    }
    match &signed.actions[0] {
        GovernanceActionInput::Proposal { proposal_id, action_class, action_data, action_digest } => {
            if *proposal_id != stage.next_proposal_id {
                return Err("Governance proposal ID differs");
            }
            let ci = match find_class(&parent.action_classes, *action_class) {
                Some(i) => i,
                None => return Err("Governance action class lacks candidate approval"),
            };
            if !((action_data.len() as u64) <= (parent.action_classes[ci].1 as u64) && signed.digest_matches) {
                return Err("Governance action exceeds class bound or digest differs");
            }
            if !signed.proposer_bonded {
                return Err("Proposer has no effective registered bond");
            }
            Ok(AssessedAction::Proposal {
                proposal_id: *proposal_id,
                action_class: *action_class,
                action_data: crate::record_keys::to_vec(action_data.as_slice()),
                action_digest: *action_digest,
            })
        },
        GovernanceActionInput::Deposit { proposal_id, amount_udgt } => {
            if *amount_udgt == 0 {
                return Err("Governance deposit is zero");
            }
            let pi = match find_proposal(&stage.proposals, *proposal_id) {
                Some(i) => i,
                None => return Err("Governance deposit proposal is absent"),
            };
            let record = stage.proposals[pi];
            if !(record.deposit_rules_match && record.collecting && height < record.close_height) {
                return Err("Governance deposit rules differ or period is closed");
            }
            Ok(AssessedAction::Deposit { proposal_id: *proposal_id, amount_udgt: *amount_udgt })
        },
        GovernanceActionInput::Vote { proposal_id, choice } => {
            let pi = match find_proposal(&stage.proposals, *proposal_id) {
                Some(i) => i,
                None => return Err("Governance vote proposal is absent"),
            };
            let ballot = match stage.proposals[pi].ballot {
                Some(b) => b,
                None => return Err("Governance ballot is absent"),
            };
            if !ballot.rules_match {
                return Err("Governance ballot rules differ from candidate");
            }
            if !ballot.accepts_vote {
                return Err("Governance ballot rejects this vote");
            }
            Ok(AssessedAction::Vote { proposal_id: *proposal_id, choice: *choice })
        },
    }
}

/// The actor's authority as the recovery book holds it: for the account
/// registered under the signed domain's account ID, whether its domain is
/// the signed one, whether its active key and generation are the signed
/// ones, its spending nonce and whether it may authorize outgoing actions;
/// `None` when no account is registered under that ID.
pub open spec fn actor_authority_spec(
    book: RecoveryBook,
    domain: RecoveryDomain,
    key: KeyIdentity,
    generation: u64,
) -> Option<ActorAuthority> {
    let i = book_index(book.accounts@, domain.account_id@, 0);
    if i < 0 {
        None
    } else {
        let a = book.accounts@[i];
        Some(
            ActorAuthority {
                account_id: domain.account_id,
                domain_matches: domain_view(a.domain) == domain_view(domain),
                key_current: identity_view(a.active_key) == identity_view(key) && a.active_generation == generation,
                spending_nonce: a.spending_nonce,
                outgoing_allowed: a.outgoing_allowed,
            },
        )
    }
}

/// Look up the signing actor in the current recovery book and compare its
/// recovery state with the signed domain, key and generation.
pub fn actor_authority(book: &RecoveryBook, domain: &RecoveryDomain, key: &KeyIdentity, generation: u64) -> (r: Option<
    ActorAuthority,
>)
    ensures
        r == actor_authority_spec(*book, *domain, *key, generation),
{
    match find_account(book, &domain.account_id) {
        None => None,
        Some(i) => {
            let a = &book.accounts[i];
            Some(
                ActorAuthority {
                    account_id: domain.account_id,
                    domain_matches: domain_eq(&a.domain, domain),
                    key_current: identity_eq(&a.active_key, key) && a.active_generation == generation,
                    spending_nonce: a.spending_nonce,
                    outgoing_allowed: a.outgoing_allowed,
                },
            )
        },
    }
}

/// Whether the signed domain names the candidate's chain and genesis.
pub fn domain_matches_candidate(domain: &RecoveryDomain, chain_id: &str, genesis_digest: &[u8; 32]) -> (r: bool)
    ensures
        r == (domain.chain_id@ == chain_id@ && domain.genesis_digest@ == genesis_digest@),
{
    str_eq(domain.chain_id.as_str(), chain_id) && digest_eq(&domain.genesis_digest, genesis_digest)
}

/// The block checkpoint that admission reads, taken from the current
/// recovery book and its nonce mirrors: whether the mirrors agree with the
/// book, and the actor registered under the signed domain's account ID.
pub fn admission_stage(
    book: &RecoveryBook,
    nonces: &Vec<(String, u64)>,
    domain: &RecoveryDomain,
    key: &KeyIdentity,
    generation: u64,
    next_proposal_id: u64,
    proposals: Vec<ProposalView>,
) -> (r: AdmissionStage)
    ensures
        r.mirrors_valid == (mirrors_check(*book, nonces@) is Ok),
        r.next_proposal_id == next_proposal_id,
        r.actor == actor_authority_spec(*book, *domain, *key, generation),
        r.proposals@ == proposals@,
{
    let mirrors_valid = validate_nonce_mirrors(book, nonces).is_ok();
    let actor = actor_authority(book, domain, key, generation);
    AdmissionStage { mirrors_valid, next_proposal_id, actor, proposals }
}

/// Whether the actor's recovery account authorizes a governance fee: it is
/// registered under the signed domain's ID, holds the signed domain, key,
/// generation and spending nonce, and may authorize outgoing actions.
pub open spec fn fee_authority(a: Option<ActorAuthority>, spending_nonce: u64) -> bool {
    a matches Some(x) && x.domain_matches && x.key_current && x.spending_nonce == spending_nonce && x.outgoing_allowed
}

/// The staged book and financial snapshot as a governance fee plan reads
/// them: the book's height and size, the mirrors' count and agreement with
/// the book, the actor's registration and authority under the signed
/// domain, key, generation and spending nonce, and the snapshot's figures.
pub fn governance_ledger(
    book: &RecoveryBook,
    nonces: &Vec<(String, u64)>,
    domain: &RecoveryDomain,
    key: &KeyIdentity,
    generation: u64,
    spending_nonce: u64,
    balance_entries: usize,
    eligible_entries: usize,
    eligible_consistent: bool,
    balance: u128,
    eligible: u128,
    withheld_udrt: u128,
) -> (r: GovernanceLedger)
    ensures
        r.staged_height == book.last_height,
        r.account_count == book.accounts@.len(),
        r.nonce_count == nonces@.len(),
        r.mirrors_valid == (mirrors_check(*book, nonces@) is Ok),
        r.actor == domain.account_id,
        r.actor_registered == (book_index(book.accounts@, domain.account_id@, 0) >= 0),
        r.authority_matches == fee_authority(actor_authority_spec(*book, *domain, *key, generation), spending_nonce),
        r.balance_entries == balance_entries,
        r.eligible_entries == eligible_entries,
        r.eligible_consistent == eligible_consistent,
        r.balance == balance,
        r.eligible == eligible,
        r.withheld_udrt == withheld_udrt,
{
    let authority = actor_authority(book, domain, key, generation);
    let authority_matches = match authority {
        Some(a) => a.domain_matches && a.key_current && a.spending_nonce == spending_nonce && a.outgoing_allowed,
        None => false,
    };
    GovernanceLedger {
        staged_height: book.last_height,
        account_count: book.accounts.len(),
        nonce_count: nonces.len(),
        balance_entries,
        eligible_entries,
        mirrors_valid: validate_nonce_mirrors(book, nonces).is_ok(),
        eligible_consistent,
        actor: domain.account_id,
        actor_registered: authority.is_some(),
        authority_matches,
        balance,
        eligible,
        withheld_udrt,
    }
}

/// Check one signed governance action against the candidate rules, the
/// committed parent and the current view, at `admission_height`.
pub fn assess_signed_view(
    signed: &SignedGovernance,
    parent: &AdmissionParent,
    stage: &AdmissionStage,
    admission_height: u64,
) -> (r: Result<PreadmissionAssessment, &'static str>)
    ensures
        match r {
            Ok(a) => assess_check(*signed, *parent, *stage, admission_height) is Ok && assessment_of(a@, *signed, admission_height),
            Err(m) => assess_check(*signed, *parent, *stage, admission_height) == Err::<(), &'static str>(m),
        },
{
    let h = parent.recovery_height;
    if !parent.candidate_valid {
        return Err("Governance candidate configuration is invalid");
    }
    if !parent.governance_valid {
        return Err("Governance parent state is invalid");
    }
    if !parent.mirrors_valid || !stage.mirrors_valid {
        return Err("Governance nonce mirrors differ from the recovery book");
    }
    match h.checked_add(1) {
        Some(next) => {
            if next != admission_height {
                return Err("Governance admission height differs from parent");
            }
        },
        None => return Err("Governance admission height differs from parent"),
    }
    if !(parent.finalized_height == h && parent.lifecycle_height == h && !is_zero_hash(&parent.app_hash)) {
        return Err("Governance inputs are not one committed parent");
    }
    if !parent.lifecycle_valid {
        return Err("Governance lifecycle state is invalid");
    }
    if !parent.chains_match {
        return Err("Governance candidate and parent chain differ");
    }
    if !signed.signature_valid {
        return Err("Governance signature verification failed");
    }
    if !signed.request_valid {
        return Err("Governance request differs from the fee profile");
    }
    if !signed.domain_matches_candidate {
        return Err("Governance signed domain differs from candidate");
    }
    let account = match stage.actor {
        None => return Err("Unregistered governance actor"),
        Some(a) => a,
    };
    if !digest_eq(&account.account_id, &signed.actor) {
        return Err("Unregistered governance actor");
    }
    if !account.domain_matches {
        return Err("Governance signed domain differs from account");
    }
    if !account.key_current {
        return Err("Governance key or generation is stale");
    }
    if account.spending_nonce != signed.spending_nonce {
        return Err("Governance spending nonce is stale");
    }
    let nonce_after = match signed.spending_nonce.checked_add(1) {
        Some(n) => n,
        None => return Err("Governance nonce exhausted"),
    };
    if !(admission_height < signed.expiry_height && signed.expiry_height - admission_height <= parent.max_expiry_lifetime) {
        return Err("Governance request expired or exceeds configured lifetime");
    }
    if !account.outgoing_allowed {
        return Err("Protected account cannot authorize governance");
    }
    let action = match check_action(signed, parent, stage, admission_height) {
        Ok(a) => a,
        Err(m) => return Err(m),
    };
    Ok(PreadmissionAssessment {
        transaction_id: signed.transaction_id,
        envelope_hash: signed.envelope_hash,
        actor: signed.actor,
        admission_height,
        contract_version: signed.contract_version,
        profile_version: signed.profile_version,
        profile_digest: signed.profile_digest,
        gas_limit: signed.gas_limit,
        maximum_fee: signed.maximum_fee,
        nonce_before: signed.spending_nonce,
        nonce_after,
        action,
    })
}

/// Check one signed governance action at the height after the parent's.
pub fn assess_signed(signed: &SignedGovernance, parent: &AdmissionParent, stage: &AdmissionStage) -> (r: Result<
    PreadmissionAssessment,
    &'static str,
>)
    ensures
        parent.recovery_height == u64::MAX ==> r == Err::<PreadmissionAssessment, &'static str>("Governance height exhausted"),
        parent.recovery_height < u64::MAX ==> match r {
            Ok(a) => assess_check(*signed, *parent, *stage, (parent.recovery_height + 1) as u64) is Ok
                && assessment_of(a@, *signed, (parent.recovery_height + 1) as u64),
            Err(m) => assess_check(*signed, *parent, *stage, (parent.recovery_height + 1) as u64) == Err::<(), &'static str>(m),
        },
{
    let height = match parent.recovery_height.checked_add(1) {
        Some(h) => h,
        None => return Err("Governance height exhausted"),
    };
    assess_signed_view(signed, parent, stage, height)
}

/// A staged recovery account: its ID, its address, and whether its domain
/// and recovery configuration are the parent's.
pub struct StagedAccount {
    pub id: [u8; 32],
    pub address: String,
    pub origin_matches: bool,
}

/// A staged checkpoint's recovery book against the committed parent's, and
/// the next proposal ID after committing the staged proposals.
pub struct StagedBook {
    /// The staged book's own structural validation.
    pub validation: Result<(), &'static str>,
    pub last_height: u64,
    pub profile_matches_parent: bool,
    pub accounts: Vec<StagedAccount>,
    /// The parent's account IDs and addresses, in order.
    pub parent_accounts: Vec<([u8; 32], String)>,
    pub planned_next_proposal_id: Result<u64, &'static str>,
}

/// Whether the staged and parent books hold the same account IDs in order.
pub open spec fn same_inventory(b: StagedBook) -> bool {
    &&& b.accounts@.len() == b.parent_accounts@.len()
    &&& forall|i: int| 0 <= i < b.accounts@.len() ==> (#[trigger] b.accounts@[i]).id@ == b.parent_accounts@[i].0@
}

/// The first staged account from the `i`-th on whose origin differs from
/// the parent's.
pub open spec fn origin_differs_from(b: StagedBook, i: int) -> bool
    decreases b.accounts@.len() - i,
{
    if i < 0 || i >= b.accounts@.len() {
        false
    } else if b.accounts@[i].address@ != b.parent_accounts@[i].1@ || !b.accounts@[i].origin_matches {
        true
    } else {
        origin_differs_from(b, i + 1)
    }
}

/// The checks that tie a staged checkpoint to the committed parent, in
/// order, and the next proposal ID they give.
pub open spec fn staged_check(parent: AdmissionParent, b: StagedBook) -> Result<u64, &'static str> {
    if parent.recovery_height == u64::MAX {
        Err("Governance height exhausted")
    } else if b.validation is Err {
        Err(b.validation->Err_0)
    } else if !(b.last_height == parent.recovery_height + 1 && b.profile_matches_parent && same_inventory(b)) {
        Err("Governance staged account inventory or height differs")
    } else if origin_differs_from(b, 0) {
        Err("Governance staged account origin differs")
    } else {
        b.planned_next_proposal_id
    }
}

fn copy_proposals(v: &Vec<ProposalView>) -> (r: Vec<ProposalView>)
    ensures
        r@ == v@,
{
    let mut out: Vec<ProposalView> = Vec::new();
    let mut i: usize = 0;
    while i < v.len()
        invariant
            i <= v@.len(),
            out@ == v@.take(i as int),
        decreases v@.len() - i,
    {
        out.push(v[i]);
        i = i + 1;
        proof {
            assert(out@ =~= v@.take(i as int));
        }
    }
    proof {
        assert(v@.take(v@.len() as int) =~= v@);
    }
    out
}

/// Check one signed transaction against earlier staged block effects while
/// proposer voting weight stays fixed at the committed parent. This is not
/// a consensus permit: the caller must prove that the stage came from the
/// parent.
#[verifier::loop_isolation(false)]
pub fn assess_signed_staged(
    signed: &SignedGovernance,
    parent: &AdmissionParent,
    stage: &AdmissionStage,
    staged: &StagedBook,
) -> (r: Result<PreadmissionAssessment, &'static str>)
    ensures
        match staged_check(*parent, *staged) {
            Err(m) => r == Err::<PreadmissionAssessment, &'static str>(m),
            Ok(next) => {
                let planned = AdmissionStage { next_proposal_id: next, ..*stage };
                let height = (parent.recovery_height + 1) as u64;
                match r {
                    Ok(a) => assess_check(*signed, *parent, planned, height) is Ok && assessment_of(a@, *signed, height),
                    Err(m) => assess_check(*signed, *parent, planned, height) == Err::<(), &'static str>(m),
                }
            },
        },
{
    let height = match parent.recovery_height.checked_add(1) {
        Some(h) => h,
        None => return Err("Governance height exhausted"),
    };
    match staged.validation {
        Err(e) => return Err(e),
        Ok(()) => {},
    }
    let mut same = staged.last_height == height && staged.profile_matches_parent && staged.accounts.len()
        == staged.parent_accounts.len();
    let mut i: usize = 0;
    while same && i < staged.accounts.len()
        invariant
            i <= staged.accounts@.len(),
            same ==> staged.accounts@.len() == staged.parent_accounts@.len(),
            same ==> forall|j: int| 0 <= j < i ==> (#[trigger] staged.accounts@[j]).id@ == staged.parent_accounts@[j].0@,
            !same ==> !(staged.last_height == height && staged.profile_matches_parent && same_inventory(*staged)),
            same ==> staged.last_height == height && staged.profile_matches_parent,
        decreases staged.accounts@.len() - i,
    {
        if !digest_eq(&staged.accounts[i].id, &staged.parent_accounts[i].0) {
            same = false;
        }
        i = i + 1;
    }
    if !same {
        return Err("Governance staged account inventory or height differs");
    }
    let mut k: usize = 0;
    while k < staged.accounts.len()
        invariant
            k <= staged.accounts@.len(),
            staged.accounts@.len() == staged.parent_accounts@.len(),
            origin_differs_from(*staged, 0) == origin_differs_from(*staged, k as int),
        decreases staged.accounts@.len() - k,
    {
        if !str_eq(staged.accounts[k].address.as_str(), staged.parent_accounts[k].1.as_str())
            || !staged.accounts[k].origin_matches {
            return Err("Governance staged account origin differs");
        }
        k = k + 1;
    }
    let next = match staged.planned_next_proposal_id {
        Err(e) => return Err(e),
        Ok(n) => n,
    };
    let planned = AdmissionStage {
        mirrors_valid: stage.mirrors_valid,
        next_proposal_id: next,
        actor: stage.actor,
        proposals: copy_proposals(&stage.proposals),
    };
    assess_signed_view(signed, parent, &planned, height)
}

/// A governance transaction that passes preadmission against a checkpoint
/// taken from a recovery book was authorized by that book for its signed
/// actor: the nonce mirrors agree with the book, the signed domain names the
/// signed actor, an account is registered under that actor's ID, and that
/// account holds the signed domain, the signed key and generation and the
/// signed spending nonce, and may authorize outgoing actions.
pub proof fn law_admitted_governance_actor_is_current(
    signed: SignedGovernance,
    parent: AdmissionParent,
    stage: AdmissionStage,
    height: u64,
    book: RecoveryBook,
    nonces: Seq<(String, u64)>,
    domain: RecoveryDomain,
    key: KeyIdentity,
    generation: u64,
)
    requires
        stage.mirrors_valid == (mirrors_check(book, nonces) is Ok),
        stage.actor == actor_authority_spec(book, domain, key, generation),
        assess_check(signed, parent, stage, height) is Ok,
    ensures
        mirrors_check(book, nonces) is Ok,
        domain.account_id@ == signed.actor@,
        0 <= book_index(book.accounts@, signed.actor@, 0) < book.accounts@.len(),
        ({
            let a = book.accounts@[book_index(book.accounts@, signed.actor@, 0)];
            &&& a.domain.account_id@ == signed.actor@
            &&& domain_view(a.domain) == domain_view(domain)
            &&& identity_view(a.active_key) == identity_view(key)
            &&& a.active_generation == generation
            &&& a.spending_nonce == signed.spending_nonce
            &&& a.outgoing_allowed
        }),
{
    crate::ordinary_authority::lemma_book_index_range(book.accounts@, domain.account_id@, 0);
    crate::ordinary_authority::lemma_book_index_found(book.accounts@, domain.account_id@, 0);
}

proof fn lemma_proposal_index(p: Seq<ProposalView>, id: u64, i: int)
    requires
        0 <= i,
    ensures
        proposal_index(p, id, i) == -1 || (i <= proposal_index(p, id, i) < p.len() && p[proposal_index(p, id, i)].proposal_id
            == id),
    decreases p.len() - i,
{
    if i < p.len() && p[i].proposal_id != id {
        lemma_proposal_index(p, id, i + 1);
    }
}

proof fn lemma_class_index(c: Seq<(u16, u32)>, class: u16, i: int)
    requires
        0 <= i,
    ensures
        class_index(c, class, i) == -1 || (i <= class_index(c, class, i) < c.len() && c[class_index(c, class, i)].0 == class),
    decreases c.len() - i,
{
    if i < c.len() && c[i].0 != class {
        lemma_class_index(c, class, i + 1);
    }
}

/// Preadmission passes only a transaction that its action's rules accept:
/// it carries exactly one action; a vote addresses a proposal whose ballot
/// exists, follows the candidate's rules and accepts this vote at this
/// height; a deposit is positive and addresses a proposal still collecting
/// under the candidate's deposit rules before its close; a proposal takes
/// the next proposal ID, an approved action class within its data bound and
/// its digest, from a bonded proposer. The actor's account holds the signed
/// domain, key and nonce, is unprotected, and the request has not expired.
pub proof fn law_preadmission_honours_the_action_rules(
    signed: SignedGovernance,
    parent: AdmissionParent,
    stage: AdmissionStage,
    height: u64,
)
    ensures
        assess_check(signed, parent, stage, height) is Ok ==> {
            &&& signed.actions@.len() == 1
            &&& signed.signature_valid && signed.request_valid && signed.domain_matches_candidate
            &&& stage.actor matches Some(a) && a.account_id@ == signed.actor@ && a.domain_matches && a.key_current
                && a.spending_nonce == signed.spending_nonce && a.outgoing_allowed
            &&& height < signed.expiry_height && signed.expiry_height - height <= parent.max_expiry_lifetime
            &&& match signed.actions@[0] {
                GovernanceActionInput::Vote { proposal_id, choice } => exists|k: int|
                    0 <= k < stage.proposals@.len() && (#[trigger] stage.proposals@[k]).proposal_id == proposal_id
                        && (stage.proposals@[k].ballot matches Some(b) && b.rules_match && b.accepts_vote),
                GovernanceActionInput::Deposit { proposal_id, amount_udgt } => amount_udgt > 0 && exists|k: int|
                    0 <= k < stage.proposals@.len() && (#[trigger] stage.proposals@[k]).proposal_id == proposal_id
                        && stage.proposals@[k].deposit_rules_match && stage.proposals@[k].collecting && height
                        < stage.proposals@[k].close_height,
                GovernanceActionInput::Proposal { proposal_id, action_class, action_data, action_digest } => {
                    &&& proposal_id == stage.next_proposal_id
                    &&& signed.digest_matches && signed.proposer_bonded
                    &&& exists|c: int|
                        0 <= c < parent.action_classes@.len() && (#[trigger] parent.action_classes@[c]).0 == action_class
                            && action_data@.len() <= parent.action_classes@[c].1
                },
            }
        },
{
    if assess_check(signed, parent, stage, height) is Ok {
        match signed.actions@[0] {
            GovernanceActionInput::Vote { proposal_id, choice } => {
                lemma_proposal_index(stage.proposals@, proposal_id, 0);
                let k = proposal_index(stage.proposals@, proposal_id, 0);
                assert(stage.proposals@[k].proposal_id == proposal_id);
            },
            GovernanceActionInput::Deposit { proposal_id, amount_udgt } => {
                lemma_proposal_index(stage.proposals@, proposal_id, 0);
                let k = proposal_index(stage.proposals@, proposal_id, 0);
                assert(stage.proposals@[k].proposal_id == proposal_id);
            },
            GovernanceActionInput::Proposal { proposal_id, action_class, action_data, action_digest } => {
                lemma_class_index(parent.action_classes@, action_class, 0);
                let c = class_index(parent.action_classes@, action_class, 0);
                assert(parent.action_classes@[c].0 == action_class);
            },
        }
    }
}

} // verus!
