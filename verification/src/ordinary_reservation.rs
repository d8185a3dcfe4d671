//! Funding requests derived from an authenticated ordinary transaction: the
//! debits its actions would make and the work its wire needs. A request is
//! planning data, never an execution permit.
use vstd::prelude::*;
use crate::block_meter::digest_eq;
use crate::ordinary_authority::{Action, Denomination};
use crate::ordinary_fee_settlement::PlanError;
use crate::governance_signed_admission::GovernanceActionInput;

verus! {

#[derive(Clone, Copy, Debug, PartialEq, Eq, Structural)]
pub enum DebitKind {
    SelfTransfer,
    Outflow,
}

/// An amount an action would take from an owner's asset.
#[derive(Clone, Copy, Debug, PartialEq, Eq)]
pub struct ActionDebit {
    pub owner: [u8; 32],
    pub denomination: Denomination,
    pub amount: u128,
    pub kind: DebitKind,
}

/// A current balance of an owner's asset.
#[derive(Clone, Copy, Debug, PartialEq, Eq)]
pub struct AssetBalance {
    pub owner: [u8; 32],
    pub denomination: Denomination,
    pub amount: u128,
}

/// The balance recorded for an owner's asset from the `i`-th entry on, or
/// zero.
pub open spec fn balance_at(b: Seq<AssetBalance>, owner: Seq<u8>, d: Denomination, i: int) -> u128
    decreases b.len() - i,
{
    if i < 0 || i >= b.len() {
        0
    } else if b[i].owner@ == owner && b[i].denomination == d {
        b[i].amount
    } else {
        balance_at(b, owner, d, i + 1)
    }
}

/// Whether an action claims `owner`'s grant.
pub open spec fn claims(a: Action, owner: Seq<u8>) -> bool {
    match a {
        Action::DmsClaim { owner: o, .. } => o@ == owner,
        _ => false,
    }
}

/// Whether an action before the `n`-th claims `owner`'s grant.
pub open spec fn claimed_before(actions: Seq<Action>, n: int, owner: Seq<u8>) -> bool {
    exists|j: int| 0 <= j < n && claims(#[trigger] actions[j], owner)
}

/// A claim's debits: every positive balance of the owner, DGT first.
pub open spec fn claim_debits(b: Seq<AssetBalance>, owner: [u8; 32]) -> Seq<ActionDebit> {
    let g = balance_at(b, owner@, Denomination::Udgt, 0);
    let r = balance_at(b, owner@, Denomination::Udrt, 0);
    let first = if g > 0 {
        seq![ActionDebit { owner, denomination: Denomination::Udgt, amount: g, kind: DebitKind::Outflow }]
    } else {
        Seq::empty()
    };
    if r > 0 {
        first.push(ActionDebit { owner, denomination: Denomination::Udrt, amount: r, kind: DebitKind::Outflow })
    } else {
        first
    }
}

/// The debits of one action. A repeated claim of the same owner adds
/// nothing; staking debits count only when `staking` is set.
pub open spec fn action_debits(actor: [u8; 32], a: Action, b: Seq<AssetBalance>, staking: bool, repeated: bool) -> Seq<
    ActionDebit,
> {
    match a {
        Action::Send { recipient, denomination, amount } => seq![
            ActionDebit {
                owner: actor,
                denomination,
                amount,
                kind: if recipient@ == actor@ {
                    DebitKind::SelfTransfer
                } else {
                    DebitKind::Outflow
                },
            },
        ],
        Action::RewardBond { amount_udgt, .. } => if staking {
            seq![ActionDebit { owner: actor, denomination: Denomination::Udgt, amount: amount_udgt, kind: DebitKind::Outflow }]
        } else {
            Seq::empty()
        },
        Action::ValidatorRegister { amount_udgt, .. } => if staking {
            seq![ActionDebit { owner: actor, denomination: Denomination::Udgt, amount: amount_udgt, kind: DebitKind::Outflow }]
        } else {
            Seq::empty()
        },
        Action::DmsClaim { owner, .. } => if repeated {
            Seq::empty()
        } else {
            claim_debits(b, owner)
        },
        _ => Seq::empty(),
    }
}

/// The debits of the first `n` actions, in action order.
pub open spec fn debits_upto(actor: [u8; 32], actions: Seq<Action>, b: Seq<AssetBalance>, staking: bool, n: int) -> Seq<
    ActionDebit,
>
    decreases n,
{
    if n <= 0 || n > actions.len() {
        Seq::empty()
    } else {
        debits_upto(actor, actions, b, staking, n - 1) + action_debits(
            actor,
            actions[n - 1],
            b,
            staking,
            match actions[n - 1] {
                Action::DmsClaim { owner, .. } => claimed_before(actions, n - 1, owner@),
                _ => false,
            },
        )
    }
}

fn balance_of_asset(b: &Vec<AssetBalance>, owner: &[u8; 32], d: Denomination) -> (r: u128)
    ensures
        r == balance_at(b@, owner@, d, 0),
{
    let mut i: usize = 0;
    while i < b.len()
        invariant
            i <= b@.len(),
            balance_at(b@, owner@, d, 0) == balance_at(b@, owner@, d, i as int),
        decreases b@.len() - i,
    {
        if digest_eq(&b[i].owner, owner) && b[i].denomination == d {
            return b[i].amount;
        }
        i = i + 1;
    }
    0
}

/// The debits the actions would make from current balances: transfers from
/// the actor, staking principal where `include_staking`, and each claimed
/// owner's positive balances once.
pub fn expected_debits(
    actor: [u8; 32],
    actions: &Vec<Action>,
    balances: &Vec<AssetBalance>,
    include_staking: bool,
) -> (r: Vec<ActionDebit>)
    ensures
        r@ == debits_upto(actor, actions@, balances@, include_staking, actions@.len() as int),
{
    let mut values: Vec<ActionDebit> = Vec::new();
    let mut claimed: Vec<[u8; 32]> = Vec::new();
    let mut i: usize = 0;
    while i < actions.len()
        invariant
            i <= actions@.len(),
            values@ == debits_upto(actor, actions@, balances@, include_staking, i as int),
            forall|o: Seq<u8>|
                #[trigger] claimed_before(actions@, i as int, o) == exists|k: int| 0 <= k < claimed@.len() && (#[trigger] claimed@[k])@ == o,
        decreases actions@.len() - i,
    {
        let ghost before = values@;
        let ghost cl = claimed@;
        match &actions[i] {
            Action::Send { recipient, denomination, amount } => {
                let kind = if digest_eq(recipient, &actor) {
                    DebitKind::SelfTransfer
                } else {
                    DebitKind::Outflow
                };
                values.push(ActionDebit { owner: actor, denomination: *denomination, amount: *amount, kind });
            },
            Action::RewardBond { amount_udgt, .. } => {
                if include_staking {
                    values.push(
                        ActionDebit { owner: actor, denomination: Denomination::Udgt, amount: *amount_udgt, kind: DebitKind::Outflow },
                    );
                }
            },
            Action::ValidatorRegister { amount_udgt, .. } => {
                if include_staking {
                    values.push(
                        ActionDebit { owner: actor, denomination: Denomination::Udgt, amount: *amount_udgt, kind: DebitKind::Outflow },
                    );
                }
            },
            Action::DmsClaim { owner, .. } => {
                let mut seen = false;
                let mut k: usize = 0;
                while k < claimed.len()
                    invariant
                        k <= claimed@.len(),
                        claimed@ == cl,
                        seen == exists|m: int| 0 <= m < k && (#[trigger] claimed@[m])@ == owner@,
                    decreases claimed@.len() - k,
                {
                    if digest_eq(&claimed[k], owner) {
                        seen = true;
                    }
                    k = k + 1;
                }
                if !seen {
                    claimed.push(*owner);
                    let g = balance_of_asset(balances, owner, Denomination::Udgt);
                    if g > 0 {
                        values.push(
                            ActionDebit { owner: *owner, denomination: Denomination::Udgt, amount: g, kind: DebitKind::Outflow },
                        );
                    }
                    let d = balance_of_asset(balances, owner, Denomination::Udrt);
                    if d > 0 {
                        values.push(
                            ActionDebit { owner: *owner, denomination: Denomination::Udrt, amount: d, kind: DebitKind::Outflow },
                        );
                    }
                }
            },
            _ => {},
        }
        proof {
            let a = actions@[i as int];
            assert forall|o: Seq<u8>|
                #[trigger] claimed_before(actions@, i + 1, o) == exists|k: int| 0 <= k < claimed@.len() && (#[trigger] claimed@[k])@ == o by {
                if claimed_before(actions@, i + 1, o) {
                    let j = choose|j: int| 0 <= j < i + 1 && claims(#[trigger] actions@[j], o);
                    if j < i {
                        assert(claimed_before(actions@, i as int, o));
                        let k = choose|k: int| 0 <= k < cl.len() && (#[trigger] cl[k])@ == o;
                        assert(claimed@[k] == cl[k]);
                    } else if claimed@.len() > cl.len() {
                        assert(claimed@[cl.len() as int]@ == o);
                    } else {
                        let k = choose|k: int| 0 <= k < cl.len() && (#[trigger] cl[k])@ == o;
                        assert(claimed@[k] == cl[k]);
                    }
                }
                if exists|k: int| 0 <= k < claimed@.len() && (#[trigger] claimed@[k])@ == o {
                    let k = choose|k: int| 0 <= k < claimed@.len() && (#[trigger] claimed@[k])@ == o;
                    if k < cl.len() {
                        assert(claimed@[k] == cl[k]);
                        assert(claimed_before(actions@, i as int, o));
                        let j = choose|j: int| 0 <= j < i && claims(#[trigger] actions@[j], o);
                        assert(claims(actions@[j], o));
                    } else {
                        assert(claims(actions@[i as int], o));
                    }
                }
            }
            assert(values@ =~= debits_upto(actor, actions@, balances@, include_staking, i + 1));
        }
        i = i + 1;
    }
    values
}

/// What a reservation funds: an ordinary transaction, or a governance
/// transaction under its fee profile.
#[derive(Clone, Copy, Debug, PartialEq, Eq)]
pub enum ReservationId {
    Ordinary([u8; 32]),
    OrdinaryV3 { transaction_id: [u8; 32], profile_digest: [u8; 32] },
}

/// A funding request for a reservation ledger.
#[derive(Clone, Debug, PartialEq, Eq)]
pub struct ReservationRequest {
    pub context_digest: [u8; 32],
    pub id: ReservationId,
    pub payer: [u8; 32],
    pub nonce: u64,
    pub fee_cap_udrt: u128,
    pub action_debits: Vec<ActionDebit>,
    pub unrestricted_debits: Vec<ActionDebit>,
    pub wire_bytes: u64,
    pub signature_work: u64,
}

/// The authenticated transaction as a request reads it, with the sizes its
/// encoding gives: the wire prefix, the signing bytes under the profile's
/// limits and the signature of its algorithm, or why either fails.
pub struct RequestInput {
    pub transaction_id: [u8; 32],
    pub actor: [u8; 32],
    pub spending_nonce: u64,
    pub maximum_fee: u128,
    pub actions: Vec<Action>,
    pub wire_prefix_len: usize,
    pub signing_len: Result<usize, &'static str>,
    pub signature_size: Result<usize, &'static str>,
}

/// The number of actions among the first `n` that carry a validator proof.
pub open spec fn proofs_upto(actions: Seq<Action>, n: int) -> nat
    decreases n,
{
    if n <= 0 || n > actions.len() {
        0
    } else {
        proofs_upto(actions, n - 1) + match actions[n - 1] {
            Action::ValidatorRegister { .. } => 1nat,
            Action::ValidatorRotateKey { .. } => 1nat,
            _ => 0nat,
        }
    }
}

/// What deriving a request gives: the signing-bytes and signature-size
/// refusals first, then the request.
pub open spec fn request_spec(input: RequestInput) -> Result<
    (u64, u64),
    PlanError,
> {
    match input.signing_len {
        Err(e) => Err(PlanError::Rejected(e)),
        Ok(body_len) => match input.signature_size {
            Err(e) => Err(PlanError::Rejected(e)),
            Ok(sig) => Ok(
                (
                    (input.wire_prefix_len + 2 + 4 + body_len + 4 + sig) as u64,
                    (1 + proofs_upto(input.actions@, input.actions@.len() as int)) as u64,
                ),
            ),
        },
    }
}

pub proof fn lemma_proofs_bounded(actions: Seq<Action>, n: int)
    requires
        0 <= n <= actions.len(),
    ensures
        proofs_upto(actions, n) <= n,
    decreases n,
{
    if n > 0 {
        lemma_proofs_bounded(actions, n - 1);
    }
}

/// A fresh reservation request from authenticated intent and the current
/// balance snapshot, bound to the profile's digest.
pub fn reservation_request(input: &RequestInput, context_digest: [u8; 32], balances: &Vec<AssetBalance>) -> (r: Result<
    ReservationRequest,
    PlanError,
>)
    requires
        input.actions@.len() < u64::MAX,
        match (input.signing_len, input.signature_size) {
            (Ok(b), Ok(s)) => input.wire_prefix_len + 2 + 4 + b + 4 + s <= usize::MAX,
            _ => true,
        },
    ensures
        match request_spec(*input) {
            Err(e) => r == Err::<ReservationRequest, PlanError>(e),
            Ok((wire, work)) => r matches Ok(q) && q.context_digest == context_digest && q.id
                == ReservationId::Ordinary(input.transaction_id) && q.payer == input.actor && q.nonce == input.spending_nonce && q.fee_cap_udrt
                == input.maximum_fee && q.action_debits@ == debits_upto(
                input.actor,
                input.actions@,
                balances@,
                true,
                input.actions@.len() as int,
            ) && q.unrestricted_debits@ == debits_upto(
                input.actor,
                input.actions@,
                balances@,
                false,
                input.actions@.len() as int,
            ) && q.wire_bytes == wire && q.signature_work == work,
        },
{
    let body_len = match input.signing_len {
        Err(e) => return Err(PlanError::Rejected(e)),
        Ok(n) => n,
    };
    let sig = match input.signature_size {
        Err(e) => return Err(PlanError::Rejected(e)),
        Ok(n) => n,
    };
    let wire_bytes = input.wire_prefix_len + 2 + 4 + body_len + 4 + sig;
    let mut proofs: u64 = 0;
    let mut i: usize = 0;
    while i < input.actions.len()
        invariant
            i <= input.actions@.len(),
            proofs == proofs_upto(input.actions@, i as int),
        decreases input.actions@.len() - i,
    {
        proof {
            lemma_proofs_bounded(input.actions@, i as int);
        }
        match &input.actions[i] {
            Action::ValidatorRegister { .. } | Action::ValidatorRotateKey { .. } => {
                proofs = proofs + 1;
            },
            _ => {},
        }
        i = i + 1;
    }
    proof {
        lemma_proofs_bounded(input.actions@, input.actions@.len() as int);
    }
    let work = proofs + 1;
    Ok(
        ReservationRequest {
            context_digest,
            id: ReservationId::Ordinary(input.transaction_id),
            payer: input.actor,
            nonce: input.spending_nonce,
            fee_cap_udrt: input.maximum_fee,
            action_debits: expected_debits(input.actor, &input.actions, balances, true),
            unrestricted_debits: expected_debits(input.actor, &input.actions, balances, false),
            wire_bytes: wire_bytes as u64,
            signature_work: work,
        },
    )
}

/// A signed v3 governance transaction as its funding request reads it, with
/// the results of the checks its encoding makes: whether the signed body is
/// the verified one, the wire length (or why it does not encode), whether the
/// wire's hash and the re-derived ID are the verified ones, the profile's
/// check of the signed request, and the profile's digest.
pub struct GovernanceRequestInput {
    pub body_matches_verified: bool,
    pub wire_len: Result<usize, &'static str>,
    pub envelope_matches: bool,
    pub request_check: Result<(), &'static str>,
    pub profile_digest: Result<[u8; 32], &'static str>,
    pub transaction_id: [u8; 32],
    pub actor: [u8; 32],
    pub spending_nonce: u64,
    pub maximum_fee: u128,
    /// The fee profile digest the body signs.
    pub fee_profile_digest: [u8; 32],
    pub actions: Vec<GovernanceActionInput>,
}

/// The debits of a governance body: a deposit's DGT, nothing for a
/// proposal or a vote; `None` unless there is exactly one action.
pub open spec fn governance_debits(actor: [u8; 32], actions: Seq<GovernanceActionInput>) -> Option<Seq<ActionDebit>> {
    if actions.len() != 1 {
        None
    } else {
        match actions[0] {
            GovernanceActionInput::Deposit { amount_udgt, .. } => Some(
                seq![ActionDebit { owner: actor, denomination: Denomination::Udgt, amount: amount_udgt, kind: DebitKind::Outflow }],
            ),
            _ => Some(Seq::empty()),
        }
    }
}

pub open spec fn zero_deposit(a: GovernanceActionInput) -> bool {
    match a {
        GovernanceActionInput::Deposit { amount_udgt, .. } => amount_udgt == 0,
        _ => false,
    }
}

/// What deriving a governance request gives, in the order of its checks:
/// the debits and the wire length.
pub open spec fn governance_request_spec(input: GovernanceRequestInput) -> Result<(Seq<ActionDebit>, u64, [u8; 32]), &'static str> {
    if !input.body_matches_verified {
        Err("Governance reservation body differs from verified body")
    } else if input.wire_len is Err {
        Err(input.wire_len->Err_0)
    } else if !input.envelope_matches {
        Err("Governance reservation differs from verified envelope")
    } else if input.request_check is Err {
        Err(input.request_check->Err_0)
    } else if input.spending_nonce == u64::MAX {
        Err("Governance nonce exhausted")
    } else if input.profile_digest is Err {
        Err(input.profile_digest->Err_0)
    } else if input.fee_profile_digest@ != (input.profile_digest->Ok_0)@ {
        Err("Governance fee profile differs from signed body")
    } else if governance_debits(input.actor, input.actions@) is None {
        Err("Ordinary-v3 requires exactly one governance action")
    } else if zero_deposit(input.actions@[0]) {
        Err("Governance deposit is zero")
    } else if input.wire_len->Ok_0 == 0 {
        Err("Governance wire is empty")
    } else {
        Ok((governance_debits(input.actor, input.actions@)->0, input.wire_len->Ok_0 as u64, input.profile_digest->Ok_0))
    }
}

/// The funding request of an authenticated governance transaction, bound to
/// the queue's committed-head context. Building it reserves nothing.
pub fn governance_reservation_request(input: &GovernanceRequestInput, queue_context_digest: [u8; 32]) -> (r: Result<
    ReservationRequest,
    &'static str,
>)
    ensures
        match governance_request_spec(*input) {
            Err(e) => r == Err::<ReservationRequest, &'static str>(e),
            Ok((debits, wire, digest)) => r matches Ok(q) && q.context_digest == queue_context_digest && q.id
                == (ReservationId::OrdinaryV3 { transaction_id: input.transaction_id, profile_digest: digest })
                && q.payer == input.actor && q.nonce == input.spending_nonce && q.fee_cap_udrt == input.maximum_fee
                && q.action_debits@ == debits && q.unrestricted_debits@ == debits && q.wire_bytes == wire
                && q.signature_work == 1,
        },
{
    if !input.body_matches_verified {
        return Err("Governance reservation body differs from verified body");
    }
    let wire_len = match input.wire_len {
        Err(e) => return Err(e),
        Ok(n) => n,
    };
    if !input.envelope_matches {
        return Err("Governance reservation differs from verified envelope");
    }
    match input.request_check {
        Err(e) => return Err(e),
        Ok(()) => {},
    }
    if input.spending_nonce == u64::MAX {
        return Err("Governance nonce exhausted");
    }
    let profile_digest = match input.profile_digest {
        Err(e) => return Err(e),
        Ok(d) => d,
    };
    if !digest_eq(&input.fee_profile_digest, &profile_digest) {
        return Err("Governance fee profile differs from signed body");
    }
    if input.actions.len() != 1 {
        return Err("Ordinary-v3 requires exactly one governance action");
    }
    let debits: Vec<ActionDebit> = match &input.actions[0] {
        GovernanceActionInput::Deposit { amount_udgt, .. } => {
            if *amount_udgt == 0 {
                return Err("Governance deposit is zero");
            }
            vec![ActionDebit { owner: input.actor, denomination: Denomination::Udgt, amount: *amount_udgt, kind: DebitKind::Outflow }]
        },
        _ => Vec::new(),
    };
    if wire_len == 0 {
        return Err("Governance wire is empty");
    }
    let unrestricted = copy_debits(&debits);
    Ok(
        ReservationRequest {
            context_digest: queue_context_digest,
            id: ReservationId::OrdinaryV3 { transaction_id: input.transaction_id, profile_digest },
            payer: input.actor,
            nonce: input.spending_nonce,
            fee_cap_udrt: input.maximum_fee,
            unrestricted_debits: unrestricted,
            action_debits: debits,
            wire_bytes: wire_len as u64,
            signature_work: 1,
        },
    )
}

fn copy_debits(v: &Vec<ActionDebit>) -> (r: Vec<ActionDebit>)
    ensures
        r@ == v@,
{
    let mut out: Vec<ActionDebit> = Vec::new();
    let mut i: usize = 0;
    while i < v.len()
        invariant
            i <= v@.len(),
            out@ == v@.take(i as int),
        decreases v@.len() - i,
    {
        out.push(v[i]);
        i = i + 1;
        proof {
            assert(out@ =~= v@.take(i as int));
        }
    }
    proof {
        assert(v@.take(v@.len() as int) =~= v@);
    }
    out
}

} // verus!
