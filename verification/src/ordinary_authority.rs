//! Current-authority assessment of ordinary transactions.
//!
//! An assessment is read-only planning data, never an execution permit: it
//! names the actor and fee payer, every action's debit owners, the nonce the
//! transaction would consume, the grants it would prepare, the registry
//! facts still to be proved and the claims whose maturity is decided after
//! fee acceptance.
use vstd::prelude::*;
use crate::block_meter::digest_eq;
use crate::ordinary_logical::DiscretionaryGrant;
use crate::record_keys::bytes_equal;
use crate::text::str_eq;
use crate::mempool::{bytes_before, seq_before};

verus! {

#[derive(Clone, Debug, PartialEq, Eq)]
pub struct RecoveryDomain {
    pub network: u8,
    pub chain_id: String,
    pub genesis_digest: [u8; 32],
    pub account_id: [u8; 32],
}

#[derive(Clone, Debug, PartialEq, Eq)]
pub struct KeyIdentity {
    pub algorithm: String,
    pub public_key: Vec<u8>,
}

pub open spec fn domain_view(d: RecoveryDomain) -> (u8, Seq<char>, Seq<u8>, Seq<u8>) {
    (d.network, d.chain_id@, d.genesis_digest@, d.account_id@)
}

pub open spec fn identity_view(k: KeyIdentity) -> (Seq<char>, Seq<u8>) {
    (k.algorithm@, k.public_key@)
}

/// A registered account's recovery state as authority reads it.
#[derive(Clone, Debug)]
pub struct RecoveryAccount {
    pub address: String,
    pub domain: RecoveryDomain,
    pub active_key: KeyIdentity,
    pub active_generation: u64,
    pub spending_nonce: u64,
    /// Whether the account may authorize outgoing actions and debits.
    pub outgoing_allowed: bool,
    /// The stable ID that `address` decodes to on the domain's network, or
    /// `None` where it does not decode there.
    pub address_id: Option<[u8; 32]>,
}

/// The staged recovery book: its height, whether it passed its own
/// structural validation, and its accounts by stable ID.
pub struct RecoveryBook {
    pub last_height: u64,
    pub structurally_valid: bool,
    pub accounts: Vec<RecoveryAccount>,
}

#[derive(Clone, Copy, Debug, PartialEq, Eq, Structural)]
pub enum Denomination {
    Udgt,
    Udrt,
}

/// An ordinary action.
#[derive(Clone, Debug, PartialEq, Eq)]
pub enum Action {
    Send { recipient: [u8; 32], denomination: Denomination, amount: u128 },
    Data,
    DmsRegister { beneficiary: [u8; 32], period_blocks: u64 },
    DmsPing,
    DmsClaim { owner: [u8; 32], expected_grant_generation: u64 },
    RewardBond { validator_id: String, amount_udgt: u128 },
    RewardBeginUnbond { validator_id: String, amount_udgt: u128 },
    RewardClaim,
    ValidatorRegister { validator_id: String, amount_udgt: u128 },
    ValidatorRotateKey { validator_id: String },
    ValidatorExit { validator_id: String },
    ValidatorWithdraw { unbond_id: String },
}

/// The signed ordinary body as authority reads it.
pub struct OrdinaryBody {
    pub domain: RecoveryDomain,
    pub key: KeyIdentity,
    pub authorization_generation: u64,
    pub spending_nonce: u64,
    pub expiry_height: u64,
    pub actions: Vec<Action>,
}

/// The selected limits: whether they are consistent, whether the body
/// encodes within them, and the longest expiry lifetime.
#[derive(Clone, Copy, Debug, PartialEq, Eq)]
pub struct AuthorityLimits {
    pub limits_valid: bool,
    pub body_encodes: bool,
    pub max_expiry_lifetime: u64,
}

/// A registry fact a module must still prove.
#[derive(Clone, Debug, PartialEq, Eq)]
pub enum RegistryRequirement {
    Validator { validator_id: String, actor: [u8; 32] },
    ValidatorProof { validator_id: String, actor: [u8; 32] },
    Unbond { unbond_id: String, owner: [u8; 32] },
    RewardEntitlement { owner: [u8; 32] },
}

#[derive(Debug)]
pub struct ActionOwners {
    pub index: u16,
    /// Includes custody ownership where the amount is not yet liquid.
    pub debit_owners: Vec<[u8; 32]>,
}

#[derive(Debug)]
pub struct NoncePreparation {
    pub actor: [u8; 32],
    pub generation: u64,
    pub before: u64,
    pub after: u64,
}

/// A current-authority assessment. It is not an execution permit.
#[derive(Debug)]
pub struct AuthorityAssessment {
    pub transaction_id: [u8; 32],
    pub envelope_hash: [u8; 32],
    pub actor: [u8; 32],
    pub fee_payer: [u8; 32],
    pub action_owners: Vec<ActionOwners>,
    pub prospective_nonce: NoncePreparation,
    /// Grants by owner after the transaction's registrations and pings.
    pub prospective_grants: Vec<DiscretionaryGrant>,
    pub registry_requirements: Vec<RegistryRequirement>,
    /// Claims by action index with the height at which each matures.
    pub deferred_claims: Vec<(u16, u64)>,
}

impl AuthorityAssessment {
    pub fn is_executable(&self) -> (r: bool)
        ensures
            !r,
    {
        false
    }

    /// An assessment never executes: paid execution goes through the signed
    /// runtime entry point.
    pub fn require_paid_execution(&self) -> (r: Result<(), &'static str>)
        ensures
            r == Err::<(), &'static str>(
                "Authority assessment cannot execute; use the signed combined runtime entrypoint",
            ),
    {
        Err("Authority assessment cannot execute; use the signed combined runtime entrypoint")
    }
}

/// The first account at or after `i` whose stable ID is `id`, or -1.
pub open spec fn book_index(a: Seq<RecoveryAccount>, id: Seq<u8>, i: int) -> int
    decreases a.len() - i,
{
    if i < 0 || i >= a.len() {
        -1
    } else if a[i].domain.account_id@ == id {
        i
    } else {
        book_index(a, id, i + 1)
    }
}

/// A found account lies in the book.
pub proof fn lemma_book_index_range(a: Seq<RecoveryAccount>, id: Seq<u8>, i: int)
    ensures
        book_index(a, id, i) == -1 || 0 <= book_index(a, id, i) < a.len(),
    decreases a.len() - i,
{
    if 0 <= i < a.len() && a[i].domain.account_id@ != id {
        lemma_book_index_range(a, id, i + 1);
    }
}

/// A found account is registered under the ID it was found by.
pub proof fn lemma_book_index_found(a: Seq<RecoveryAccount>, id: Seq<u8>, i: int)
    ensures
        book_index(a, id, i) >= 0 ==> a[book_index(a, id, i)].domain.account_id@ == id,
    decreases a.len() - i,
{
    if 0 <= i < a.len() && a[i].domain.account_id@ != id {
        lemma_book_index_found(a, id, i + 1);
    }
}

/// The first grant at or after `i` owned by `id`, or -1.
pub open spec fn grant_index(g: Seq<DiscretionaryGrant>, id: Seq<u8>, i: int) -> int
    decreases g.len() - i,
{
    if i < 0 || i >= g.len() {
        -1
    } else if g[i].owner@ == id {
        i
    } else {
        grant_index(g, id, i + 1)
    }
}

pub open spec fn unregistered() -> &'static str {
    "Unregistered ordinary account reference"
}

/// Why one grant record is invalid against the book, if it is.
pub open spec fn grant_fault(book: RecoveryBook, g: DiscretionaryGrant) -> Option<&'static str> {
    let oi = book_index(book.accounts@, g.owner@, 0);
    if g.version != 1 {
        Some("Invalid discretionary grant record key/version")
    } else if oi < 0 || book_index(book.accounts@, g.beneficiary@, 0) < 0 {
        Some(unregistered())
    } else if g.owner@ == g.beneficiary@ || g.period_blocks == 0 {
        Some("Invalid discretionary beneficiary or period")
    } else if g.owner_generation > book.accounts@[oi].active_generation {
        Some("Discretionary grant contains a future generation")
    } else if g.last_active_height > book.last_height {
        Some("Discretionary grant activity is in the future")
    } else if g.last_active_height + g.period_blocks > u64::MAX {
        Some("Discretionary grant deadline overflow")
    } else {
        None
    }
}

/// The first invalid grant at or after `i`.
pub open spec fn grants_fault_from(book: RecoveryBook, g: Seq<DiscretionaryGrant>, i: int) -> Option<&'static str>
    decreases g.len() - i,
{
    if i < 0 || i >= g.len() {
        None
    } else {
        match grant_fault(book, g[i]) {
            Some(m) => Some(m),
            None => grants_fault_from(book, g, i + 1),
        }
    }
}

/// What checking grants against the book gives: a bounded count and every
/// record valid, owned and current.
pub open spec fn grants_check(book: RecoveryBook, g: Seq<DiscretionaryGrant>) -> Result<(), &'static str> {
    if g.len() > book.accounts@.len() {
        Err("Discretionary grant count exceeds owner capacity")
    } else {
        match grants_fault_from(book, g, 0) {
            Some(m) => Err(m),
            None => Ok(()),
        }
    }
}

pub(crate) fn find_account(book: &RecoveryBook, id: &[u8; 32]) -> (r: Option<usize>)
    ensures
        match r {
            Some(i) => book_index(book.accounts@, id@, 0) == i && i < book.accounts@.len(),
            None => book_index(book.accounts@, id@, 0) == -1,
        },
{
    let mut i: usize = 0;
    while i < book.accounts.len()
        invariant
            i <= book.accounts@.len(),
            book_index(book.accounts@, id@, 0) == book_index(book.accounts@, id@, i as int),
        decreases book.accounts@.len() - i,
    {
        if digest_eq(&book.accounts[i].domain.account_id, id) {
            return Some(i);
        }
        i = i + 1;
    }
    None
}

pub(crate) fn find_grant(g: &Vec<DiscretionaryGrant>, id: &[u8; 32]) -> (r: Option<usize>)
    ensures
        match r {
            Some(i) => grant_index(g@, id@, 0) == i && i < g@.len(),
            None => grant_index(g@, id@, 0) == -1,
        },
{
    let mut i: usize = 0;
    while i < g.len()
        invariant
            i <= g@.len(),
            grant_index(g@, id@, 0) == grant_index(g@, id@, i as int),
        decreases g@.len() - i,
    {
        if digest_eq(&g[i].owner, id) {
            return Some(i);
        }
        i = i + 1;
    }
    None
}

fn check_grant(book: &RecoveryBook, g: &DiscretionaryGrant) -> (r: Option<&'static str>)
    ensures
        r == grant_fault(*book, *g),
{
    if g.version != 1 {
        return Some("Invalid discretionary grant record key/version");
    }
    let oi = match find_account(book, &g.owner) {
        Some(i) => i,
        None => return Some("Unregistered ordinary account reference"),
    };
    if find_account(book, &g.beneficiary).is_none() {
        return Some("Unregistered ordinary account reference");
    }
    if digest_eq(&g.owner, &g.beneficiary) || g.period_blocks == 0 {
        return Some("Invalid discretionary beneficiary or period");
    }
    if g.owner_generation > book.accounts[oi].active_generation {
        return Some("Discretionary grant contains a future generation");
    }
    if g.last_active_height > book.last_height {
        return Some("Discretionary grant activity is in the future");
    }
    if g.last_active_height.checked_add(g.period_blocks).is_none() {
        return Some("Discretionary grant deadline overflow");
    }
    None
}

/// Check grants against the book. Stale grants stay recorded but cannot be
/// used: their owners must register new grants.
pub fn validate_grants(book: &RecoveryBook, grants: &Vec<DiscretionaryGrant>) -> (r: Result<(), &'static str>)
    ensures
        r == grants_check(*book, grants@),
{
    if grants.len() > book.accounts.len() {
        return Err("Discretionary grant count exceeds owner capacity");
    }
    let mut i: usize = 0;
    while i < grants.len()
        invariant
            i <= grants@.len(),
            grants@.len() <= book.accounts@.len(),
            grants_fault_from(*book, grants@, 0) == grants_fault_from(*book, grants@, i as int),
        decreases grants@.len() - i,
    {
        match check_grant(book, &grants[i]) {
            Some(m) => return Err(m),
            None => {},
        }
        i = i + 1;
    }
    Ok(())
}

/// What the action loop has prepared so far.
pub struct Prepared {
    pub grants: Seq<DiscretionaryGrant>,
    pub owners: Seq<(u16, Seq<[u8; 32]>)>,
    pub requirements: Seq<RegistryRequirement>,
    pub deferred: Seq<(u16, u64)>,
}

/// The debit owners of an action: the actor, and a claim's owner, in byte
/// order.
pub open spec fn debit_owners(actor: [u8; 32], claim_owner: Option<[u8; 32]>) -> Seq<[u8; 32]> {
    match claim_owner {
        None => seq![actor],
        Some(o) => if o@ == actor@ {
            seq![actor]
        } else if seq_before(o@, actor@) {
            seq![o, actor]
        } else {
            seq![actor, o]
        },
    }
}

/// A grant registered, or replaced, for its owner.
pub open spec fn upsert_grant(g: Seq<DiscretionaryGrant>, grant: DiscretionaryGrant) -> Seq<DiscretionaryGrant> {
    let gi = grant_index(g, grant.owner@, 0);
    if gi >= 0 {
        g.update(gi, grant)
    } else {
        g.push(grant)
    }
}

pub open spec fn with_owners(p: Prepared, idx: int, actor: [u8; 32], claim_owner: Option<[u8; 32]>) -> Result<
    Prepared,
    &'static str,
> {
    if idx > u16::MAX {
        Err("Ordinary action index exceeds u16")
    } else {
        Ok(Prepared { owners: p.owners.push((idx as u16, debit_owners(actor, claim_owner))), ..p })
    }
}

/// One action's authority checks and preparation.
pub open spec fn action_step(
    book: RecoveryBook,
    actor: [u8; 32],
    generation: u64,
    height: u64,
    defer: bool,
    p: Prepared,
    idx: int,
    action: Action,
) -> Result<Prepared, &'static str> {
    match action {
        Action::Send { recipient, denomination, amount } => if amount == 0 {
            Err("Ordinary transfer amount must be positive")
        } else if book_index(book.accounts@, recipient@, 0) < 0 {
            Err(unregistered())
        } else {
            with_owners(p, idx, actor, None)
        },
        Action::Data => with_owners(p, idx, actor, None),
        Action::DmsRegister { beneficiary, period_blocks } => if book_index(book.accounts@, beneficiary@, 0) < 0 {
            Err(unregistered())
        } else if beneficiary@ == actor@ || period_blocks == 0 {
            Err("Invalid discretionary grant registration")
        } else if height + period_blocks > u64::MAX {
            Err("Discretionary grant deadline overflow")
        } else {
            with_owners(
                Prepared {
                    grants: upsert_grant(
                        p.grants,
                        DiscretionaryGrant {
                            version: 1,
                            owner: actor,
                            beneficiary,
                            owner_generation: generation,
                            period_blocks,
                            last_active_height: height,
                        },
                    ),
                    ..p
                },
                idx,
                actor,
                None,
            )
        },
        Action::DmsPing => {
            let gi = grant_index(p.grants, actor@, 0);
            if gi < 0 {
                Err("Discretionary grant not registered")
            } else if p.grants[gi].owner_generation != generation {
                Err("Stale grant requires owner registration, not ping")
            } else if height + p.grants[gi].period_blocks > u64::MAX {
                Err("Discretionary grant deadline overflow")
            } else {
                with_owners(
                    Prepared {
                        grants: p.grants.update(gi, DiscretionaryGrant { last_active_height: height, ..p.grants[gi] }),
                        ..p
                    },
                    idx,
                    actor,
                    None,
                )
            }
        },
        Action::DmsClaim { owner, expected_grant_generation } => {
            let oi = book_index(book.accounts@, owner@, 0);
            let gi = grant_index(p.grants, owner@, 0);
            if oi < 0 {
                Err(unregistered())
            } else if !book.accounts@[oi].outgoing_allowed {
                Err("Protected account cannot authorize a discretionary action or debit")
            } else if gi < 0 {
                Err("Discretionary grant not registered")
            } else if p.grants[gi].beneficiary@ != actor@ || owner@ == actor@ {
                Err("Actor is not the registered distinct beneficiary")
            } else if expected_grant_generation != p.grants[gi].owner_generation || p.grants[gi].owner_generation
                != book.accounts@[oi].active_generation {
                Err("Discretionary grant generation is stale")
            } else if p.grants[gi].last_active_height + p.grants[gi].period_blocks > u64::MAX {
                Err("Discretionary grant deadline overflow")
            } else {
                let deadline = (p.grants[gi].last_active_height + p.grants[gi].period_blocks) as u64;
                if defer {
                    if idx > u16::MAX {
                        Err("Ordinary action index exceeds u16")
                    } else {
                        with_owners(Prepared { deferred: p.deferred.push((idx as u16, deadline)), ..p }, idx, actor, Some(owner))
                    }
                } else if height < deadline {
                    Err("Discretionary grant is not mature")
                } else {
                    with_owners(p, idx, actor, Some(owner))
                }
            }
        },
        Action::RewardBond { validator_id, amount_udgt } => if amount_udgt == 0 {
            Err("Ordinary stake amount must be positive")
        } else {
            with_owners(
                Prepared { requirements: p.requirements.push(RegistryRequirement::Validator { validator_id, actor }), ..p },
                idx,
                actor,
                None,
            )
        },
        Action::RewardBeginUnbond { validator_id, amount_udgt } => if amount_udgt == 0 {
            Err("Ordinary stake amount must be positive")
        } else {
            with_owners(
                Prepared { requirements: p.requirements.push(RegistryRequirement::Validator { validator_id, actor }), ..p },
                idx,
                actor,
                None,
            )
        },
        Action::RewardClaim => with_owners(
            Prepared { requirements: p.requirements.push(RegistryRequirement::RewardEntitlement { owner: actor }), ..p },
            idx,
            actor,
            None,
        ),
        Action::ValidatorRegister { validator_id, amount_udgt } => if amount_udgt == 0 {
            Err("Validator bond amount must be positive")
        } else {
            with_owners(
                Prepared {
                    requirements: p.requirements.push(RegistryRequirement::Validator { validator_id, actor }).push(
                        RegistryRequirement::ValidatorProof { validator_id, actor },
                    ),
                    ..p
                },
                idx,
                actor,
                None,
            )
        },
        Action::ValidatorRotateKey { validator_id } => with_owners(
            Prepared {
                requirements: p.requirements.push(RegistryRequirement::Validator { validator_id, actor }).push(
                    RegistryRequirement::ValidatorProof { validator_id, actor },
                ),
                ..p
            },
            idx,
            actor,
            None,
        ),
        Action::ValidatorExit { validator_id } => with_owners(
            Prepared { requirements: p.requirements.push(RegistryRequirement::Validator { validator_id, actor }), ..p },
            idx,
            actor,
            None,
        ),
        Action::ValidatorWithdraw { unbond_id } => with_owners(
            Prepared { requirements: p.requirements.push(RegistryRequirement::Unbond { unbond_id, owner: actor }), ..p },
            idx,
            actor,
            None,
        ),
    }
}

pub open spec fn actions_fold(
    book: RecoveryBook,
    actor: [u8; 32],
    generation: u64,
    height: u64,
    defer: bool,
    p: Prepared,
    actions: Seq<Action>,
) -> Result<Prepared, &'static str>
    decreases actions.len(),
{
    if actions.len() == 0 {
        Ok(p)
    } else {
        match actions_fold(book, actor, generation, height, defer, p, actions.drop_last()) {
            Err(m) => Err(m),
            Ok(q) => action_step(book, actor, generation, height, defer, q, actions.len() - 1, actions.last()),
        }
    }
}

pub open spec fn owners_view(o: Seq<ActionOwners>) -> Seq<(u16, Seq<[u8; 32]>)> {
    o.map_values(|x: ActionOwners| (x.index, x.debit_owners@))
}

/// The loop's working state.
struct PrepState {
    grants: Vec<DiscretionaryGrant>,
    owners: Vec<ActionOwners>,
    requirements: Vec<RegistryRequirement>,
    deferred: Vec<(u16, u64)>,
}

impl View for PrepState {
    type V = Prepared;

    closed spec fn view(&self) -> Prepared {
        Prepared {
            grants: self.grants@,
            owners: owners_view(self.owners@),
            requirements: self.requirements@,
            deferred: self.deferred@,
        }
    }
}

fn owners_of(actor: [u8; 32], claim_owner: Option<[u8; 32]>) -> (r: Vec<[u8; 32]>)
    ensures
        r@ == debit_owners(actor, claim_owner),
{
    match claim_owner {
        None => vec![actor],
        Some(o) => {
            if digest_eq(&o, &actor) {
                vec![actor]
            } else if bytes_before(o.as_slice(), actor.as_slice()) {
                vec![o, actor]
            } else {
                vec![actor, o]
            }
        },
    }
}

impl PrepState {
    fn push_owners(&mut self, idx: usize, actor: [u8; 32], claim_owner: Option<[u8; 32]>) -> (r: Result<(), &'static str>)
        ensures
            match with_owners(old(self)@, idx as int, actor, claim_owner) {
                Ok(q) => r is Ok && final(self)@ == q,
                Err(m) => r == Err::<(), &'static str>(m),
            },
    {
        if idx > 65535 {
            return Err("Ordinary action index exceeds u16");
        }
        let ghost p0 = self@;
        let owners = owners_of(actor, claim_owner);
        self.owners.push(ActionOwners { index: idx as u16, debit_owners: owners });
        assert(owners_view(self.owners@) =~= p0.owners.push((idx as u16, debit_owners(actor, claim_owner))));
        Ok(())
    }

    fn upsert(&mut self, grant: DiscretionaryGrant)
        ensures
            final(self)@ == (Prepared { grants: upsert_grant(old(self)@.grants, grant), ..old(self)@ }),
    {
        match find_grant(&self.grants, &grant.owner) {
            Some(gi) => {
                self.grants.set(gi, grant);
            },
            None => {
                self.grants.push(grant);
            },
        }
    }

    fn apply(
        &mut self,
        book: &RecoveryBook,
        actor: [u8; 32],
        generation: u64,
        height: u64,
        defer: bool,
        idx: usize,
        action: &Action,
    ) -> (r: Result<(), &'static str>)
        ensures
            match action_step(*book, actor, generation, height, defer, old(self)@, idx as int, *action) {
                Ok(q) => r is Ok && final(self)@ == q,
                Err(m) => r == Err::<(), &'static str>(m),
            },
    {
        match action {
            Action::Send { recipient, denomination: _, amount } => {
                if *amount == 0 {
                    return Err("Ordinary transfer amount must be positive");
                }
                if find_account(book, recipient).is_none() {
                    return Err("Unregistered ordinary account reference");
                }
                self.push_owners(idx, actor, None)
            },
            Action::Data => self.push_owners(idx, actor, None),
            Action::DmsRegister { beneficiary, period_blocks } => {
                if find_account(book, beneficiary).is_none() {
                    return Err("Unregistered ordinary account reference");
                }
                if digest_eq(beneficiary, &actor) || *period_blocks == 0 {
                    return Err("Invalid discretionary grant registration");
                }
                if height.checked_add(*period_blocks).is_none() {
                    return Err("Discretionary grant deadline overflow");
                }
                self.upsert(DiscretionaryGrant {
                    version: 1,
                    owner: actor,
                    beneficiary: *beneficiary,
                    owner_generation: generation,
                    period_blocks: *period_blocks,
                    last_active_height: height,
                });
                self.push_owners(idx, actor, None)
            },
            Action::DmsPing => {
                let gi = match find_grant(&self.grants, &actor) {
                    Some(gi) => gi,
                    None => return Err("Discretionary grant not registered"),
                };
                let grant = self.grants[gi];
                if grant.owner_generation != generation {
                    return Err("Stale grant requires owner registration, not ping");
                }
                if height.checked_add(grant.period_blocks).is_none() {
                    return Err("Discretionary grant deadline overflow");
                }
                self.grants.set(gi, DiscretionaryGrant { last_active_height: height, ..grant });
                self.push_owners(idx, actor, None)
            },
            Action::DmsClaim { owner, expected_grant_generation } => {
                let oi = match find_account(book, owner) {
                    Some(oi) => oi,
                    None => return Err("Unregistered ordinary account reference"),
                };
                if !book.accounts[oi].outgoing_allowed {
                    return Err("Protected account cannot authorize a discretionary action or debit");
                }
                let gi = match find_grant(&self.grants, owner) {
                    Some(gi) => gi,
                    None => return Err("Discretionary grant not registered"),
                };
                let grant = self.grants[gi];
                if !digest_eq(&grant.beneficiary, &actor) || digest_eq(owner, &actor) {
                    return Err("Actor is not the registered distinct beneficiary");
                }
                if *expected_grant_generation != grant.owner_generation || grant.owner_generation
                    != book.accounts[oi].active_generation {
                    return Err("Discretionary grant generation is stale");
                }
                let deadline = match grant.last_active_height.checked_add(grant.period_blocks) {
                    Some(d) => d,
                    None => return Err("Discretionary grant deadline overflow"),
                };
                if defer {
                    if idx > 65535 {
                        return Err("Ordinary action index exceeds u16");
                    }
                    self.deferred.push((idx as u16, deadline));
                } else if height < deadline {
                    return Err("Discretionary grant is not mature");
                }
                self.push_owners(idx, actor, Some(*owner))
            },
            Action::RewardBond { validator_id, amount_udgt } | Action::RewardBeginUnbond { validator_id, amount_udgt } => {
                if *amount_udgt == 0 {
                    return Err("Ordinary stake amount must be positive");
                }
                self.requirements.push(RegistryRequirement::Validator { validator_id: validator_id.clone(), actor });
                self.push_owners(idx, actor, None)
            },
            Action::RewardClaim => {
                self.requirements.push(RegistryRequirement::RewardEntitlement { owner: actor });
                self.push_owners(idx, actor, None)
            },
            Action::ValidatorRegister { validator_id, amount_udgt } => {
                if *amount_udgt == 0 {
                    return Err("Validator bond amount must be positive");
                }
                self.requirements.push(RegistryRequirement::Validator { validator_id: validator_id.clone(), actor });
                self.requirements.push(RegistryRequirement::ValidatorProof { validator_id: validator_id.clone(), actor });
                self.push_owners(idx, actor, None)
            },
            Action::ValidatorRotateKey { validator_id } => {
                self.requirements.push(RegistryRequirement::Validator { validator_id: validator_id.clone(), actor });
                self.requirements.push(RegistryRequirement::ValidatorProof { validator_id: validator_id.clone(), actor });
                self.push_owners(idx, actor, None)
            },
            Action::ValidatorExit { validator_id } => {
                self.requirements.push(RegistryRequirement::Validator { validator_id: validator_id.clone(), actor });
                self.push_owners(idx, actor, None)
            },
            Action::ValidatorWithdraw { unbond_id } => {
                self.requirements.push(RegistryRequirement::Unbond { unbond_id: unbond_id.clone(), owner: actor });
                self.push_owners(idx, actor, None)
            },
        }
    }
}

/// The nonce recorded for `address` from the `i`-th entry on, if any.
pub open spec fn nonce_of(n: Seq<(String, u64)>, address: Seq<char>, i: int) -> Option<u64>
    decreases n.len() - i,
{
    if i < 0 || i >= n.len() {
        None
    } else if n[i].0@ == address {
        Some(n[i].1)
    } else {
        nonce_of(n, address, i + 1)
    }
}

/// Why one account's native mirror disagrees with its recovery state, if it
/// does.
pub open spec fn mirror_fault(a: RecoveryAccount, nonces: Seq<(String, u64)>) -> Option<&'static str> {
    if a.domain.network < 1 || a.domain.network > 3 {
        Some("Unknown ordinary account network")
    } else {
        match a.address_id {
            None => Some("Ordinary account address does not decode"),
            Some(id) => if id@ != a.domain.account_id@ {
                Some("Ordinary account address mapping differs from stable ID")
            } else if nonce_of(nonces, a.address@, 0) != Some(a.spending_nonce) {
                Some("Ordinary native nonce mirror missing or unequal")
            } else {
                None
            },
        }
    }
}

pub open spec fn mirrors_fault_from(a: Seq<RecoveryAccount>, nonces: Seq<(String, u64)>, i: int) -> Option<
    &'static str,
>
    decreases a.len() - i,
{
    if i < 0 || i >= a.len() {
        None
    } else {
        match mirror_fault(a[i], nonces) {
            Some(m) => Some(m),
            None => mirrors_fault_from(a, nonces, i + 1),
        }
    }
}

/// What checking the native nonce mirrors gives: a structurally valid book,
/// and for every account a known network, an address that decodes to its
/// stable ID, and a native nonce equal to its spending nonce.
pub open spec fn mirrors_check(book: RecoveryBook, nonces: Seq<(String, u64)>) -> Result<(), &'static str> {
    if !book.structurally_valid {
        Err("Recovery book is structurally invalid")
    } else {
        match mirrors_fault_from(book.accounts@, nonces, 0) {
            Some(m) => Err(m),
            None => Ok(()),
        }
    }
}

pub(crate) fn nonce_lookup(nonces: &Vec<(String, u64)>, address: &str) -> (r: Option<u64>)
    ensures
        r == nonce_of(nonces@, address@, 0),
{
    let mut i: usize = 0;
    while i < nonces.len()
        invariant
            i <= nonces@.len(),
            nonce_of(nonces@, address@, 0) == nonce_of(nonces@, address@, i as int),
        decreases nonces@.len() - i,
    {
        if str_eq(nonces[i].0.as_str(), address) {
            return Some(nonces[i].1);
        }
        i = i + 1;
    }
    None
}

fn check_mirror(a: &RecoveryAccount, nonces: &Vec<(String, u64)>) -> (r: Option<&'static str>)
    ensures
        r == mirror_fault(*a, nonces@),
{
    if a.domain.network < 1 || a.domain.network > 3 {
        return Some("Unknown ordinary account network");
    }
    match &a.address_id {
        None => Some("Ordinary account address does not decode"),
        Some(id) => {
            if !digest_eq(id, &a.domain.account_id) {
                Some("Ordinary account address mapping differs from stable ID")
            } else {
                match nonce_lookup(nonces, a.address.as_str()) {
                    Some(n) => if n == a.spending_nonce {
                        None
                    } else {
                        Some("Ordinary native nonce mirror missing or unequal")
                    },
                    None => Some("Ordinary native nonce mirror missing or unequal"),
                }
            }
        },
    }
}

/// Check the native nonce mirrors, keyed by native address, against the
/// recovery book. A mirror is never synthesized or repaired.
pub fn validate_nonce_mirrors(book: &RecoveryBook, native_nonces: &Vec<(String, u64)>) -> (r: Result<
    (),
    &'static str,
>)
    ensures
        r == mirrors_check(*book, native_nonces@),
{
    if !book.structurally_valid {
        return Err("Recovery book is structurally invalid");
    }
    let mut i: usize = 0;
    while i < book.accounts.len()
        invariant
            i <= book.accounts@.len(),
            book.structurally_valid,
            mirrors_fault_from(book.accounts@, native_nonces@, 0) == mirrors_fault_from(
                book.accounts@,
                native_nonces@,
                i as int,
            ),
        decreases book.accounts@.len() - i,
    {
        match check_mirror(&book.accounts[i], native_nonces) {
            Some(m) => return Err(m),
            None => {},
        }
        i = i + 1;
    }
    Ok(())
}

/// What a successful preparation yields: the actor, its generation, the
/// nonce before and after, and the prepared actions.
pub struct PreparedAuthority {
    pub actor: [u8; 32],
    pub generation: u64,
    pub before: u64,
    pub after: u64,
    pub prepared: Prepared,
}

pub open spec fn empty_prepared(grants: Seq<DiscretionaryGrant>) -> Prepared {
    Prepared { grants, owners: Seq::empty(), requirements: Seq::empty(), deferred: Seq::empty() }
}

/// Current-authority preparation of a body, in the order the checks are
/// made. With `defer`, a claim's maturity is recorded rather than checked.
pub open spec fn prepare_spec(
    book: RecoveryBook,
    nonces: Seq<(String, u64)>,
    grants: Seq<DiscretionaryGrant>,
    height: u64,
    body: OrdinaryBody,
    limits: AuthorityLimits,
    defer: bool,
) -> Result<PreparedAuthority, &'static str> {
    let ai = book_index(book.accounts@, body.domain.account_id@, 0);
    let actor = book.accounts@[ai];
    let id = body.domain.account_id;
    if !limits.limits_valid {
        Err("Ordinary limits are invalid")
    } else if !limits.body_encodes {
        Err("Ordinary body does not encode within limits")
    } else if mirrors_check(book, nonces) is Err {
        Err(mirrors_check(book, nonces)->Err_0)
    } else if grants_check(book, grants) is Err {
        Err(grants_check(book, grants)->Err_0)
    } else if book.last_height != height {
        Err("Ordinary authority requires current block-start recovery state")
    } else if ai < 0 {
        Err(unregistered())
    } else if domain_view(actor.domain) != domain_view(body.domain) {
        Err("Ordinary signed domain differs from account state")
    } else if identity_view(actor.active_key) != identity_view(body.key) || actor.active_generation
        != body.authorization_generation {
        Err("Ordinary key or generation is stale")
    } else if actor.spending_nonce != body.spending_nonce {
        Err("Ordinary spending nonce is stale")
    } else if body.spending_nonce == u64::MAX {
        Err("Ordinary spending nonce exhausted")
    } else if !(height < body.expiry_height && body.expiry_height - height <= limits.max_expiry_lifetime) {
        Err("Ordinary submission expired or exceeds configured lifetime")
    } else if !actor.outgoing_allowed {
        Err("Protected account cannot authorize a discretionary action or debit")
    } else {
        match actions_fold(book, id, actor.active_generation, height, defer, empty_prepared(grants), body.actions@) {
            Err(m) => Err(m),
            Ok(p) => match grants_check(book, p.grants) {
                Err(m) => Err(m),
                Ok(()) => Ok(
                    PreparedAuthority {
                        actor: id,
                        generation: actor.active_generation,
                        before: body.spending_nonce,
                        after: (body.spending_nonce + 1) as u64,
                        prepared: p,
                    },
                ),
            },
        }
    }
}

/// Whether an assessment carries exactly what a preparation yielded.
pub open spec fn assessment_is(a: AuthorityAssessment, m: PreparedAuthority) -> bool {
    &&& a.actor == m.actor
    &&& a.fee_payer == m.actor
    &&& owners_view(a.action_owners@) == m.prepared.owners
    &&& a.prospective_nonce.actor == m.actor
    &&& a.prospective_nonce.generation == m.generation
    &&& a.prospective_nonce.before == m.before
    &&& a.prospective_nonce.after == m.after
    &&& a.prospective_grants@ == m.prepared.grants
    &&& a.registry_requirements@ == m.prepared.requirements
    &&& a.deferred_claims@ == m.prepared.deferred
}

/// Whether `r` is what the preparation `m` gives, with these identifiers.
pub open spec fn assessed(
    r: Result<AuthorityAssessment, &'static str>,
    m: Result<PreparedAuthority, &'static str>,
    transaction_id: [u8; 32],
    envelope_hash: [u8; 32],
) -> bool {
    match m {
        Ok(p) => r is Ok && assessment_is(r->Ok_0, p) && r->Ok_0.transaction_id == transaction_id
            && r->Ok_0.envelope_hash == envelope_hash,
        Err(e) => r is Err && r->Err_0 == e,
    }
}

pub proof fn lemma_fold_error_sticks(
    book: RecoveryBook,
    actor: [u8; 32],
    generation: u64,
    height: u64,
    defer: bool,
    p: Prepared,
    s: Seq<Action>,
    k: int,
    n: int,
)
    requires
        0 <= k <= n <= s.len(),
        actions_fold(book, actor, generation, height, defer, p, s.take(k)) is Err,
    ensures
        actions_fold(book, actor, generation, height, defer, p, s.take(n)) == actions_fold(
            book,
            actor,
            generation,
            height,
            defer,
            p,
            s.take(k),
        ),
    decreases n - k,
{
    if n > k {
        lemma_fold_error_sticks(book, actor, generation, height, defer, p, s, k, n - 1);
        assert(s.take(n).drop_last() =~= s.take(n - 1));
    }
}

fn copy_grants(g: &Vec<DiscretionaryGrant>) -> (r: Vec<DiscretionaryGrant>)
    ensures
        r@ == g@,
{
    let mut r: Vec<DiscretionaryGrant> = Vec::new();
    let mut i: usize = 0;
    while i < g.len()
        invariant
            i <= g@.len(),
            r@ == g@.take(i as int),
        decreases g@.len() - i,
    {
        r.push(g[i]);
        i = i + 1;
        assert(r@ =~= g@.take(i as int));
    }
    assert(g@.take(g@.len() as int) =~= g@);
    r
}

pub(crate) fn domain_eq(a: &RecoveryDomain, b: &RecoveryDomain) -> (r: bool)
    ensures
        r == (domain_view(*a) == domain_view(*b)),
{
    a.network == b.network && str_eq(a.chain_id.as_str(), b.chain_id.as_str()) && digest_eq(&a.genesis_digest, &b.genesis_digest)
        && digest_eq(&a.account_id, &b.account_id)
}

pub(crate) fn identity_eq(a: &KeyIdentity, b: &KeyIdentity) -> (r: bool)
    ensures
        r == (identity_view(*a) == identity_view(*b)),
{
    str_eq(a.algorithm.as_str(), b.algorithm.as_str()) && bytes_equal(a.public_key.as_slice(), b.public_key.as_slice())
}

fn run_actions(
    book: &RecoveryBook,
    actor: [u8; 32],
    generation: u64,
    height: u64,
    defer: bool,
    grants: &Vec<DiscretionaryGrant>,
    actions: &Vec<Action>,
) -> (r: Result<PrepState, &'static str>)
    ensures
        match actions_fold(*book, actor, generation, height, defer, empty_prepared(grants@), actions@) {
            Ok(q) => r is Ok && r->Ok_0@ == q,
            Err(m) => r is Err && r->Err_0 == m,
        },
{
    let mut state = PrepState {
        grants: copy_grants(grants),
        owners: Vec::new(),
        requirements: Vec::new(),
        deferred: Vec::new(),
    };
    let ghost p0 = empty_prepared(grants@);
    proof {
        assert(owners_view(state.owners@) =~= Seq::empty());
        assert(state@ == p0);
        assert(actions@.take(0) =~= Seq::<Action>::empty());
    }
    let mut i: usize = 0;
    while i < actions.len()
        invariant
            i <= actions@.len(),
            p0 == empty_prepared(grants@),
            actions_fold(*book, actor, generation, height, defer, p0, actions@.take(i as int)) == Ok::<
                Prepared,
                &'static str,
            >(state@),
        decreases actions@.len() - i,
    {
        let ghost before = state@;
        let stepped = state.apply(book, actor, generation, height, defer, i, &actions[i]);
        proof {
            assert(actions@.take(i + 1).drop_last() =~= actions@.take(i as int));
        }
        match stepped {
            Err(m) => {
                proof {
                    lemma_fold_error_sticks(
                        *book,
                        actor,
                        generation,
                        height,
                        defer,
                        p0,
                        actions@,
                        i + 1,
                        actions@.len() as int,
                    );
                    assert(actions@.take(actions@.len() as int) =~= actions@);
                }
                return Err(m);
            },
            Ok(()) => {},
        }
        i = i + 1;
    }
    proof {
        assert(actions@.take(actions@.len() as int) =~= actions@);
    }
    Ok(state)
}

/// Current-authority preparation of a body. With `defer_maturity`, a claim's
/// inactivity maturity moves to a check after fee acceptance; ownership,
/// generation and protection stay strict.
fn prepare_body_phase(
    book: &RecoveryBook,
    native_nonces: &Vec<(String, u64)>,
    grants: &Vec<DiscretionaryGrant>,
    height: u64,
    body: &OrdinaryBody,
    limits: &AuthorityLimits,
    defer_maturity: bool,
    transaction_id: [u8; 32],
    envelope_hash: [u8; 32],
) -> (r: Result<AuthorityAssessment, &'static str>)
    ensures
        assessed(
            r,
            prepare_spec(*book, native_nonces@, grants@, height, *body, *limits, defer_maturity),
            transaction_id,
            envelope_hash,
        ),
{
    if !limits.limits_valid {
        return Err("Ordinary limits are invalid");
    }
    if !limits.body_encodes {
        return Err("Ordinary body does not encode within limits");
    }
    match validate_nonce_mirrors(book, native_nonces) {
        Err(m) => return Err(m),
        Ok(()) => {},
    }
    match validate_grants(book, grants) {
        Err(m) => return Err(m),
        Ok(()) => {},
    }
    if book.last_height != height {
        return Err("Ordinary authority requires current block-start recovery state");
    }
    let ai = match find_account(book, &body.domain.account_id) {
        Some(ai) => ai,
        None => return Err("Unregistered ordinary account reference"),
    };
    let actor = &book.accounts[ai];
    if !domain_eq(&actor.domain, &body.domain) {
        return Err("Ordinary signed domain differs from account state");
    }
    if !identity_eq(&actor.active_key, &body.key) || actor.active_generation != body.authorization_generation {
        return Err("Ordinary key or generation is stale");
    }
    if actor.spending_nonce != body.spending_nonce {
        return Err("Ordinary spending nonce is stale");
    }
    let next_nonce = match body.spending_nonce.checked_add(1) {
        Some(n) => n,
        None => return Err("Ordinary spending nonce exhausted"),
    };
    if !(height < body.expiry_height && body.expiry_height - height <= limits.max_expiry_lifetime) {
        return Err("Ordinary submission expired or exceeds configured lifetime");
    }
    if !actor.outgoing_allowed {
        return Err("Protected account cannot authorize a discretionary action or debit");
    }
    let actor_id = body.domain.account_id;
    let generation = actor.active_generation;
    let state = match run_actions(book, actor_id, generation, height, defer_maturity, grants, &body.actions) {
        Ok(s) => s,
        Err(m) => return Err(m),
    };
    match validate_grants(book, &state.grants) {
        Err(m) => return Err(m),
        Ok(()) => {},
    }
    let PrepState { grants: staged, owners, requirements, deferred } = state;
    Ok(
        AuthorityAssessment {
            transaction_id,
            envelope_hash,
            actor: actor_id,
            fee_payer: actor_id,
            action_owners: owners,
            prospective_nonce: NoncePreparation {
                actor: actor_id,
                generation,
                before: body.spending_nonce,
                after: next_nonce,
            },
            prospective_grants: staged,
            registry_requirements: requirements,
            deferred_claims: deferred,
        },
    )
}

/// Assess a body whose signature was verified, with the identifiers the
/// verification gave. Every claim must already be mature.
pub fn check_verified(
    book: &RecoveryBook,
    native_nonces: &Vec<(String, u64)>,
    grants: &Vec<DiscretionaryGrant>,
    height: u64,
    body: &OrdinaryBody,
    limits: &AuthorityLimits,
    transaction_id: [u8; 32],
    envelope_hash: [u8; 32],
) -> (r: Result<AuthorityAssessment, &'static str>)
    ensures
        assessed(r, prepare_spec(*book, native_nonces@, grants@, height, *body, *limits, false), transaction_id, envelope_hash),
{
    prepare_body_phase(book, native_nonces, grants, height, body, limits, false, transaction_id, envelope_hash)
}

/// Assess a verified body before fee acceptance: a claim's inactivity
/// maturity is recorded as a check after acceptance.
pub fn check_verified_preacceptance(
    book: &RecoveryBook,
    native_nonces: &Vec<(String, u64)>,
    grants: &Vec<DiscretionaryGrant>,
    height: u64,
    body: &OrdinaryBody,
    limits: &AuthorityLimits,
    transaction_id: [u8; 32],
    envelope_hash: [u8; 32],
) -> (r: Result<AuthorityAssessment, &'static str>)
    ensures
        assessed(r, prepare_spec(*book, native_nonces@, grants@, height, *body, *limits, true), transaction_id, envelope_hash),
{
    prepare_body_phase(book, native_nonces, grants, height, body, limits, true, transaction_id, envelope_hash)
}

/// Whether every recorded claim has matured by `height`.
pub open spec fn all_mature(d: Seq<(u16, u64)>, height: u64) -> bool {
    forall|i: int| 0 <= i < d.len() ==> #[trigger] d[i].1 <= height
}

pub open spec fn without_deferred(p: Prepared) -> Prepared {
    Prepared { deferred: Seq::empty(), ..p }
}

proof fn lemma_step_extends_deferred(
    book: RecoveryBook,
    actor: [u8; 32],
    generation: u64,
    height: u64,
    q: Prepared,
    idx: int,
    a: Action,
)
    ensures
        action_step(book, actor, generation, height, true, q, idx, a) is Ok ==> {
            let d = action_step(book, actor, generation, height, true, q, idx, a)->Ok_0.deferred;
            d.len() >= q.deferred.len() && d.subrange(0, q.deferred.len() as int) == q.deferred
        },
{
    let t = action_step(book, actor, generation, height, true, q, idx, a);
    if t is Ok {
        let d = t->Ok_0.deferred;
        if d.len() > q.deferred.len() {
            assert(d.subrange(0, q.deferred.len() as int) =~= q.deferred);
        } else {
            assert(d.subrange(0, q.deferred.len() as int) =~= q.deferred);
        }
    }
}

proof fn lemma_step_defer(
    book: RecoveryBook,
    actor: [u8; 32],
    generation: u64,
    height: u64,
    q: Prepared,
    idx: int,
    a: Action,
)
    requires
        all_mature(q.deferred, height),
    ensures
        ({
            let f = action_step(book, actor, generation, height, false, without_deferred(q), idx, a);
            let t = action_step(book, actor, generation, height, true, q, idx, a);
            &&& (f is Ok) == (t is Ok && all_mature(t->Ok_0.deferred, height))
            &&& f is Ok ==> f->Ok_0 == without_deferred(t->Ok_0)
        }),
{
    let f = action_step(book, actor, generation, height, false, without_deferred(q), idx, a);
    let t = action_step(book, actor, generation, height, true, q, idx, a);
    match a {
        Action::DmsClaim { owner, expected_grant_generation } => {
            if t is Ok {
                let d = t->Ok_0.deferred;
                assert(d.len() == q.deferred.len() + 1);
                assert(d.drop_last() =~= q.deferred);
                if all_mature(d, height) {
                    assert(d[d.len() - 1].1 <= height);
                } else {
                    let i = choose|i: int| 0 <= i < d.len() && !(#[trigger] d[i].1 <= height);
                    assert(i == d.len() - 1);
                }
            }
            if f is Ok {
                assert(f->Ok_0 =~= without_deferred(t->Ok_0));
            }
        },
        _ => {
            if t is Ok {
                assert(t->Ok_0.deferred == q.deferred);
                assert(f->Ok_0 =~= without_deferred(t->Ok_0));
            }
        },
    }
}

proof fn lemma_fold_defer(
    book: RecoveryBook,
    actor: [u8; 32],
    generation: u64,
    height: u64,
    p0: Prepared,
    s: Seq<Action>,
)
    requires
        p0.deferred.len() == 0,
    ensures
        ({
            let f = actions_fold(book, actor, generation, height, false, p0, s);
            let t = actions_fold(book, actor, generation, height, true, p0, s);
            &&& (f is Ok) == (t is Ok && all_mature(t->Ok_0.deferred, height))
            &&& f is Ok ==> f->Ok_0 == without_deferred(t->Ok_0)
        }),
    decreases s.len(),
{
    if s.len() == 0 {
        assert(p0.deferred =~= Seq::<(u16, u64)>::empty());
    } else {
        let s1 = s.drop_last();
        lemma_fold_defer(book, actor, generation, height, p0, s1);
        let f1 = actions_fold(book, actor, generation, height, false, p0, s1);
        let t1 = actions_fold(book, actor, generation, height, true, p0, s1);
        if t1 is Ok {
            let q = t1->Ok_0;
            lemma_step_extends_deferred(book, actor, generation, height, q, s.len() - 1, s.last());
            if all_mature(q.deferred, height) {
                lemma_step_defer(book, actor, generation, height, q, s.len() - 1, s.last());
            } else {
                let t = action_step(book, actor, generation, height, true, q, s.len() - 1, s.last());
                if t is Ok {
                    let i = choose|i: int| 0 <= i < q.deferred.len() && !(#[trigger] q.deferred[i].1 <= height);
                    let d = t->Ok_0.deferred;
                    assert(d.subrange(0, q.deferred.len() as int)[i] == d[i]);
                    assert(!(d[i].1 <= height));
                }
            }
        }
    }
}

/// Deferring maturity moves only the maturity check: a transaction prepares
/// strictly exactly when it prepares with deferral and every recorded claim
/// has matured by the height, and then both preparations agree on
/// everything but the recorded claims, of which the strict one has none.
pub proof fn law_deferral_moves_only_maturity(
    book: RecoveryBook,
    nonces: Seq<(String, u64)>,
    grants: Seq<DiscretionaryGrant>,
    height: u64,
    body: OrdinaryBody,
    limits: AuthorityLimits,
)
    ensures
        ({
            let strict = prepare_spec(book, nonces, grants, height, body, limits, false);
            let deferred = prepare_spec(book, nonces, grants, height, body, limits, true);
            &&& (strict is Ok) == (deferred is Ok && all_mature(deferred->Ok_0.prepared.deferred, height))
            &&& strict is Ok ==> strict->Ok_0 == (PreparedAuthority {
                prepared: without_deferred(deferred->Ok_0.prepared),
                ..deferred->Ok_0
            })
        }),
{
    let ai = book_index(book.accounts@, body.domain.account_id@, 0);
    let actor = book.accounts@[ai];
    lemma_fold_defer(
        book,
        body.domain.account_id,
        actor.active_generation,
        height,
        empty_prepared(grants),
        body.actions@,
    );
}

/// Whether an action's amounts and terms are the kind authority accepts:
/// transfers and every bond or unbond move a positive amount, and a grant
/// registration names another account with a positive period.
pub open spec fn acceptable_terms(a: Action, actor: [u8; 32]) -> bool {
    match a {
        Action::Send { amount, .. } => amount > 0,
        Action::RewardBond { amount_udgt, .. } => amount_udgt > 0,
        Action::RewardBeginUnbond { amount_udgt, .. } => amount_udgt > 0,
        Action::ValidatorRegister { amount_udgt, .. } => amount_udgt > 0,
        Action::DmsRegister { beneficiary, period_blocks } => period_blocks > 0 && beneficiary@ != actor@,
        _ => true,
    }
}

proof fn lemma_fold_terms(
    book: RecoveryBook,
    actor: [u8; 32],
    generation: u64,
    height: u64,
    defer: bool,
    p: Prepared,
    s: Seq<Action>,
)
    ensures
        actions_fold(book, actor, generation, height, defer, p, s) is Ok ==> forall|i: int|
            0 <= i < s.len() ==> acceptable_terms(#[trigger] s[i], actor),
    decreases s.len(),
{
    if s.len() > 0 {
        let prev = s.drop_last();
        lemma_fold_terms(book, actor, generation, height, defer, p, prev);
        if actions_fold(book, actor, generation, height, defer, p, s) is Ok {
            assert forall|i: int| 0 <= i < s.len() implies acceptable_terms(#[trigger] s[i], actor) by {
                if i < prev.len() {
                    assert(s[i] == prev[i]);
                }
            }
        }
    }
}

/// Authority never prepares a zero-amount or self-directed action: in every
/// prepared body, each transfer, stake bond, stake unbond and validator bond
/// moves a positive amount, and each grant registration names another
/// account with a positive period.
pub proof fn law_prepared_actions_have_acceptable_terms(
    book: RecoveryBook,
    nonces: Seq<(String, u64)>,
    grants: Seq<DiscretionaryGrant>,
    height: u64,
    body: OrdinaryBody,
    limits: AuthorityLimits,
    defer: bool,
)
    ensures
        prepare_spec(book, nonces, grants, height, body, limits, defer) is Ok ==> forall|i: int|
            0 <= i < body.actions@.len() ==> acceptable_terms(#[trigger] body.actions@[i], body.domain.account_id),
{
    let ai = book_index(book.accounts@, body.domain.account_id@, 0);
    lemma_fold_terms(
        book,
        body.domain.account_id,
        book.accounts@[ai].active_generation,
        height,
        defer,
        empty_prepared(grants),
        body.actions@,
    );
}

/// Authority is prepared only for the current, registered signer: in every
/// prepared authority the book is at the block's height, the nonce mirrors
/// and grants agree with it, the request has not expired and lies within the
/// configured lifetime, and the account registered under the signed ID holds
/// the signed domain, key, generation and spending nonce and is unprotected;
/// the nonce advances by one.
pub proof fn law_prepared_authority_is_current(
    book: RecoveryBook,
    nonces: Seq<(String, u64)>,
    grants: Seq<DiscretionaryGrant>,
    height: u64,
    body: OrdinaryBody,
    limits: AuthorityLimits,
    defer: bool,
)
    ensures
        prepare_spec(book, nonces, grants, height, body, limits, defer) matches Ok(pa) ==> {
            &&& book.last_height == height
            &&& mirrors_check(book, nonces) is Ok && grants_check(book, grants) is Ok
            &&& height < body.expiry_height && body.expiry_height - height <= limits.max_expiry_lifetime
            &&& pa.actor == body.domain.account_id
            &&& pa.before == body.spending_nonce && pa.after == body.spending_nonce + 1
            &&& exists|i: int|
                0 <= i < book.accounts@.len() && (#[trigger] book.accounts@[i]).domain.account_id@
                    == body.domain.account_id@ && domain_view(book.accounts@[i].domain) == domain_view(body.domain)
                    && identity_view(book.accounts@[i].active_key) == identity_view(body.key)
                    && book.accounts@[i].active_generation == body.authorization_generation
                    && book.accounts@[i].spending_nonce == body.spending_nonce && book.accounts@[i].outgoing_allowed
                    && pa.generation == book.accounts@[i].active_generation
        },
{
    lemma_book_index_range(book.accounts@, body.domain.account_id@, 0);
    lemma_book_index_found(book.accounts@, body.domain.account_id@, 0);
    let ai = book_index(book.accounts@, body.domain.account_id@, 0);
    if prepare_spec(book, nonces, grants, height, body, limits, defer) is Ok {
        assert(book.accounts@[ai].domain.account_id@ == body.domain.account_id@);
    }
}

} // verus!
