//! The staged state an ordinary fee plan reads, assembled from the staged
//! recovery book, the native nonce mirrors, the discretionary grants and
//! the financial snapshot. The authority checks and the reservation request
//! are made here; the snapshot's own figures arrive as the snapshot holds
//! them.
use vstd::prelude::*;
use crate::block_meter::digest_eq;
use crate::ordinary_authority::{
    grants_check, mirrors_check, prepare_spec, check_verified_preacceptance, validate_grants, validate_nonce_mirrors,
    AuthorityLimits, OrdinaryBody, RecoveryAccount, RecoveryBook,
};
use crate::ordinary_fee_settlement::{BookAccount, PlanningState, Preacceptance};
use crate::ordinary_logical::DiscretionaryGrant;
use crate::ordinary_reservation::{
    debits_upto, request_spec, reservation_request, ActionDebit, AssetBalance, ReservationId, ReservationRequest,
    RequestInput,
};

verus! {

/// The financial snapshot's figures: its sizes, the payer's uDRT balance and
/// eligible uDRT, the custody total, each asset's required total against its
/// eligible liquidity (or the calculator's refusal), and its digest.
pub struct FinancialSnapshot {
    pub balance_entries: usize,
    pub eligible_entries: usize,
    pub eligible_consistent: bool,
    pub payer_balance: u128,
    pub payer_eligible: u128,
    pub withheld_udrt: u128,
    pub requirements: Result<Vec<(u128, u128)>, &'static str>,
    pub snapshot_digest: [u8; 32],
}

/// The book's accounts by stable ID with their spending nonces.
pub open spec fn book_accounts(a: Seq<RecoveryAccount>) -> Seq<BookAccount> {
    a.map_values(|x: RecoveryAccount| BookAccount { id: x.domain.account_id, spending_nonce: x.spending_nonce })
}

pub open spec fn id_view(i: ReservationId) -> (bool, Seq<u8>, Seq<u8>) {
    match i {
        ReservationId::Ordinary(t) => (false, t@, Seq::empty()),
        ReservationId::OrdinaryV3 { transaction_id, profile_digest } => (true, transaction_id@, profile_digest@),
    }
}

/// A request's fields, with every byte array by its bytes.
pub open spec fn request_view(q: ReservationRequest) -> (
    Seq<u8>,
    (bool, Seq<u8>, Seq<u8>),
    Seq<u8>,
    (u64, u128, u64, u64),
    Seq<ActionDebit>,
    Seq<ActionDebit>,
) {
    (q.context_digest@, id_view(q.id), q.payer@, (q.nonce, q.fee_cap_udrt, q.wire_bytes, q.signature_work), q.action_debits@, q.unrestricted_debits@)
}

/// Whether `request` is the request derived from the authenticated intent,
/// the profile's digest and the current balances.
pub open spec fn request_derived(
    request: ReservationRequest,
    intent: RequestInput,
    context_digest: [u8; 32],
    balances: Seq<AssetBalance>,
) -> bool {
    match request_spec(intent) {
        Err(_) => false,
        Ok((wire, work)) => request_view(request) == (
            context_digest@,
            (false, intent.transaction_id@, Seq::<u8>::empty()),
            intent.actor@,
            (intent.spending_nonce, intent.maximum_fee, wire, work),
            debits_upto(intent.actor, intent.actions@, balances, true, intent.actions@.len() as int),
            debits_upto(intent.actor, intent.actions@, balances, false, intent.actions@.len() as int),
        ),
    }
}

/// What the preacceptance assessment of the staged book gives a plan.
pub open spec fn preacceptance_of(
    book: RecoveryBook,
    nonces: Seq<(String, u64)>,
    grants: Seq<DiscretionaryGrant>,
    height: u64,
    body: OrdinaryBody,
    limits: AuthorityLimits,
    r: Result<Preacceptance, &'static str>,
) -> bool {
    match prepare_spec(book, nonces, grants, height, body, limits, true) {
        Err(m) => r == Err::<Preacceptance, &'static str>(m),
        Ok(p) => r matches Ok(pre) && pre.registry_requirements == p.prepared.requirements.len()
            && pre.deferred_claims@ == p.prepared.deferred && pre.nonce_after == p.after,
    }
}

fn id_eq(a: &ReservationId, b: &ReservationId) -> (r: bool)
    ensures
        r == (id_view(*a) == id_view(*b)),
{
    match (a, b) {
        (ReservationId::Ordinary(x), ReservationId::Ordinary(y)) => digest_eq(x, y),
        (
            ReservationId::OrdinaryV3 { transaction_id: x, profile_digest: p },
            ReservationId::OrdinaryV3 { transaction_id: y, profile_digest: q },
        ) => digest_eq(x, y) && digest_eq(p, q),
        (ReservationId::Ordinary(x), _) => {
            assert(id_view(*a).0 != id_view(*b).0);
            false
        },
        _ => {
            assert(id_view(*a).0 != id_view(*b).0);
            false
        },
    }
}

fn debit_eq(a: &ActionDebit, b: &ActionDebit) -> (r: bool)
    ensures
        r == (*a == *b),
{
    let same = digest_eq(&a.owner, &b.owner) && a.denomination == b.denomination && a.amount == b.amount && a.kind
        == b.kind;
    proof {
        if a.owner@ == b.owner@ {
            assert(a.owner =~= b.owner);
        }
    }
    same
}

fn debits_eq(a: &Vec<ActionDebit>, b: &Vec<ActionDebit>) -> (r: bool)
    ensures
        r == (a@ == b@),
{
    if a.len() != b.len() {
        return false;
    }
    let mut i: usize = 0;
    while i < a.len()
        invariant
            i <= a@.len(),
            a@.len() == b@.len(),
            forall|j: int| 0 <= j < i ==> a@[j] == b@[j],
        decreases a@.len() - i,
    {
        if !debit_eq(&a[i], &b[i]) {
            return false;
        }
        i = i + 1;
    }
    assert(a@ =~= b@);
    true
}

/// Whether two requests carry the same fields.
pub fn requests_equal(a: &ReservationRequest, b: &ReservationRequest) -> (r: bool)
    ensures
        r == (request_view(*a) == request_view(*b)),
{
    digest_eq(&a.context_digest, &b.context_digest) && id_eq(&a.id, &b.id) && digest_eq(&a.payer, &b.payer) && a.nonce
        == b.nonce && a.fee_cap_udrt == b.fee_cap_udrt && a.wire_bytes == b.wire_bytes && a.signature_work
        == b.signature_work && debits_eq(&a.action_debits, &b.action_debits) && debits_eq(
        &a.unrestricted_debits,
        &b.unrestricted_debits,
    )
}

fn accounts_of(book: &RecoveryBook) -> (r: Vec<BookAccount>)
    ensures
        r@ == book_accounts(book.accounts@),
{
    let mut r: Vec<BookAccount> = Vec::new();
    let mut i: usize = 0;
    while i < book.accounts.len()
        invariant
            i <= book.accounts@.len(),
            r@ == book_accounts(book.accounts@.take(i as int)),
        decreases book.accounts@.len() - i,
    {
        let a = &book.accounts[i];
        r.push(BookAccount { id: a.domain.account_id, spending_nonce: a.spending_nonce });
        proof {
            assert(book.accounts@.take(i + 1) =~= book.accounts@.take(i as int).push(book.accounts@[i as int]));
            assert(book_accounts(book.accounts@.take(i + 1)) =~= book_accounts(book.accounts@.take(i as int)).push(
                BookAccount { id: a.domain.account_id, spending_nonce: a.spending_nonce },
            ));
        }
        i = i + 1;
    }
    assert(book.accounts@.take(book.accounts@.len() as int) =~= book.accounts@);
    r
}

/// Assemble the staged state of a plan: the book's height and accounts,
/// whether the nonce mirrors and the grants agree with the book, the
/// preacceptance assessment of the signed body, and whether the reservation
/// request is the one derived from the authenticated intent and the current
/// balances. A request that cannot be derived matches nothing.
pub fn planning_state(
    book: &RecoveryBook,
    native_nonces: &Vec<(String, u64)>,
    grants: &Vec<DiscretionaryGrant>,
    height: u64,
    body: &OrdinaryBody,
    limits: &AuthorityLimits,
    transaction_id: [u8; 32],
    envelope_hash: [u8; 32],
    intent: &RequestInput,
    context_digest: [u8; 32],
    balances: &Vec<AssetBalance>,
    request: &ReservationRequest,
    snapshot: FinancialSnapshot,
) -> (r: PlanningState)
    requires
        intent.actions@.len() < u64::MAX,
        match (intent.signing_len, intent.signature_size) {
            (Ok(b), Ok(s)) => intent.wire_prefix_len + 2 + 4 + b + 4 + s <= usize::MAX,
            _ => true,
        },
    ensures
        r.book_height == book.last_height,
        r.accounts@ == book_accounts(book.accounts@),
        r.mirrors_valid == (mirrors_check(*book, native_nonces@) is Ok),
        r.grants_valid == (grants_check(*book, grants@) is Ok),
        r.nonce_entries == native_nonces@.len(),
        preacceptance_of(*book, native_nonces@, grants@, height, *body, *limits, r.preacceptance),
        r.request_matches == request_derived(*request, *intent, context_digest, balances@),
        r.balance_entries == snapshot.balance_entries,
        r.eligible_entries == snapshot.eligible_entries,
        r.eligible_consistent == snapshot.eligible_consistent,
        r.payer_balance == snapshot.payer_balance,
        r.payer_eligible == snapshot.payer_eligible,
        r.withheld_udrt == snapshot.withheld_udrt,
        r.requirements == snapshot.requirements,
        r.snapshot_digest == snapshot.snapshot_digest,
{
    let mirrors_valid = validate_nonce_mirrors(book, native_nonces).is_ok();
    let grants_valid = validate_grants(book, grants).is_ok();
    let preacceptance = match check_verified_preacceptance(
        book,
        native_nonces,
        grants,
        height,
        body,
        limits,
        transaction_id,
        envelope_hash,
    ) {
        Err(m) => Err(m),
        Ok(a) => Ok(
            Preacceptance {
                registry_requirements: a.registry_requirements.len(),
                deferred_claims: a.deferred_claims,
                nonce_after: a.prospective_nonce.after,
            },
        ),
    };
    let request_matches = match reservation_request(intent, context_digest, balances) {
        Err(_) => false,
        Ok(derived) => requests_equal(&derived, request),
    };
    let FinancialSnapshot {
        balance_entries,
        eligible_entries,
        eligible_consistent,
        payer_balance,
        payer_eligible,
        withheld_udrt,
        requirements,
        snapshot_digest,
    } = snapshot;
    PlanningState {
        book_height: book.last_height,
        accounts: accounts_of(book),
        mirrors_valid,
        grants_valid,
        balance_entries,
        eligible_entries,
        nonce_entries: native_nonces.len(),
        eligible_consistent,
        payer_balance,
        payer_eligible,
        withheld_udrt,
        request_matches,
        requirements,
        preacceptance,
        snapshot_digest,
    }
}

} // verus!
