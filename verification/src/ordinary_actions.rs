//! The effect of one ordinary action at execution: the grant it registers,
//! refreshes or claims, and the native transfers it makes, by address. The
//! transfers are applied to the settlement by the caller, which debits and
//! credits each balance; reward claims and validator actions are applied by
//! their own modules.
use vstd::prelude::*;
use crate::ordinary_authority::{book_index, find_account, find_grant, grant_index, upsert_grant, Action, Denomination, RecoveryAccount, RecoveryBook};
use crate::ordinary_logical::DiscretionaryGrant;
use crate::text::str_eq;

verus! {

/// A native transfer, by address.
#[derive(Clone, Debug, PartialEq, Eq)]
pub struct Transfer {
    pub from: String,
    pub to: String,
    pub denomination: Denomination,
    pub amount: u128,
}

/// Why an action could not apply: a rule, by class and code, or an internal
/// fault.
#[derive(Clone, Copy, Debug, PartialEq, Eq)]
pub enum ActionFault {
    Rule(&'static str, &'static str),
    Internal(&'static str),
}

/// What an applied action leaves for the caller: transfers to make, or an
/// action that its module applies.
#[derive(Clone, Debug, PartialEq, Eq)]
pub enum ActionEffect {
    Transfers(Vec<Transfer>),
    Module,
}

/// A claimed owner's uDGT and uDRT: what the account holds now, and what the
/// claims of this transaction may still take.
#[derive(Clone, Copy, Debug, PartialEq, Eq)]
pub struct ClaimFunds {
    pub held_udgt: u128,
    pub held_udrt: u128,
    pub remaining_udgt: u128,
    pub remaining_udrt: u128,
}

/// A transfer by its texts.
pub type TransferView = (Seq<char>, Seq<char>, Denomination, u128);

pub open spec fn transfer_view(t: Transfer) -> TransferView {
    (t.from@, t.to@, t.denomination, t.amount)
}

pub open spec fn transfers_view(t: Seq<Transfer>) -> Seq<TransferView> {
    t.map_values(|x: Transfer| transfer_view(x))
}

/// The first account at or after `i` whose address is `a`, or -1.
pub open spec fn address_index(accounts: Seq<RecoveryAccount>, a: Seq<char>, i: int) -> int
    decreases accounts.len() - i,
{
    if i < 0 || i >= accounts.len() {
        -1
    } else if accounts[i].address@ == a {
        i
    } else {
        address_index(accounts, a, i + 1)
    }
}

/// A transfer unless it moves funds to their own account.
pub open spec fn moved(from: Seq<char>, to: Seq<char>, d: Denomination, amount: u128) -> Seq<TransferView> {
    if from == to {
        Seq::empty()
    } else {
        seq![(from, to, d, amount)]
    }
}

pub open spec fn min_u128(a: u128, b: u128) -> u128 {
    if a < b {
        a
    } else {
        b
    }
}

/// What applying an action gives: the grants afterwards, the transfers (or
/// `None` for an action its module applies) and the claim funds left, or
/// the fault.
pub open spec fn action_spec(
    a: Action,
    book: RecoveryBook,
    actor: Seq<char>,
    generation: u64,
    height: u64,
    grants: Seq<DiscretionaryGrant>,
    funds: ClaimFunds,
) -> Result<(Seq<DiscretionaryGrant>, Option<Seq<TransferView>>, ClaimFunds), ActionFault> {
    let ai = address_index(book.accounts@, actor, 0);
    if ai < 0 {
        Err(ActionFault::Internal("Actor missing"))
    } else {
        let actor_id = book.accounts@[ai].domain.account_id;
        match a {
            Action::Send { recipient, denomination, amount } => {
                let ri = book_index(book.accounts@, recipient@, 0);
                if ri < 0 {
                    Err(ActionFault::Internal("Unregistered ordinary account"))
                } else {
                    Ok((grants, Some(moved(actor, book.accounts@[ri].address@, denomination, amount)), funds))
                }
            },
            Action::Data => Ok((grants, Some(Seq::empty()), funds)),
            Action::DmsRegister { beneficiary, period_blocks } => Ok(
                (
                    upsert_grant(
                        grants,
                        DiscretionaryGrant {
                            version: 1,
                            owner: actor_id,
                            beneficiary,
                            owner_generation: generation,
                            period_blocks,
                            last_active_height: height,
                        },
                    ),
                    Some(Seq::empty()),
                    funds,
                ),
            ),
            Action::DmsPing => {
                let gi = grant_index(grants, actor_id@, 0);
                if gi < 0 {
                    Err(ActionFault::Internal("Grant disappeared"))
                } else {
                    Ok(
                        (
                            grants.update(gi, DiscretionaryGrant { last_active_height: height, ..grants[gi] }),
                            Some(Seq::empty()),
                            funds,
                        ),
                    )
                }
            },
            Action::DmsClaim { owner, expected_grant_generation } => {
                let gi = grant_index(grants, owner@, 0);
                let oi = book_index(book.accounts@, owner@, 0);
                if gi < 0 {
                    Err(ActionFault::Internal("Grant disappeared"))
                } else if grants[gi].last_active_height + grants[gi].period_blocks > u64::MAX {
                    Err(ActionFault::Internal("Grant deadline overflow"))
                } else if height < grants[gi].last_active_height + grants[gi].period_blocks {
                    Err(ActionFault::Rule("ACTION_STATE_PRECONDITION", "DMS_INACTIVITY_DELAY"))
                } else if oi < 0 {
                    Err(ActionFault::Internal("Unregistered ordinary account"))
                } else {
                    let from = book.accounts@[oi].address@;
                    let dgt = min_u128(funds.held_udgt, funds.remaining_udgt);
                    let drt = min_u128(funds.held_udrt, funds.remaining_udrt);
                    Ok(
                        (
                            grants,
                            Some(moved(from, actor, Denomination::Udgt, dgt) + moved(from, actor, Denomination::Udrt, drt)),
                            ClaimFunds {
                                remaining_udgt: (funds.remaining_udgt - dgt) as u128,
                                remaining_udrt: (funds.remaining_udrt - drt) as u128,
                                ..funds
                            },
                        ),
                    )
                }
            },
            _ => Ok((grants, None, funds)),
        }
    }
}

fn find_address(book: &RecoveryBook, actor: &str) -> (r: Option<usize>)
    ensures
        match r {
            Some(i) => address_index(book.accounts@, actor@, 0) == i && i < book.accounts@.len(),
            None => address_index(book.accounts@, actor@, 0) == -1,
        },
{
    let mut i: usize = 0;
    while i < book.accounts.len()
        invariant
            i <= book.accounts@.len(),
            address_index(book.accounts@, actor@, 0) == address_index(book.accounts@, actor@, i as int),
        decreases book.accounts@.len() - i,
    {
        if str_eq(book.accounts[i].address.as_str(), actor) {
            return Some(i);
        }
        i = i + 1;
    }
    None
}

fn push_moved(out: &mut Vec<Transfer>, from: &String, to: &str, denomination: Denomination, amount: u128)
    ensures
        transfers_view(final(out)@) == transfers_view(old(out)@) + moved(from@, to@, denomination, amount),
{
    let ghost before = out@;
    if !str_eq(from.as_str(), to) {
        out.push(Transfer { from: from.clone(), to: to.to_string(), denomination, amount });
        proof {
            assert(transfers_view(out@) =~= transfers_view(before) + moved(from@, to@, denomination, amount));
        }
    } else {
        assert(transfers_view(out@) =~= transfers_view(before) + moved(from@, to@, denomination, amount));
    }
}

/// Apply one action of a fee-accepted transaction signed by the account at
/// `actor`, under the key generation `generation`, at `height`: register,
/// refresh or claim a grant, and list the transfers to make. A claim takes,
/// of each native denomination, the smaller of what the owner holds and
/// what the transaction's claims may still take.
pub fn apply_action(
    a: &Action,
    book: &RecoveryBook,
    actor: &str,
    generation: u64,
    height: u64,
    grants: &mut Vec<DiscretionaryGrant>,
    funds: &mut ClaimFunds,
) -> (r: Result<ActionEffect, ActionFault>)
    ensures
        match action_spec(*a, *book, actor@, generation, height, old(grants)@, *old(funds)) {
            Err(e) => r == Err::<ActionEffect, ActionFault>(e) && final(grants)@ == old(grants)@ && *final(funds)
                == *old(funds),
            Ok((g, t, f)) => final(grants)@ == g && *final(funds) == f && match (r, t) {
                (Ok(ActionEffect::Transfers(v)), Some(tv)) => transfers_view(v@) == tv,
                (Ok(ActionEffect::Module), None) => true,
                _ => false,
            },
        },
{
    let ai = match find_address(book, actor) {
        None => return Err(ActionFault::Internal("Actor missing")),
        Some(i) => i,
    };
    let actor_id = book.accounts[ai].domain.account_id;
    let mut out: Vec<Transfer> = Vec::new();
    assert(transfers_view(out@) =~= Seq::<TransferView>::empty());
    match a {
        Action::Send { recipient, denomination, amount } => {
            let ri = match find_account(book, recipient) {
                None => return Err(ActionFault::Internal("Unregistered ordinary account")),
                Some(i) => i,
            };
            let to = &book.accounts[ri].address;
            let from = actor.to_string();
            push_moved(&mut out, &from, to.as_str(), *denomination, *amount);
            Ok(ActionEffect::Transfers(out))
        },
        Action::Data => Ok(ActionEffect::Transfers(out)),
        Action::DmsRegister { beneficiary, period_blocks } => {
            let grant = DiscretionaryGrant {
                version: 1,
                owner: actor_id,
                beneficiary: *beneficiary,
                owner_generation: generation,
                period_blocks: *period_blocks,
                last_active_height: height,
            };
            match find_grant(grants, &actor_id) {
                Some(i) => {
                    grants.set(i, grant);
                },
                None => {
                    grants.push(grant);
                },
            }
            Ok(ActionEffect::Transfers(out))
        },
        Action::DmsPing => {
            match find_grant(grants, &actor_id) {
                None => Err(ActionFault::Internal("Grant disappeared")),
                Some(i) => {
                    let g = DiscretionaryGrant { last_active_height: height, ..grants[i] };
                    grants.set(i, g);
                    Ok(ActionEffect::Transfers(out))
                },
            }
        },
        Action::DmsClaim { owner, expected_grant_generation: _ } => {
            let gi = match find_grant(grants, owner) {
                None => return Err(ActionFault::Internal("Grant disappeared")),
                Some(i) => i,
            };
            let deadline = match grants[gi].last_active_height.checked_add(grants[gi].period_blocks) {
                None => return Err(ActionFault::Internal("Grant deadline overflow")),
                Some(d) => d,
            };
            if height < deadline {
                return Err(ActionFault::Rule("ACTION_STATE_PRECONDITION", "DMS_INACTIVITY_DELAY"));
            }
            let oi = match find_account(book, owner) {
                None => return Err(ActionFault::Internal("Unregistered ordinary account")),
                Some(i) => i,
            };
            let from = &book.accounts[oi].address;
            let dgt = if funds.held_udgt < funds.remaining_udgt {
                funds.held_udgt
            } else {
                funds.remaining_udgt
            };
            let drt = if funds.held_udrt < funds.remaining_udrt {
                funds.held_udrt
            } else {
                funds.remaining_udrt
            };
            push_moved(&mut out, from, actor, Denomination::Udgt, dgt);
            push_moved(&mut out, from, actor, Denomination::Udrt, drt);
            funds.remaining_udgt = funds.remaining_udgt - dgt;
            funds.remaining_udrt = funds.remaining_udrt - drt;
            Ok(ActionEffect::Transfers(out))
        },
        _ => Ok(ActionEffect::Module),
    }
}

/// What a claim moves of a denomination from its owner to the actor.
pub open spec fn moved_amount(t: Seq<TransferView>, d: Denomination) -> int
    decreases t.len(),
{
    if t.len() == 0 {
        0
    } else {
        moved_amount(t.drop_last(), d) + if t.last().2 == d {
            t.last().3 as int
        } else {
            0
        }
    }
}

/// A claim never takes more than its owner holds or than the transaction's
/// claims may still take: of each native denomination the owner gives the
/// actor at most the smaller of the two, what the claims may take falls by
/// exactly the amount claimed, and the owner's grant is left in place.
pub proof fn law_claim_is_bounded_by_holdings_and_claims(
    owner: [u8; 32],
    generation: u64,
    book: RecoveryBook,
    actor: Seq<char>,
    action_generation: u64,
    height: u64,
    grants: Seq<DiscretionaryGrant>,
    funds: ClaimFunds,
)
    ensures
        action_spec(
            Action::DmsClaim { owner, expected_grant_generation: generation },
            book,
            actor,
            action_generation,
            height,
            grants,
            funds,
        ) matches Ok((g, Some(t), f)) ==> {
            &&& g == grants
            &&& moved_amount(t, Denomination::Udgt) <= min_u128(funds.held_udgt, funds.remaining_udgt)
            &&& moved_amount(t, Denomination::Udrt) <= min_u128(funds.held_udrt, funds.remaining_udrt)
            &&& f.remaining_udgt == funds.remaining_udgt - min_u128(funds.held_udgt, funds.remaining_udgt)
            &&& f.remaining_udrt == funds.remaining_udrt - min_u128(funds.held_udrt, funds.remaining_udrt)
            &&& f.held_udgt == funds.held_udgt && f.held_udrt == funds.held_udrt
            &&& forall|i: int| 0 <= i < t.len() ==> (#[trigger] t[i]).1 == actor && t[i].0 != actor
        },
{
    let r = action_spec(
        Action::DmsClaim { owner, expected_grant_generation: generation },
        book,
        actor,
        action_generation,
        height,
        grants,
        funds,
    );
    if let Ok((g, Some(t), f)) = r {
        let oi = book_index(book.accounts@, owner@, 0);
        let from = book.accounts@[oi].address@;
        let dgt = min_u128(funds.held_udgt, funds.remaining_udgt);
        let drt = min_u128(funds.held_udrt, funds.remaining_udrt);
        let a = moved(from, actor, Denomination::Udgt, dgt);
        let b = moved(from, actor, Denomination::Udrt, drt);
        lemma_moved_amount_concat(a, b, Denomination::Udgt);
        lemma_moved_amount_concat(a, b, Denomination::Udrt);
        lemma_moved_single(from, actor, Denomination::Udgt, dgt);
        lemma_moved_single(from, actor, Denomination::Udrt, drt);
    }
}

proof fn lemma_moved_single(from: Seq<char>, to: Seq<char>, d: Denomination, x: u128)
    ensures
        moved_amount(moved(from, to, d, x), d) <= x,
        moved_amount(moved(from, to, d, x), other(d)) == 0,
        forall|i: int| 0 <= i < moved(from, to, d, x).len() ==> (#[trigger] moved(from, to, d, x)[i]).1 == to
            && moved(from, to, d, x)[i].0 != to,
{
    let m = moved(from, to, d, x);
    let e = Seq::<TransferView>::empty();
    assert(moved_amount(e, d) == 0 && moved_amount(e, other(d)) == 0);
    assert(other(d) != d);
    if m.len() > 0 {
        assert(m.drop_last() =~= e);
        assert(m.last() == (from, to, d, x));
    } else {
        assert(m =~= e);
    }
}

/// The other native denomination.
pub open spec fn other(d: Denomination) -> Denomination {
    match d {
        Denomination::Udgt => Denomination::Udrt,
        Denomination::Udrt => Denomination::Udgt,
    }
}

proof fn lemma_moved_amount_concat(a: Seq<TransferView>, b: Seq<TransferView>, d: Denomination)
    ensures
        moved_amount(a + b, d) == moved_amount(a, d) + moved_amount(b, d),
    decreases b.len(),
{
    if b.len() == 0 {
        assert(a + b =~= a);
    } else {
        lemma_moved_amount_concat(a, b.drop_last(), d);
        assert((a + b).drop_last() =~= a + b.drop_last());
    }
}

} // verus!
