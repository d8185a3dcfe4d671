//! The receipt reconciliation of ordinary execution: a retained receipt must
//! match, account by account, the reservation, action and fee transitions
//! the runtime made. Only the fee payer's uDRT and nonce may move outside
//! the actions; a failed transaction keeps the reservation checkpoint.
use vstd::prelude::*;
use crate::ordinary_authority::{book_index, RecoveryBook};
use crate::ordinary_fee_settlement::{FeeReceipt, Outcome, PlanError};
use crate::ordinary_logical::{balance_in, AccountState};
use crate::text::str_eq;

verus! {

pub open spec fn udrt() -> Seq<char> {
    seq!['u', 'd', 'r', 't']
}

/// The first account recorded for `address`.
pub open spec fn account_of(m: Seq<(String, AccountState)>, address: Seq<char>, i: int) -> Option<AccountState>
    decreases m.len() - i,
{
    if i < 0 || i >= m.len() {
        None
    } else if m[i].0@ == address {
        Some(m[i].1)
    } else {
        account_of(m, address, i + 1)
    }
}

/// Whether `a` holds `u` uDRT and what `b` holds in every other
/// denomination.
pub open spec fn agrees_except_udrt(a: AccountState, b: AccountState, u: u128) -> bool {
    &&& balance_in(a.balances@, udrt(), 0) == u
    &&& forall|d: Seq<char>| d != udrt() ==> #[trigger] balance_in(a.balances@, d, 0) == balance_in(b.balances@, d, 0)
}

/// Whether two accounts hold the same balance in every denomination.
pub open spec fn same_balances(a: AccountState, b: AccountState) -> bool {
    forall|d: Seq<char>| #[trigger] balance_in(a.balances@, d, 0) == balance_in(b.balances@, d, 0)
}

/// The transitions one registered account must show, or why it does not.
pub open spec fn account_fault(
    address: Seq<char>,
    actor: Seq<char>,
    before: Seq<(String, AccountState)>,
    reserved: Seq<(String, AccountState)>,
    applied: Seq<(String, AccountState)>,
    after: Seq<(String, AccountState)>,
    receipt: FeeReceipt,
) -> Option<&'static str> {
    let is_actor = address == actor;
    let cap = receipt.reserved_cap;
    let released = receipt.released_cap;
    if account_of(before, address, 0) is None {
        Some("Ordinary before account missing")
    } else if account_of(reserved, address, 0) is None {
        Some("Ordinary reserved account missing")
    } else if account_of(applied, address, 0) is None {
        Some("Ordinary action account missing")
    } else if account_of(after, address, 0) is None {
        Some("Ordinary final account missing")
    } else {
        let initial = account_of(before, address, 0)->0;
        let held = account_of(reserved, address, 0)->0;
        let acted = account_of(applied, address, 0)->0;
        let last = account_of(after, address, 0)->0;
        let initial_udrt = balance_in(initial.balances@, udrt(), 0);
        let acted_udrt = balance_in(acted.balances@, udrt(), 0);
        if is_actor && initial_udrt < cap {
            Some("Ordinary cap reservation exceeds balance")
        } else if held.nonce != initial.nonce || !agrees_except_udrt(
            held,
            initial,
            if is_actor {
                (initial_udrt - cap) as u128
            } else {
                initial_udrt
            },
        ) || acted.nonce != initial.nonce || (receipt.outcome != Outcome::Success && (!same_balances(acted, held)
            || acted.nonce != held.nonce)) {
            Some("Ordinary receipt reservation or rollback differs from account delta")
        } else if is_actor && acted_udrt + released > u128::MAX {
            Some("Ordinary cap release exceeds balance range")
        } else if is_actor && initial.nonce != receipt.nonce_before {
            Some("Ordinary receipt nonce predecessor differs")
        } else {
            let expected_nonce = if is_actor {
                receipt.nonce_after
            } else {
                initial.nonce
            };
            if !agrees_except_udrt(
                last,
                acted,
                if is_actor {
                    (acted_udrt + released) as u128
                } else {
                    acted_udrt
                },
            ) || last.nonce != expected_nonce || (is_actor && initial.nonce + 1 != expected_nonce) {
                Some("Ordinary receipt final account delta differs")
            } else {
                None
            }
        }
    }
}

/// The first registered account from the `i`-th on whose transitions differ.
pub open spec fn accounts_fault(
    book: RecoveryBook,
    actor: Seq<char>,
    before: Seq<(String, AccountState)>,
    reserved: Seq<(String, AccountState)>,
    applied: Seq<(String, AccountState)>,
    after: Seq<(String, AccountState)>,
    receipt: FeeReceipt,
    i: int,
) -> Option<&'static str>
    decreases book.accounts@.len() - i,
{
    if i < 0 || i >= book.accounts@.len() {
        None
    } else {
        match account_fault(book.accounts@[i].address@, actor, before, reserved, applied, after, receipt) {
            Some(m) => Some(m),
            None => accounts_fault(book, actor, before, reserved, applied, after, receipt, i + 1),
        }
    }
}

/// The fee custody totals before the transaction, at the reservation
/// checkpoint, at the action checkpoint and after it.
#[derive(Clone, Copy, Debug, PartialEq, Eq)]
pub struct FeeTotals {
    pub before: u128,
    pub reserved: u128,
    pub applied: u128,
    pub after: u128,
}

/// What reconciling a receipt with the account checkpoints gives.
pub open spec fn reconcile_spec(
    before: Seq<(String, AccountState)>,
    reserved: Seq<(String, AccountState)>,
    applied: Seq<(String, AccountState)>,
    after: Seq<(String, AccountState)>,
    totals: FeeTotals,
    book: RecoveryBook,
    receipt: FeeReceipt,
) -> Result<(), PlanError> {
    let ai = book_index(book.accounts@, receipt.actor@, 0);
    if ai < 0 {
        Err(PlanError::Internal("Receipt actor has no registered account"))
    } else if receipt.charge > receipt.reserved_cap {
        Err(PlanError::Internal("Receipt charge exceeds cap"))
    } else if receipt.released_cap != receipt.reserved_cap - receipt.charge || totals.before != totals.reserved
        || totals.before != totals.applied || totals.before + receipt.charge != totals.after {
        Err(PlanError::Internal("Ordinary receipt fee custody differs from transaction delta"))
    } else {
        match accounts_fault(book, book.accounts@[ai].address@, before, reserved, applied, after, receipt, 0) {
            Some(m) => Err(PlanError::Internal(m)),
            None => Ok(()),
        }
    }
}

fn find_account_state(m: &Vec<(String, AccountState)>, address: &str) -> (r: Option<usize>)
    ensures
        match r {
            Some(i) => i < m@.len() && account_of(m@, address@, 0) == Some(m@[i as int].1),
            None => account_of(m@, address@, 0) is None,
        },
{
    let mut i: usize = 0;
    while i < m.len()
        invariant
            i <= m@.len(),
            account_of(m@, address@, 0) == account_of(m@, address@, i as int),
        decreases m@.len() - i,
    {
        if str_eq(m[i].0.as_str(), address) {
            return Some(i);
        }
        i = i + 1;
    }
    None
}

proof fn lemma_absent_is_zero(b: Seq<(String, u128)>, d: Seq<char>, i: int)
    requires
        0 <= i,
        forall|j: int| i <= j < b.len() ==> (#[trigger] b[j]).0@ != d,
    ensures
        balance_in(b, d, i) == 0,
    decreases b.len() - i,
{
    if i < b.len() {
        lemma_absent_is_zero(b, d, i + 1);
    }
}

/// Whether, for every denomination listed in `a` other than the excepted
/// one, `a` and `b` hold the same balance.
fn listed_agree(a: &AccountState, b: &AccountState, except_udrt: bool) -> (r: bool)
    ensures
        r == forall|j: int|
            0 <= j < a.balances@.len() && !(except_udrt && (#[trigger] a.balances@[j]).0@ == udrt()) ==> balance_in(
                a.balances@,
                a.balances@[j].0@,
                0,
            ) == balance_in(b.balances@, a.balances@[j].0@, 0),
{
    let mut i: usize = 0;
    while i < a.balances.len()
        invariant
            i <= a.balances@.len(),
            forall|j: int|
                0 <= j < i && !(except_udrt && (#[trigger] a.balances@[j]).0@ == udrt()) ==> balance_in(
                    a.balances@,
                    a.balances@[j].0@,
                    0,
                ) == balance_in(b.balances@, a.balances@[j].0@, 0),
        decreases a.balances@.len() - i,
    {
        let d = a.balances[i].0.as_str();
        let skip = except_udrt && str_eq(d, "udrt");
        proof {
            reveal_strlit("udrt");
            assert("udrt"@ =~= udrt());
        }
        if !skip && a.balance_of(d) != b.balance_of(d) {
            return false;
        }
        i = i + 1;
    }
    true
}

/// Whether `a` holds `u` uDRT and what `b` holds in every other
/// denomination.
fn check_agrees_except_udrt(a: &AccountState, b: &AccountState, u: u128) -> (r: bool)
    ensures
        r == agrees_except_udrt(*a, *b, u),
{
    proof {
        reveal_strlit("udrt");
        assert("udrt"@ =~= udrt());
    }
    if a.balance_of("udrt") != u {
        return false;
    }
    let ab = listed_agree(a, b, true);
    let ba = listed_agree(b, a, true);
    proof {
        if ab && ba {
            assert forall|d: Seq<char>| d != udrt() implies #[trigger] balance_in(a.balances@, d, 0) == balance_in(
                b.balances@,
                d,
                0,
            ) by {
                if exists|j: int| 0 <= j < a.balances@.len() && (#[trigger] a.balances@[j]).0@ == d {
                    let j = choose|j: int| 0 <= j < a.balances@.len() && (#[trigger] a.balances@[j]).0@ == d;
                } else if exists|j: int| 0 <= j < b.balances@.len() && (#[trigger] b.balances@[j]).0@ == d {
                    let j = choose|j: int| 0 <= j < b.balances@.len() && (#[trigger] b.balances@[j]).0@ == d;
                } else {
                    lemma_absent_is_zero(a.balances@, d, 0);
                    lemma_absent_is_zero(b.balances@, d, 0);
                }
            }
        } else if !ab {
            let j = choose|j: int|
                0 <= j < a.balances@.len() && !(true && (#[trigger] a.balances@[j]).0@ == udrt()) && !(balance_in(
                    a.balances@,
                    a.balances@[j].0@,
                    0,
                ) == balance_in(b.balances@, a.balances@[j].0@, 0));
            assert(a.balances@[j].0@ != udrt());
        } else {
            let j = choose|j: int|
                0 <= j < b.balances@.len() && !(true && (#[trigger] b.balances@[j]).0@ == udrt()) && !(balance_in(
                    b.balances@,
                    b.balances@[j].0@,
                    0,
                ) == balance_in(a.balances@, b.balances@[j].0@, 0));
            assert(b.balances@[j].0@ != udrt());
        }
    }
    ab && ba
}

/// Whether two accounts hold the same balance in every denomination.
fn check_same_balances(a: &AccountState, b: &AccountState) -> (r: bool)
    ensures
        r == same_balances(*a, *b),
{
    let ab = listed_agree(a, b, false);
    let ba = listed_agree(b, a, false);
    proof {
        if ab && ba {
            assert forall|d: Seq<char>| #[trigger] balance_in(a.balances@, d, 0) == balance_in(b.balances@, d, 0) by {
                if exists|j: int| 0 <= j < a.balances@.len() && (#[trigger] a.balances@[j]).0@ == d {
                    let j = choose|j: int| 0 <= j < a.balances@.len() && (#[trigger] a.balances@[j]).0@ == d;
                } else if exists|j: int| 0 <= j < b.balances@.len() && (#[trigger] b.balances@[j]).0@ == d {
                    let j = choose|j: int| 0 <= j < b.balances@.len() && (#[trigger] b.balances@[j]).0@ == d;
                } else {
                    lemma_absent_is_zero(a.balances@, d, 0);
                    lemma_absent_is_zero(b.balances@, d, 0);
                }
            }
        } else if !ab {
            let j = choose|j: int|
                0 <= j < a.balances@.len() && !(false && (#[trigger] a.balances@[j]).0@ == udrt()) && !(balance_in(
                    a.balances@,
                    a.balances@[j].0@,
                    0,
                ) == balance_in(b.balances@, a.balances@[j].0@, 0));
            assert(!same_balances(*a, *b) || balance_in(a.balances@, a.balances@[j].0@, 0) == balance_in(b.balances@, a.balances@[j].0@, 0));
        } else {
            let j = choose|j: int|
                0 <= j < b.balances@.len() && !(false && (#[trigger] b.balances@[j]).0@ == udrt()) && !(balance_in(
                    b.balances@,
                    b.balances@[j].0@,
                    0,
                ) == balance_in(a.balances@, b.balances@[j].0@, 0));
            assert(!same_balances(*a, *b) || balance_in(a.balances@, b.balances@[j].0@, 0) == balance_in(b.balances@, b.balances@[j].0@, 0));
        }
    }
    ab && ba
}

fn check_account(
    address: &str,
    actor: &str,
    before: &Vec<(String, AccountState)>,
    reserved: &Vec<(String, AccountState)>,
    applied: &Vec<(String, AccountState)>,
    after: &Vec<(String, AccountState)>,
    receipt: &FeeReceipt,
) -> (r: Option<&'static str>)
    ensures
        r == account_fault(address@, actor@, before@, reserved@, applied@, after@, *receipt),
{
    let ib = match find_account_state(before, address) {
        Some(i) => i,
        None => return Some("Ordinary before account missing"),
    };
    let ir = match find_account_state(reserved, address) {
        Some(i) => i,
        None => return Some("Ordinary reserved account missing"),
    };
    let ia = match find_account_state(applied, address) {
        Some(i) => i,
        None => return Some("Ordinary action account missing"),
    };
    let ifin = match find_account_state(after, address) {
        Some(i) => i,
        None => return Some("Ordinary final account missing"),
    };
    let initial = &before[ib].1;
    let held = &reserved[ir].1;
    let acted = &applied[ia].1;
    let last = &after[ifin].1;
    let is_actor = str_eq(address, actor);
    proof {
        reveal_strlit("udrt");
        assert("udrt"@ =~= udrt());
    }
    let initial_udrt = initial.balance_of("udrt");
    let acted_udrt = acted.balance_of("udrt");
    let cap = receipt.reserved_cap;
    let released = receipt.released_cap;
    if is_actor && initial_udrt < cap {
        return Some("Ordinary cap reservation exceeds balance");
    }
    let expected_held = if is_actor { initial_udrt - cap } else { initial_udrt };
    let failed = match receipt.outcome {
        Outcome::Success => false,
        _ => true,
    };
    if held.nonce != initial.nonce || !check_agrees_except_udrt(held, initial, expected_held) || acted.nonce
        != initial.nonce || (failed && (!check_same_balances(acted, held) || acted.nonce != held.nonce)) {
        return Some("Ordinary receipt reservation or rollback differs from account delta");
    }
    let expected_final = if is_actor {
        match acted_udrt.checked_add(released) {
            Some(v) => v,
            None => return Some("Ordinary cap release exceeds balance range"),
        }
    } else {
        acted_udrt
    };
    if is_actor && initial.nonce != receipt.nonce_before {
        return Some("Ordinary receipt nonce predecessor differs");
    }
    let expected_nonce = if is_actor { receipt.nonce_after } else { initial.nonce };
    let next_ok = match initial.nonce.checked_add(1) {
        Some(n) => n == expected_nonce,
        None => false,
    };
    if !check_agrees_except_udrt(last, acted, expected_final) || last.nonce != expected_nonce || (is_actor && !next_ok) {
        return Some("Ordinary receipt final account delta differs");
    }
    None
}

/// Check the ordered reservation, action and fee transitions of one
/// receipt against the account checkpoints: the action checkpoint is kept
/// only for a successful transaction, and a paid failure keeps the
/// reservation checkpoint before its fee is applied.
#[verifier::loop_isolation(false)]
pub fn reconcile_receipt(
    before: &Vec<(String, AccountState)>,
    reserved: &Vec<(String, AccountState)>,
    applied: &Vec<(String, AccountState)>,
    after: &Vec<(String, AccountState)>,
    totals: FeeTotals,
    book: &RecoveryBook,
    receipt: &FeeReceipt,
) -> (r: Result<(), PlanError>)
    ensures
        r == reconcile_spec(before@, reserved@, applied@, after@, totals, *book, *receipt),
{
    let ai = match crate::ordinary_authority::find_account(book, &receipt.actor) {
        Some(i) => i,
        None => return Err(PlanError::Internal("Receipt actor has no registered account")),
    };
    let actor = book.accounts[ai].address.as_str();
    if receipt.charge > receipt.reserved_cap {
        return Err(PlanError::Internal("Receipt charge exceeds cap"));
    }
    let custody_moved = match totals.before.checked_add(receipt.charge) {
        Some(t) => t == totals.after,
        None => false,
    };
    if receipt.released_cap != receipt.reserved_cap - receipt.charge || totals.before != totals.reserved
        || totals.before != totals.applied || !custody_moved {
        return Err(PlanError::Internal("Ordinary receipt fee custody differs from transaction delta"));
    }
    let mut i: usize = 0;
    while i < book.accounts.len()
        invariant
            i <= book.accounts@.len(),
            accounts_fault(*book, actor@, before@, reserved@, applied@, after@, *receipt, 0) == accounts_fault(
                *book,
                actor@,
                before@,
                reserved@,
                applied@,
                after@,
                *receipt,
                i as int,
            ),
        decreases book.accounts@.len() - i,
    {
        match check_account(book.accounts[i].address.as_str(), actor, before, reserved, applied, after, receipt) {
            Some(m) => return Err(PlanError::Internal(m)),
            None => {},
        }
        i = i + 1;
    }
    Ok(())
}

proof fn lemma_no_fault_from(
    book: RecoveryBook,
    actor: Seq<char>,
    before: Seq<(String, AccountState)>,
    reserved: Seq<(String, AccountState)>,
    applied: Seq<(String, AccountState)>,
    after: Seq<(String, AccountState)>,
    receipt: FeeReceipt,
    i: int,
    k: int,
)
    requires
        0 <= i <= k < book.accounts@.len(),
        accounts_fault(book, actor, before, reserved, applied, after, receipt, i) is None,
    ensures
        account_fault(book.accounts@[k].address@, actor, before, reserved, applied, after, receipt) is None,
    decreases k - i,
{
    if i < k {
        lemma_no_fault_from(book, actor, before, reserved, applied, after, receipt, i + 1, k);
    }
}

/// A paid failure moves nothing but the fee and the nonce: once its receipt
/// reconciles, every registered account ends as it began, except that the
/// fee payer has paid the charge in uDRT and its nonce has advanced by one.
pub proof fn law_paid_failure_moves_only_fee_and_nonce(
    before: Seq<(String, AccountState)>,
    reserved: Seq<(String, AccountState)>,
    applied: Seq<(String, AccountState)>,
    after: Seq<(String, AccountState)>,
    totals: FeeTotals,
    book: RecoveryBook,
    receipt: FeeReceipt,
    k: int,
)
    requires
        reconcile_spec(before, reserved, applied, after, totals, book, receipt) is Ok,
        receipt.outcome != Outcome::Success,
        0 <= k < book.accounts@.len(),
    ensures
        ({
            let address = book.accounts@[k].address@;
            let actor = book.accounts@[book_index(book.accounts@, receipt.actor@, 0)].address@;
            let initial = account_of(before, address, 0);
            let last = account_of(after, address, 0);
            &&& initial is Some && last is Some
            &&& address == actor ==> {
                &&& balance_in(last->0.balances@, udrt(), 0) + receipt.charge == balance_in(initial->0.balances@, udrt(), 0)
                &&& forall|d: Seq<char>| d != udrt() ==> #[trigger] balance_in(last->0.balances@, d, 0) == balance_in(
                    initial->0.balances@,
                    d,
                    0,
                )
                &&& last->0.nonce == initial->0.nonce + 1
            }
            &&& address != actor ==> same_balances(last->0, initial->0) && last->0.nonce == initial->0.nonce
        }),
{
    let ai = book_index(book.accounts@, receipt.actor@, 0);
    let actor = book.accounts@[ai].address@;
    lemma_no_fault_from(book, actor, before, reserved, applied, after, receipt, 0, k);
    let address = book.accounts@[k].address@;
    let initial = account_of(before, address, 0)->0;
    let held = account_of(reserved, address, 0)->0;
    let acted = account_of(applied, address, 0)->0;
    let last = account_of(after, address, 0)->0;
    assert forall|d: Seq<char>| d != udrt() implies #[trigger] balance_in(last.balances@, d, 0) == balance_in(
        initial.balances@,
        d,
        0,
    ) by {
        assert(balance_in(last.balances@, d, 0) == balance_in(acted.balances@, d, 0));
        assert(balance_in(acted.balances@, d, 0) == balance_in(held.balances@, d, 0));
        assert(balance_in(held.balances@, d, 0) == balance_in(initial.balances@, d, 0));
    }
    assert(balance_in(acted.balances@, udrt(), 0) == balance_in(held.balances@, udrt(), 0));
    if address != actor {
        assert forall|d: Seq<char>| #[trigger] balance_in(last.balances@, d, 0) == balance_in(initial.balances@, d, 0) by {
            if d != udrt() {
                assert(balance_in(last.balances@, d, 0) == balance_in(acted.balances@, d, 0));
                assert(balance_in(held.balances@, d, 0) == balance_in(initial.balances@, d, 0));
            }
        }
    }
}

} // verus!
