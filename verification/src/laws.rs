//! The laws the engine obeys, proved once and for all over `post_spec`.
//!
//! `Store::post_transaction` realizes `post_spec` exactly (that is its
//! contract), so each statement here holds of every executable run.

use vstd::prelude::*;
use crate::engine::{movement_records, post_spec, sat64, PostTransactionV};
use crate::errors::LedgerErrorV;
use crate::money::Money;
use crate::records::{Direction, LedgerEntry, TxKind};
use crate::resolver::{
    lemma_resolve_accounting, lemma_resolve_total_nonneg, lemma_unknown_code_fails, requested_of,
    resolve_spec, total_of,
};
use crate::store::{find_account, lemma_find_account, lemma_find_account_same_ids, wf_v, StoreV};

verus! {

/// Every Credit that commits raises the balance by exactly the credited
/// amount, appends exactly one ledger entry recording it, and touches no
/// item, line-item or inventory-movement record.
pub proof fn lemma_credit(s: StoreV, account_id: u64, req: PostTransactionV, now: u64)
    requires
        wf_v(s),
        req.wf(),
        req.kind == TxKind::Credit,
        post_spec(s, account_id, req, now).1 is Ok,
    ensures
        ({
            let out = post_spec(s, account_id, req, now);
            let ai = find_account(s.accounts, account_id);
            &&& 0 <= ai < s.accounts.len()
            &&& out.1->Ok_0.balance@ == s.accounts[ai].balance@ + req.amount
            &&& out.0.accounts[ai].balance@ == s.accounts[ai].balance@ + req.amount
            &&& out.0.items == s.items
            &&& out.0.movements == s.movements
            &&& out.0.line_items == s.line_items
            &&& out.0.ledger == s.ledger.push(
                LedgerEntry {
                    id: s.next_id,
                    account_id: s.accounts[ai].id,
                    doc: s.accounts[ai].doc,
                    kind: TxKind::Credit,
                    amount: Money { cents: req.amount as u64 },
                    created_at: now,
                },
            )
        }),
{
    lemma_find_account(s.accounts, account_id);
}

/// Every Withdrawal that commits charges exactly the resolved total,
/// which is the sum over the resolved lines of unit price times
/// requested quantity, and that total never exceeds the old balance:
/// the new balance is the old balance minus the total.
pub proof fn lemma_withdrawal_balance(s: StoreV, account_id: u64, req: PostTransactionV, now: u64)
    requires
        wf_v(s),
        req.kind == TxKind::Withdrawal,
        post_spec(s, account_id, req, now).1 is Ok,
    ensures
        ({
            let out = post_spec(s, account_id, req, now);
            let ai = find_account(s.accounts, account_id);
            let res = resolve_spec(s.items, req.items->0)->Ok_0;
            &&& 0 <= ai < s.accounts.len()
            &&& resolve_spec(s.items, req.items->0) is Ok
            &&& res.total == total_of(res.lines)
            &&& forall|j: int|
                #![trigger res.lines[j]]
                0 <= j < res.lines.len() ==> res.lines[j].cost == res.lines[j].price * res.lines[
                    j
                ].quantity
            &&& s.accounts[ai].balance@ >= res.total
            &&& out.1->Ok_0.amount@ == res.total
            &&& out.1->Ok_0.balance@ == s.accounts[ai].balance@ - res.total
            &&& out.0.accounts[ai].balance@ == s.accounts[ai].balance@ - res.total
        }),
{
    lemma_find_account(s.accounts, account_id);
    lemma_resolve_accounting(s.items, req.items->0);
    lemma_resolve_total_nonneg(s.items, req.items->0);
}

/// Every Withdrawal that commits decrements each referenced item's
/// stock by exactly the total quantity requested of it, and appends a
/// `Remove` inventory movement with that line's quantity for every
/// resolved line. Items the request does not reference are unchanged,
/// since their requested total is zero.
pub proof fn lemma_withdrawal_inventory(s: StoreV, account_id: u64, req: PostTransactionV, now: u64)
    requires
        wf_v(s),
        req.kind == TxKind::Withdrawal,
        post_spec(s, account_id, req, now).1 is Ok,
    ensures
        ({
            let out = post_spec(s, account_id, req, now);
            let res = resolve_spec(s.items, req.items->0)->Ok_0;
            &&& resolve_spec(s.items, req.items->0) is Ok
            &&& out.0.items.len() == s.items.len()
            &&& forall|i: int|
                #![trigger out.0.items[i]]
                0 <= i < s.items.len() ==> out.0.items[i].id == s.items[i].id
                    && out.0.items[i].upc == s.items[i].upc && out.0.items[i].quantity == s.items[
                    i
                ].quantity - requested_of(res.lines, s.items[i].id)
            &&& out.0.movements == s.movements + movement_records(res.lines, s.next_id)
            &&& forall|j: int|
                0 <= j < res.lines.len() ==> #[trigger] movement_records(res.lines, s.next_id)[j]
                    == crate::records::InventoryMovement {
                    id: (s.next_id + 2 + 2 * j) as u64,
                    item_id: res.lines[j].item_id,
                    quantity: res.lines[j].quantity,
                    direction: Direction::Remove,
                }
        }),
{
    lemma_find_account(s.accounts, account_id);
    lemma_resolve_accounting(s.items, req.items->0);
    lemma_resolve_total_nonneg(s.items, req.items->0);
    crate::resolver::lemma_resolve_shape(s.items, req.items->0);
}

/// Failure is idempotent: a rejected transaction leaves the whole store
/// state, and so every balance, every stock level and every record
/// count, exactly as it was.
pub proof fn lemma_rejected_unchanged(s: StoreV, account_id: u64, req: PostTransactionV, now: u64)
    requires
        post_spec(s, account_id, req, now).1 is Err,
    ensures
        post_spec(s, account_id, req, now).0 == s,
{
}

/// A Withdrawal whose client-side estimate already exceeds the balance
/// is rejected as `InsufficientFunds` before anything is resolved, and
/// mutates nothing.
pub proof fn lemma_insufficient_funds_estimate(
    s: StoreV,
    account_id: u64,
    req: PostTransactionV,
    now: u64,
)
    requires
        wf_v(s),
        req.kind == TxKind::Withdrawal,
        0 <= find_account(s.accounts, account_id),
        !s.accounts[find_account(s.accounts, account_id)].is_deleted,
        req.items is Some && req.items->0.len() > 0,
        req.amount > s.accounts[find_account(s.accounts, account_id)].balance@,
    ensures
        ({
            let out = post_spec(s, account_id, req, now);
            let ai = find_account(s.accounts, account_id);
            &&& out.0 == s
            &&& out.1 == Err::<crate::engine::TransactionResult, LedgerErrorV>(
                LedgerErrorV::InsufficientFunds {
                    available: s.accounts[ai].balance@,
                    required: req.amount,
                },
            )
        }),
{
    lemma_find_account(s.accounts, account_id);
}

/// A Withdrawal whose resolved total exceeds the balance is rejected as
/// `InsufficientFunds` carrying the available balance and the required
/// total, and mutates nothing: the estimate check alone is advisory,
/// the resolved total is what decides.
pub proof fn lemma_insufficient_funds_resolved(
    s: StoreV,
    account_id: u64,
    req: PostTransactionV,
    now: u64,
)
    requires
        wf_v(s),
        req.kind == TxKind::Withdrawal,
        0 <= find_account(s.accounts, account_id),
        !s.accounts[find_account(s.accounts, account_id)].is_deleted,
        req.items is Some && req.items->0.len() > 0,
        req.amount <= s.accounts[find_account(s.accounts, account_id)].balance@,
        resolve_spec(s.items, req.items->0) is Ok,
        resolve_spec(s.items, req.items->0)->Ok_0.total > s.accounts[find_account(
            s.accounts,
            account_id,
        )].balance@,
    ensures
        ({
            let out = post_spec(s, account_id, req, now);
            let ai = find_account(s.accounts, account_id);
            &&& out.0 == s
            &&& out.1 == Err::<crate::engine::TransactionResult, LedgerErrorV>(
                LedgerErrorV::InsufficientFunds {
                    available: s.accounts[ai].balance@,
                    required: sat64(resolve_spec(s.items, req.items->0)->Ok_0.total),
                },
            )
        }),
{
    lemma_find_account(s.accounts, account_id);
}

/// A Withdrawal whose resolution fails, with an unknown catalog code or
/// a quantity beyond the stock on hand, is rejected with exactly that
/// error, and no item is decremented, not even partially.
pub proof fn lemma_resolution_failure_rejects(
    s: StoreV,
    account_id: u64,
    req: PostTransactionV,
    now: u64,
)
    requires
        wf_v(s),
        req.kind == TxKind::Withdrawal,
        0 <= find_account(s.accounts, account_id),
        !s.accounts[find_account(s.accounts, account_id)].is_deleted,
        req.items is Some && req.items->0.len() > 0,
        req.amount <= s.accounts[find_account(s.accounts, account_id)].balance@,
        resolve_spec(s.items, req.items->0) is Err,
    ensures
        post_spec(s, account_id, req, now).0 == s,
        post_spec(s, account_id, req, now).1 == Err::<
            crate::engine::TransactionResult,
            LedgerErrorV,
        >(resolve_spec(s.items, req.items->0)->Err_0),
{
    lemma_find_account(s.accounts, account_id);
}

/// A Withdrawal referencing an unregistered catalog code is rejected,
/// whichever error of the failed resolution is reported first, and no
/// write happens for any other, valid item of the same request.
pub proof fn lemma_unknown_item_rejects(
    s: StoreV,
    account_id: u64,
    req: PostTransactionV,
    now: u64,
    i: int,
)
    requires
        wf_v(s),
        req.kind == TxKind::Withdrawal,
        req.items is Some,
        0 <= i < req.items->0.len(),
        crate::store::find_item(s.items, req.items->0[i].upc) < 0,
    ensures
        post_spec(s, account_id, req, now).1 is Err,
        post_spec(s, account_id, req, now).0 == s,
{
    lemma_find_account(s.accounts, account_id);
    lemma_unknown_code_fails(s.items, req.items->0, i);
}

/// Two Withdrawals that both commit in sequence against one account
/// spend no more, combined, than the balance they started from. Two
/// concurrent Withdrawals whose combined cost exceeds the balance can
/// therefore never both commit: the one serialized second is rejected,
/// with `InsufficientFunds` when it reads the committed balance, or
/// with `ConcurrencyConflict` when it goes through the versioned entry
/// point holding the stale version.
pub proof fn lemma_no_double_spend(
    s: StoreV,
    account_id: u64,
    r1: PostTransactionV,
    r2: PostTransactionV,
    t1: u64,
    t2: u64,
)
    requires
        wf_v(s),
        r1.kind == TxKind::Withdrawal,
        r2.kind == TxKind::Withdrawal,
        post_spec(s, account_id, r1, t1).1 is Ok,
        post_spec(post_spec(s, account_id, r1, t1).0, account_id, r2, t2).1 is Ok,
    ensures
        ({
            let s1 = post_spec(s, account_id, r1, t1).0;
            let ai = find_account(s.accounts, account_id);
            &&& 0 <= ai < s.accounts.len()
            &&& post_spec(s, account_id, r1, t1).1->Ok_0.amount@ + post_spec(
                s1,
                account_id,
                r2,
                t2,
            ).1->Ok_0.amount@ <= s.accounts[ai].balance@
        }),
{
    lemma_find_account(s.accounts, account_id);
    let ai = find_account(s.accounts, account_id);
    let s1 = post_spec(s, account_id, r1, t1).0;
    lemma_resolve_total_nonneg(s.items, r1.items->0);
    crate::resolver::lemma_resolve_shape(s.items, r1.items->0);
    assert(s1.accounts.len() == s.accounts.len());
    assert forall|i: int| 0 <= i < s.accounts.len() implies s.accounts[i].id
        == s1.accounts[i].id by {
        if i != ai {
            assert(s1.accounts[i] == s.accounts[i]);
        }
    }
    lemma_find_account_same_ids(s.accounts, s1.accounts, account_id);
    assert forall|i: int| 0 <= i < s1.items.len() implies (#[trigger] s1.items[i]).price >= 0 by {
        assert(s1.items[i].price == s.items[i].price);
    }
    lemma_resolve_total_nonneg(s1.items, r2.items->0);
}

} // verus!
