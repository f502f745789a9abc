//! The ledger engine: executes one Credit or Withdrawal against one
//! account, inside the store's consistency boundary.
//!
//! An operation runs through validation (account, items, funds),
//! resolution (for withdrawals), and an all-or-nothing commit. Every
//! validation failure is detected before any write; a rejected operation
//! leaves the store exactly as it was. `post_spec` is the authoritative
//! description of both the next store state and the reported outcome.

use vstd::prelude::*;
use crate::errors::{FailureCause, LedgerError, LedgerErrorV};
use crate::money::Money;
use crate::records::{Account, Direction, InventoryMovement, ItemV, LedgerEntry, LineItem, TxKind};
use crate::resolver::{
    lemma_resolve_shape, lines_view, reqs_view, resolve_requests, resolve_spec, LineV, PostItem,
};
use crate::store::{find_account, lemma_find_account, Store, StoreV};

verus! {

/// A request to post one transaction: the resident reference, the kind,
/// the amount (a credit's amount, or a client-side cost estimate for a
/// withdrawal), and the requested item pairs of a withdrawal.
#[derive(Clone, Debug)]
pub struct PostTransaction {
    pub doc: u64,
    pub kind: TxKind,
    pub amount: Money,
    pub items: Option<Vec<PostItem>>,
}

/// The ghost shape of a `PostTransaction`.
pub ghost struct PostTransactionV {
    pub doc: u64,
    pub kind: TxKind,
    pub amount: int,
    pub items: Option<Seq<crate::resolver::PostItemV>>,
}

impl PostTransactionV {
    /// A shape that a real request can take: the amount is a
    /// representable, non-negative Money amount. The view of every
    /// executable `PostTransaction` satisfies this.
    pub open spec fn wf(self) -> bool {
        0 <= self.amount <= u64::MAX
    }
}

impl View for PostTransaction {
    type V = PostTransactionV;

    open spec fn view(&self) -> PostTransactionV {
        PostTransactionV {
            doc: self.doc,
            kind: self.kind,
            amount: self.amount@,
            items: match self.items {
                Some(v) => Some(reqs_view(v@)),
                None => None,
            },
        }
    }
}

/// The success payload of a posted transaction: the amount is the
/// actual resolved total for a withdrawal, and `balance` the resulting
/// account balance.
#[derive(Clone, Copy, Debug, PartialEq, Eq, Structural)]
pub struct TransactionResult {
    pub doc: u64,
    pub account_id: u64,
    pub kind: TxKind,
    pub amount: Money,
    pub balance: Money,
}

/// An exact total saturated to the largest representable amount.
pub open spec fn sat64(t: int) -> int {
    if t > u64::MAX {
        u64::MAX as int
    } else {
        t
    }
}

/// The line-item records a commit appends: one per resolved line, with
/// ids interleaved after the ledger entry's id `base`.
pub open spec fn line_records(lines: Seq<LineV>, base: u64) -> Seq<LineItem> {
    Seq::new(
        lines.len(),
        |j: int| LineItem {
            id: (base + 1 + 2 * j) as u64,
            transaction_id: base,
            item_id: lines[j].item_id,
            quantity: lines[j].quantity,
        },
    )
}

/// The inventory-movement records a commit appends: one `Remove` per
/// resolved line, with the line's quantity.
pub open spec fn movement_records(lines: Seq<LineV>, base: u64) -> Seq<InventoryMovement> {
    Seq::new(
        lines.len(),
        |j: int| InventoryMovement {
            id: (base + 2 + 2 * j) as u64,
            item_id: lines[j].item_id,
            quantity: lines[j].quantity,
            direction: Direction::Remove,
        },
    )
}

/// The store state and outcome of a Credit against the account at
/// position `ai`: the balance grows by the credited amount, one ledger
/// entry is appended, and no item or movement record is touched.
pub open spec fn credit_spec(s: StoreV, ai: int, req: PostTransactionV, now: u64) -> (StoreV,
    Result<TransactionResult, LedgerErrorV>)
{
    let acct = s.accounts[ai];
    if acct.balance.cents + req.amount > u64::MAX {
        (s, Err(LedgerErrorV::PersistenceFailure(FailureCause::BalanceOverflow)))
    } else if s.next_id == u64::MAX {
        (s, Err(LedgerErrorV::PersistenceFailure(FailureCause::IdSpaceExhausted)))
    } else {
        let newbal = Money { cents: (acct.balance.cents + req.amount) as u64 };
        let entry = LedgerEntry {
            id: s.next_id,
            account_id: acct.id,
            doc: acct.doc,
            kind: TxKind::Credit,
            amount: Money { cents: req.amount as u64 },
            created_at: now,
        };
        let s2 = StoreV {
            accounts: s.accounts.update(
                ai,
                Account { id: acct.id, doc: acct.doc, balance: newbal, is_deleted: false },
            ),
            items: s.items,
            ledger: s.ledger.push(entry),
            line_items: s.line_items,
            movements: s.movements,
            next_id: (s.next_id + 1) as u64,
            version: (s.version + 1) as u64,
        };
        (
            s2,
            Ok(
                TransactionResult {
                    doc: req.doc,
                    account_id: acct.id,
                    kind: TxKind::Credit,
                    amount: Money { cents: req.amount as u64 },
                    balance: newbal,
                },
            ),
        )
    }
}

/// The store state and outcome of a Withdrawal against the account at
/// position `ai`: the request must carry items; the client estimate and
/// then the resolved total are checked against the balance; on success
/// the items are decremented, the ledger entry, line items and `Remove`
/// movements are appended, and the balance shrinks by the exact total.
pub open spec fn withdraw_spec(s: StoreV, ai: int, req: PostTransactionV, now: u64) -> (StoreV,
    Result<TransactionResult, LedgerErrorV>)
{
    let acct = s.accounts[ai];
    if req.items is None || req.items->0.len() == 0 {
        (s, Err(LedgerErrorV::MissingItems))
    } else if req.amount > acct.balance.cents {
        (
            s,
            Err(
                LedgerErrorV::InsufficientFunds {
                    available: acct.balance.cents as int,
                    required: req.amount,
                },
            ),
        )
    } else {
        match resolve_spec(s.items, req.items->0) {
            Err(e) => (s, Err(e)),
            Ok(res) => {
                if res.total > acct.balance.cents {
                    (
                        s,
                        Err(
                            LedgerErrorV::InsufficientFunds {
                                available: acct.balance.cents as int,
                                required: sat64(res.total),
                            },
                        ),
                    )
                } else if s.next_id + 1 + 2 * res.lines.len() > u64::MAX {
                    (s, Err(LedgerErrorV::PersistenceFailure(FailureCause::IdSpaceExhausted)))
                } else {
                    let total = Money { cents: res.total as u64 };
                    let newbal = Money { cents: (acct.balance.cents - res.total) as u64 };
                    let entry = LedgerEntry {
                        id: s.next_id,
                        account_id: acct.id,
                        doc: acct.doc,
                        kind: TxKind::Withdrawal,
                        amount: total,
                        created_at: now,
                    };
                    let s2 = StoreV {
                        accounts: s.accounts.update(
                            ai,
                            Account {
                                id: acct.id,
                                doc: acct.doc,
                                balance: newbal,
                                is_deleted: false,
                            },
                        ),
                        items: res.items_after,
                        ledger: s.ledger.push(entry),
                        line_items: s.line_items + line_records(res.lines, s.next_id),
                        movements: s.movements + movement_records(res.lines, s.next_id),
                        next_id: (s.next_id + 1 + 2 * res.lines.len()) as u64,
                        version: (s.version + 1) as u64,
                    };
                    (
                        s2,
                        Ok(
                            TransactionResult {
                                doc: req.doc,
                                account_id: acct.id,
                                kind: TxKind::Withdrawal,
                                amount: total,
                                balance: newbal,
                            },
                        ),
                    )
                }
            },
        }
    }
}

/// The store state and outcome of posting `req` against the account
/// with id `account_id`: the account must exist and not be soft-deleted,
/// then the operation branches on the request's kind. On any error the
/// store is returned unchanged.
pub open spec fn post_spec(s: StoreV, account_id: u64, req: PostTransactionV, now: u64) -> (
    StoreV,
    Result<TransactionResult, LedgerErrorV>,
) {
    let ai = find_account(s.accounts, account_id);
    if ai < 0 {
        (s, Err(LedgerErrorV::AccountNotFound))
    } else if s.accounts[ai].is_deleted {
        (s, Err(LedgerErrorV::AccountDeleted))
    } else if req.kind == TxKind::Credit {
        credit_spec(s, ai, req, now)
    } else {
        withdraw_spec(s, ai, req, now)
    }
}

/// How an executable outcome realizes the specified one: equal payloads
/// on success, matching views on failure.
pub open spec fn result_matches(
    r: Result<TransactionResult, LedgerError>,
    v: Result<TransactionResult, LedgerErrorV>,
) -> bool {
    match r {
        Ok(t) => v == Ok::<TransactionResult, LedgerErrorV>(t),
        Err(e) => v is Err && e@ == v->Err_0,
    }
}

impl Store {
    /// Posts one Credit or Withdrawal against the account with id
    /// `account_id`, exactly as `post_spec` says: the new store state is
    /// `post_spec(..).0` and the outcome realizes `post_spec(..).1`. In
    /// particular a rejected transaction leaves the store unchanged, and
    /// a committed one applies every write of the unit.
    pub fn post_transaction(&mut self, account_id: u64, req: &PostTransaction, now: u64) -> (r:
        Result<TransactionResult, LedgerError>)
        requires
            old(self).wf(),
        ensures
            final(self).wf(),
            final(self)@ == post_spec(old(self)@, account_id, req@, now).0,
            result_matches(r, post_spec(old(self)@, account_id, req@, now).1),
    {
        let ghost s0 = self@;
        let ai = match self.lookup_account(account_id) {
            None => {
                return Err(LedgerError::AccountNotFound);
            },
            Some(i) => i,
        };
        proof {
            lemma_find_account(s0.accounts, account_id);
        }
        let acct = self.accounts[ai];
        if acct.is_deleted {
            return Err(LedgerError::AccountDeleted);
        }
        match req.kind {
            TxKind::Credit => {
                let newbal = match acct.balance.checked_add(req.amount) {
                    None => {
                        return Err(
                            LedgerError::PersistenceFailure(FailureCause::BalanceOverflow),
                        );
                    },
                    Some(b) => b,
                };
                if self.next_id == u64::MAX {
                    return Err(LedgerError::PersistenceFailure(FailureCause::IdSpaceExhausted));
                }
                let entry = LedgerEntry {
                    id: self.next_id,
                    account_id: acct.id,
                    doc: acct.doc,
                    kind: TxKind::Credit,
                    amount: req.amount,
                    created_at: now,
                };
                self.ledger.push(entry);
                let slot = &mut self.accounts[ai];
                slot.balance = newbal;
                self.next_id = self.next_id + 1;
                self.version = self.version + 1;
                proof {
                    let spec_s = credit_spec(s0, ai as int, req@, now).0;
                    assert(self@.accounts =~= spec_s.accounts);
                    assert(self@.ledger =~= spec_s.ledger);
                    assert(self@ == spec_s);
                    assert forall|i: int, j: int|
                        0 <= i < j < self@.accounts.len() implies self@.accounts[i].id
                        != self@.accounts[j].id by {
                        assert(self@.accounts[i].id == s0.accounts[i].id);
                        assert(self@.accounts[j].id == s0.accounts[j].id);
                    }
                    assert(self.wf());
                }
                Ok(
                    TransactionResult {
                        doc: req.doc,
                        account_id: acct.id,
                        kind: TxKind::Credit,
                        amount: req.amount,
                        balance: newbal,
                    },
                )
            },
            TxKind::Withdrawal => {
                let items_req = match &req.items {
                    None => {
                        return Err(LedgerError::MissingItems);
                    },
                    Some(v) => v,
                };
                if items_req.len() == 0 {
                    return Err(LedgerError::MissingItems);
                }
                if req.amount.cents > acct.balance.cents {
                    return Err(
                        LedgerError::InsufficientFunds {
                            available: acct.balance,
                            required: req.amount,
                        },
                    );
                }
                let res = match resolve_requests(&self.items, items_req) {
                    Err(e) => {
                        return Err(e);
                    },
                    Ok(res) => res,
                };
                let ghost reqs_v = reqs_view(items_req@);
                let ghost spec_res = resolve_spec(s0.items, reqs_v)->Ok_0;
                if res.total > acct.balance.cents as u128 {
                    let required = if res.total > (u64::MAX as u128) {
                        Money { cents: u64::MAX }
                    } else {
                        Money { cents: res.total as u64 }
                    };
                    return Err(
                        LedgerError::InsufficientFunds { available: acct.balance, required },
                    );
                }
                let n = res.lines.len();
                let needed: u128 = 1 + 2 * (n as u128);
                if ((u64::MAX as u128) - (self.next_id as u128)) < needed {
                    return Err(LedgerError::PersistenceFailure(FailureCause::IdSpaceExhausted));
                }
                let total64: u64 = res.total as u64;
                let entry_id = self.next_id;
                let entry = LedgerEntry {
                    id: entry_id,
                    account_id: acct.id,
                    doc: acct.doc,
                    kind: TxKind::Withdrawal,
                    amount: Money { cents: total64 },
                    created_at: now,
                };
                self.ledger.push(entry);
                let ghost spec_lines = spec_res.lines;
                proof {
                    assert(spec_lines.len() == n);
                }
                let mut j: usize = 0;
                while j < n
                    invariant
                        0 <= j <= n,
                        n == res.lines.len(),
                        lines_view(res.lines@) == spec_lines,
                        spec_lines.len() == n,
                        entry_id as int + 1 + 2 * (n as int) <= u64::MAX,
                        self@.accounts == s0.accounts,
                        self@.items == s0.items,
                        self@.ledger == s0.ledger.push(entry),
                        self@.line_items =~= s0.line_items + line_records(
                            spec_lines,
                            entry_id,
                        ).take(j as int),
                        self@.movements =~= s0.movements + movement_records(
                            spec_lines,
                            entry_id,
                        ).take(j as int),
                        self@.next_id == s0.next_id,
                        self@.version == s0.version,
                        entry_id == s0.next_id,
                    decreases n - j,
                {
                    let line = res.lines[j];
                    proof {
                        assert(line@ == spec_lines[j as int]);
                    }
                    self.line_items.push(
                        LineItem {
                            id: entry_id + 1 + 2 * (j as u64),
                            transaction_id: entry_id,
                            item_id: line.item_id,
                            quantity: line.quantity,
                        },
                    );
                    self.movements.push(
                        InventoryMovement {
                            id: entry_id + 2 + 2 * (j as u64),
                            item_id: line.item_id,
                            quantity: line.quantity,
                            direction: Direction::Remove,
                        },
                    );
                    proof {
                        assert(line_records(spec_lines, entry_id).take(j as int + 1)
                            =~= line_records(spec_lines, entry_id).take(j as int).push(
                            line_records(spec_lines, entry_id)[j as int],
                        ));
                        assert(movement_records(spec_lines, entry_id).take(j as int + 1)
                            =~= movement_records(spec_lines, entry_id).take(j as int).push(
                            movement_records(spec_lines, entry_id)[j as int],
                        ));
                        assert(self@.line_items =~= s0.line_items + line_records(
                            spec_lines,
                            entry_id,
                        ).take(j as int + 1));
                        assert(self@.movements =~= s0.movements + movement_records(
                            spec_lines,
                            entry_id,
                        ).take(j as int + 1));
                    }
                    j = j + 1;
                }
                self.items = res.items_after;
                let newbal = Money { cents: acct.balance.cents - total64 };
                let slot = &mut self.accounts[ai];
                slot.balance = newbal;
                self.next_id = entry_id + 1 + 2 * (n as u64);
                self.version = self.version + 1;
                proof {
                    let spec_s = withdraw_spec(s0, ai as int, req@, now).0;
                    assert(line_records(spec_lines, entry_id).take(n as int) =~= line_records(
                        spec_lines,
                        entry_id,
                    ));
                    assert(movement_records(spec_lines, entry_id).take(n as int)
                        =~= movement_records(spec_lines, entry_id));
                    assert(self@.accounts =~= spec_s.accounts);
                    assert(self@ == spec_s);
                    lemma_resolve_shape(s0.items, reqs_v);
                    assert forall|i: int, j2: int|
                        0 <= i < j2 < self@.accounts.len() implies self@.accounts[i].id
                        != self@.accounts[j2].id by {
                        assert(self@.accounts[i].id == s0.accounts[i].id);
                        assert(self@.accounts[j2].id == s0.accounts[j2].id);
                    }
                    assert(self.wf());
                }
                Ok(
                    TransactionResult {
                        doc: req.doc,
                        account_id: acct.id,
                        kind: TxKind::Withdrawal,
                        amount: Money { cents: total64 },
                        balance: newbal,
                    },
                )
            },
        }
    }

    /// Optimistic-concurrency entry point. The caller passes the store
    /// version it observed when it read the balance or stock; if another
    /// operation has committed since, the request is rejected with
    /// `ConcurrencyConflict` and nothing changes, so two concurrent
    /// operations can never both commit against the same observed state.
    pub fn post_transaction_versioned(
        &mut self,
        expected_version: u64,
        account_id: u64,
        req: &PostTransaction,
        now: u64,
    ) -> (r: Result<TransactionResult, LedgerError>)
        requires
            old(self).wf(),
        ensures
            final(self).wf(),
            expected_version != old(self)@.version ==> final(self)@ == old(self)@ && r is Err
                && r->Err_0@ == LedgerErrorV::ConcurrencyConflict,
            expected_version == old(self)@.version ==> final(self)@ == post_spec(
                old(self)@,
                account_id,
                req@,
                now,
            ).0 && result_matches(r, post_spec(old(self)@, account_id, req@, now).1),
    {
        if self.version != expected_version {
            return Err(LedgerError::ConcurrencyConflict);
        }
        self.post_transaction(account_id, req, now)
    }
}

impl PostTransaction {
    /// Posts this request against the account with id `id`, as
    /// `Store::post_transaction` does.
    pub fn process_transaction(&self, store: &mut Store, id: u64, now: u64) -> (r: Result<
        TransactionResult,
        LedgerError,
    >)
        requires
            old(store).wf(),
        ensures
            final(store).wf(),
            final(store)@ == post_spec(old(store)@, id, self@, now).0,
            result_matches(r, post_spec(old(store)@, id, self@, now).1),
    {
        store.post_transaction(id, self, now)
    }
}

} // verus!
