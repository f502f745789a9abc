//! The request-scoped copy of the relational store that the engine works
//! on, together with its well-formedness invariant.
//!
//! The engine mutates a `Store` only through all-or-nothing commits: an
//! operation either applies every one of its writes or leaves the store
//! exactly as it was. `version` counts committed operations and backs the
//! optimistic concurrency check of the versioned entry point.

use vstd::prelude::*;
use crate::money::Money;
use crate::records::{Account, InventoryMovement, Item, ItemV, LedgerEntry, LineItem};

verus! {

/// The ghost shape of a `Store`.
pub ghost struct StoreV {
    pub accounts: Seq<Account>,
    pub items: Seq<ItemV>,
    pub ledger: Seq<LedgerEntry>,
    pub line_items: Seq<LineItem>,
    pub movements: Seq<InventoryMovement>,
    pub next_id: u64,
    pub version: u64,
}

/// Accounts, catalog items and the three append-only record tables,
/// with the next fresh record id and the commit counter.
pub struct Store {
    pub accounts: Vec<Account>,
    pub items: Vec<Item>,
    pub ledger: Vec<LedgerEntry>,
    pub line_items: Vec<LineItem>,
    pub movements: Vec<InventoryMovement>,
    pub next_id: u64,
    pub version: u64,
}

impl View for Store {
    type V = StoreV;

    open spec fn view(&self) -> StoreV {
        StoreV {
            accounts: self.accounts@,
            items: self.items@.map_values(|it: Item| it@),
            ledger: self.ledger@,
            line_items: self.line_items@,
            movements: self.movements@,
            next_id: self.next_id,
            version: self.version,
        }
    }
}

/// The first position in `accounts` holding the id, or -1 when none does.
pub open spec fn find_account(accounts: Seq<Account>, id: u64) -> int
    decreases accounts.len(),
{
    if accounts.len() == 0 {
        -1
    } else if accounts[0].id == id {
        0
    } else {
        let r = find_account(accounts.drop_first(), id);
        if r < 0 {
            -1
        } else {
            r + 1
        }
    }
}

/// The first position in `items` holding the catalog code, or -1 when
/// none does.
pub open spec fn find_item(items: Seq<ItemV>, upc: Seq<char>) -> int
    decreases items.len(),
{
    if items.len() == 0 {
        -1
    } else if items[0].upc == upc {
        0
    } else {
        let r = find_item(items.drop_first(), upc);
        if r < 0 {
            -1
        } else {
            r + 1
        }
    }
}

/// What `find_account` returns: either -1 and the id is absent, or the
/// first position holding it.
pub proof fn lemma_find_account(accounts: Seq<Account>, id: u64)
    ensures
        find_account(accounts, id) < 0 ==> forall|i: int|
            0 <= i < accounts.len() ==> accounts[i].id != id,
        find_account(accounts, id) >= 0 ==> find_account(accounts, id) < accounts.len()
            && accounts[find_account(accounts, id)].id == id
            && forall|i: int| 0 <= i < find_account(accounts, id) ==> accounts[i].id != id,
    decreases accounts.len(),
{
    if accounts.len() > 0 && accounts[0].id != id {
        lemma_find_account(accounts.drop_first(), id);
        assert forall|i: int| 0 <= i < accounts.len() && find_account(accounts, id) < 0
            implies accounts[i].id != id by {
            if i > 0 {
                assert(accounts.drop_first()[i - 1] == accounts[i]);
            }
        }
        assert forall|i: int|
            0 <= i < find_account(accounts, id) implies accounts[i].id != id by {
            if i > 0 {
                assert(accounts.drop_first()[i - 1] == accounts[i]);
            }
        }
    }
}

/// What `find_item` returns: either -1 and the code is absent, or the
/// first position holding it.
pub proof fn lemma_find_item(items: Seq<ItemV>, upc: Seq<char>)
    ensures
        find_item(items, upc) < 0 ==> forall|i: int|
            0 <= i < items.len() ==> items[i].upc != upc,
        find_item(items, upc) >= 0 ==> find_item(items, upc) < items.len()
            && items[find_item(items, upc)].upc == upc
            && forall|i: int| 0 <= i < find_item(items, upc) ==> items[i].upc != upc,
    decreases items.len(),
{
    if items.len() > 0 && items[0].upc != upc {
        lemma_find_item(items.drop_first(), upc);
        assert forall|i: int| 0 <= i < items.len() && find_item(items, upc) < 0
            implies items[i].upc != upc by {
            if i > 0 {
                assert(items.drop_first()[i - 1] == items[i]);
            }
        }
        assert forall|i: int| 0 <= i < find_item(items, upc) implies items[i].upc != upc by {
            if i > 0 {
                assert(items.drop_first()[i - 1] == items[i]);
            }
        }
    }
}

/// Well-formedness of a store state: account, item and record ids are
/// unique and below the id counter; catalog codes are unique; the commit
/// counter stays below the id counter, which each commit advances at
/// least as far.
pub open spec fn wf_v(s: StoreV) -> bool {
    &&& s.version < s.next_id
    &&& forall|i: int, j: int|
        0 <= i < j < s.accounts.len() ==> s.accounts[i].id != s.accounts[j].id
    &&& forall|i: int| 0 <= i < s.accounts.len() ==> #[trigger] s.accounts[i].id < s.next_id
    &&& forall|i: int, j: int| 0 <= i < j < s.items.len() ==> s.items[i].id != s.items[j].id
    &&& forall|i: int, j: int| 0 <= i < j < s.items.len() ==> s.items[i].upc != s.items[j].upc
    &&& forall|i: int| 0 <= i < s.items.len() ==> #[trigger] s.items[i].id < s.next_id
    &&& forall|i: int| 0 <= i < s.items.len() ==> 0 <= (#[trigger] s.items[i]).price <= u64::MAX
    &&& forall|i: int| 0 <= i < s.ledger.len() ==> #[trigger] s.ledger[i].id < s.next_id
    &&& forall|i: int| 0 <= i < s.line_items.len() ==> #[trigger] s.line_items[i].id < s.next_id
    &&& forall|i: int| 0 <= i < s.movements.len() ==> #[trigger] s.movements[i].id < s.next_id
}

/// Lookup by account id lands on the same position in two account
/// sequences whose ids agree pointwise.
pub proof fn lemma_find_account_same_ids(a: Seq<Account>, b: Seq<Account>, id: u64)
    requires
        a.len() == b.len(),
        forall|i: int| 0 <= i < a.len() ==> a[i].id == b[i].id,
    ensures
        find_account(a, id) == find_account(b, id),
    decreases a.len(),
{
    if a.len() > 0 {
        assert forall|i: int| 0 <= i < a.drop_first().len() implies a.drop_first()[i].id
            == b.drop_first()[i].id by {
            assert(a.drop_first()[i] == a[i + 1]);
            assert(b.drop_first()[i] == b[i + 1]);
        }
        lemma_find_account_same_ids(a.drop_first(), b.drop_first(), id);
    }
}

/// Record ids stay below the id counter when the record tables are
/// unchanged and the counter does not shrink.
proof fn lemma_tables_stay_bounded(s0: StoreV, s1: StoreV)
    requires
        wf_v(s0),
        s1.ledger == s0.ledger,
        s1.line_items == s0.line_items,
        s1.movements == s0.movements,
        s1.next_id >= s0.next_id,
    ensures
        forall|i: int| 0 <= i < s1.ledger.len() ==> #[trigger] s1.ledger[i].id < s1.next_id,
        forall|i: int|
            0 <= i < s1.line_items.len() ==> #[trigger] s1.line_items[i].id < s1.next_id,
        forall|i: int| 0 <= i < s1.movements.len() ==> #[trigger] s1.movements[i].id < s1.next_id,
{
    assert forall|i: int| 0 <= i < s1.ledger.len() implies #[trigger] s1.ledger[i].id
        < s1.next_id by {
        assert(s1.ledger[i] == s0.ledger[i]);
        assert(s0.ledger[i].id < s0.next_id);
    }
    assert forall|i: int| 0 <= i < s1.line_items.len() implies #[trigger] s1.line_items[i].id
        < s1.next_id by {
        assert(s1.line_items[i] == s0.line_items[i]);
        assert(s0.line_items[i].id < s0.next_id);
    }
    assert forall|i: int| 0 <= i < s1.movements.len() implies #[trigger] s1.movements[i].id
        < s1.next_id by {
        assert(s1.movements[i] == s0.movements[i]);
        assert(s0.movements[i].id < s0.next_id);
    }
}

impl Store {
    /// The store's invariant; see `wf_v`.
    pub open spec fn wf(&self) -> bool {
        wf_v(self@)
    }

    /// An empty store.
    pub fn new() -> (r: Store)
        ensures
            r.wf(),
            r@.accounts.len() == 0,
            r@.items.len() == 0,
            r@.ledger.len() == 0,
            r@.line_items.len() == 0,
            r@.movements.len() == 0,
            r@.next_id == 1,
            r@.version == 0,
    {
        Store {
            accounts: Vec::new(),
            items: Vec::new(),
            ledger: Vec::new(),
            line_items: Vec::new(),
            movements: Vec::new(),
            next_id: 1,
            version: 0,
        }
    }

    /// Opens an account for resident `doc` with the given opening
    /// balance and returns its fresh id; `None` only when the id space
    /// is exhausted. Nothing else in the store changes.
    pub fn create_account(&mut self, doc: u64, balance: Money) -> (r: Option<u64>)
        requires
            old(self).wf(),
        ensures
            final(self).wf(),
            match r {
                Some(id) => {
                    &&& id == old(self)@.next_id
                    &&& final(self)@.accounts == old(self)@.accounts.push(
                        Account { id, doc, balance, is_deleted: false },
                    )
                    &&& final(self)@.next_id == old(self)@.next_id + 1
                    &&& final(self)@.items == old(self)@.items
                    &&& final(self)@.ledger == old(self)@.ledger
                    &&& final(self)@.line_items == old(self)@.line_items
                    &&& final(self)@.movements == old(self)@.movements
                    &&& final(self)@.version == old(self)@.version
                },
                None => final(self)@ == old(self)@ && old(self)@.next_id == u64::MAX,
            },
    {
        if self.next_id == u64::MAX {
            return None;
        }
        let id = self.next_id;
        self.accounts.push(Account { id, doc, balance, is_deleted: false });
        self.next_id = self.next_id + 1;
        proof {
            assert forall|i: int, j: int|
                0 <= i < j < self@.accounts.len() implies self@.accounts[i].id
                != self@.accounts[j].id by {
                if j < old(self)@.accounts.len() {
                    assert(self@.accounts[i] == old(self)@.accounts[i]);
                    assert(self@.accounts[j] == old(self)@.accounts[j]);
                } else {
                    assert(self@.accounts[i] == old(self)@.accounts[i]);
                    assert(old(self)@.accounts[i].id < old(self)@.next_id);
                }
            }
            assert forall|i: int| 0 <= i < self@.accounts.len() implies #[trigger] self@.accounts[
                i
            ].id < self@.next_id by {
                if i < old(self)@.accounts.len() {
                    assert(self@.accounts[i] == old(self)@.accounts[i]);
                    assert(old(self)@.accounts[i].id < old(self)@.next_id);
                }
            }
            assert forall|i: int| 0 <= i < self@.items.len() implies #[trigger] self@.items[i].id
                < self@.next_id by {
                assert(self@.items[i] == old(self)@.items[i]);
                assert(old(self)@.items[i].id < old(self)@.next_id);
            }
            lemma_tables_stay_bounded(old(self)@, self@);
            assert(self@.version < self@.next_id);
            assert(forall|i: int, j: int|
                0 <= i < j < self@.accounts.len() ==> self@.accounts[i].id
                    != self@.accounts[j].id);
            assert forall|i: int, j: int|
                0 <= i < j < self@.items.len() implies self@.items[i].id != self@.items[j].id by {
                assert(self@.items[i] == old(self)@.items[i]);
                assert(self@.items[j] == old(self)@.items[j]);
            }
            assert forall|i: int, j: int|
                0 <= i < j < self@.items.len() implies self@.items[i].upc
                != self@.items[j].upc by {
                assert(self@.items[i] == old(self)@.items[i]);
                assert(self@.items[j] == old(self)@.items[j]);
            }
            assert(self.wf());
        }
        Some(id)
    }

    /// Registers a catalog item under a fresh id and returns that id;
    /// `None` when the catalog code is already taken or the id space is
    /// exhausted. Nothing else in the store changes.
    pub fn create_item(&mut self, upc: String, name: String, price: Money, quantity: u64) -> (r:
        Option<u64>)
        requires
            old(self).wf(),
        ensures
            final(self).wf(),
            match r {
                Some(id) => {
                    &&& id == old(self)@.next_id
                    &&& old(self)@.next_id < u64::MAX
                    &&& crate::store::find_item(old(self)@.items, upc@) < 0
                    &&& final(self)@.items == old(self)@.items.push(
                        ItemV { id, upc: upc@, name: name@, price: price@, quantity },
                    )
                    &&& final(self)@.next_id == old(self)@.next_id + 1
                    &&& final(self)@.accounts == old(self)@.accounts
                    &&& final(self)@.ledger == old(self)@.ledger
                    &&& final(self)@.line_items == old(self)@.line_items
                    &&& final(self)@.movements == old(self)@.movements
                    &&& final(self)@.version == old(self)@.version
                },
                None => final(self)@ == old(self)@ && (old(self)@.next_id == u64::MAX
                    || find_item(old(self)@.items, upc@) >= 0),
            },
    {
        if self.next_id == u64::MAX {
            return None;
        }
        if crate::resolver::lookup_item(&self.items, &upc).is_some() {
            return None;
        }
        proof {
            lemma_find_item(self@.items, upc@);
        }
        let ghost before = self@.items;
        let ghost pushed = ItemV { id: self.next_id, upc: upc@, name: name@, price: price@, quantity };
        let id = self.next_id;
        self.items.push(Item { id, upc, name, price, quantity });
        self.next_id = self.next_id + 1;
        proof {
            assert forall|i: int| 0 <= i < before.len() implies self@.items[i] == before[i] by {
                assert(self.items@[i] == old(self).items@[i]);
            }
            assert(self@.items[before.len() as int] == pushed);
            assert(self@.items =~= before.push(pushed));
            assert forall|i: int, j: int|
                0 <= i < j < self@.items.len() implies self@.items[i].id != self@.items[j].id
                && self@.items[i].upc != self@.items[j].upc by {
                if j < before.len() {
                } else {
                    assert(self@.items[i] == before[i]);
                    assert(before[i].id < old(self)@.next_id);
                }
            }
            assert forall|i: int| 0 <= i < self@.items.len() implies #[trigger] self@.items[i].id
                < self@.next_id by {
                if i < before.len() {
                    assert(self@.items[i] == before[i]);
                    assert(before[i].id < old(self)@.next_id);
                }
            }
            assert forall|i: int| 0 <= i < self@.accounts.len() implies #[trigger] self@.accounts[
                i
            ].id < self@.next_id by {
                assert(self@.accounts[i] == old(self)@.accounts[i]);
                assert(old(self)@.accounts[i].id < old(self)@.next_id);
            }
            lemma_tables_stay_bounded(old(self)@, self@);
            assert forall|i: int, j: int|
                0 <= i < j < self@.accounts.len() implies self@.accounts[i].id
                != self@.accounts[j].id by {
                assert(self@.accounts[i] == old(self)@.accounts[i]);
                assert(self@.accounts[j] == old(self)@.accounts[j]);
            }
            assert(self.wf());
        }
        Some(id)
    }

    /// The position of the account with the given id, if any.
    pub fn lookup_account(&self, id: u64) -> (r: Option<usize>)
        ensures
            match r {
                Some(i) => i == find_account(self@.accounts, id),
                None => find_account(self@.accounts, id) < 0,
            },
    {
        let mut i: usize = 0;
        while i < self.accounts.len()
            invariant
                0 <= i <= self.accounts.len(),
                forall|k: int| 0 <= k < i ==> self@.accounts[k].id != id,
                find_account(self@.accounts, id) >= i
                    || find_account(self@.accounts, id) < 0,
            decreases self.accounts.len() - i,
        {
            if self.accounts[i].id == id {
                proof {
                    lemma_find_account(self@.accounts, id);
                }
                return Some(i);
            }
            proof {
                lemma_find_account(self@.accounts, id);
            }
            i = i + 1;
        }
        proof {
            lemma_find_account(self@.accounts, id);
        }
        None
    }
}

} // verus!
