//! The persisted record shapes of the ledger: accounts, catalog items,
//! ledger entries, line items and inventory movements.
//!
//! The engine works on transient, request-scoped copies of these records;
//! the storage collaborator owns the durable rows.

use vstd::prelude::*;
use crate::money::Money;

verus! {

/// The kind of a ledger operation.
#[derive(Clone, Copy, Debug, PartialEq, Eq, Structural)]
pub enum TxKind {
    Credit,
    Withdrawal,
}

/// The direction of an inventory movement.
#[derive(Clone, Copy, Debug, PartialEq, Eq, Structural)]
pub enum Direction {
    Add,
    Remove,
}

/// A resident's monetary account. `doc` is the resident reference.
#[derive(Clone, Copy, Debug, PartialEq, Eq, Structural)]
pub struct Account {
    pub id: u64,
    pub doc: u64,
    pub balance: Money,
    pub is_deleted: bool,
}

/// A stocked catalog item; `upc` is its unique catalog code.
#[derive(Clone, Debug)]
pub struct Item {
    pub id: u64,
    pub upc: String,
    pub name: String,
    pub price: Money,
    pub quantity: u64,
}

/// The ghost shape of an `Item`, with its strings as character sequences.
pub ghost struct ItemV {
    pub id: u64,
    pub upc: Seq<char>,
    pub name: Seq<char>,
    pub price: int,
    pub quantity: u64,
}

impl View for Item {
    type V = ItemV;

    open spec fn view(&self) -> ItemV {
        ItemV {
            id: self.id,
            upc: self.upc@,
            name: self.name@,
            price: self.price@,
            quantity: self.quantity,
        }
    }
}

/// An immutable record of one Credit or Withdrawal against an account.
/// `amount` for a Withdrawal is the actual computed total over the
/// resolved items, not a client-supplied estimate.
#[derive(Clone, Copy, Debug, PartialEq, Eq, Structural)]
pub struct LedgerEntry {
    pub id: u64,
    pub account_id: u64,
    pub doc: u64,
    pub kind: TxKind,
    pub amount: Money,
    pub created_at: u64,
}

/// The association of a ledger entry with one catalog item and a quantity.
#[derive(Clone, Copy, Debug, PartialEq, Eq, Structural)]
pub struct LineItem {
    pub id: u64,
    pub transaction_id: u64,
    pub item_id: u64,
    pub quantity: u64,
}

/// An immutable audit record of one stock quantity change.
#[derive(Clone, Copy, Debug, PartialEq, Eq, Structural)]
pub struct InventoryMovement {
    pub id: u64,
    pub item_id: u64,
    pub quantity: u64,
    pub direction: Direction,
}

} // verus!
