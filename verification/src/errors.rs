//! The closed error taxonomy of the ledger engine.
//!
//! Every validation failure is detected before any write and reported
//! through exactly one of these variants; no error is swallowed.

use vstd::prelude::*;
use crate::money::Money;

verus! {

/// Why a commit could not be persisted.
#[derive(Clone, Copy, Debug, PartialEq, Eq, Structural)]
pub enum FailureCause {
    /// The new balance would not fit the minor-unit representation.
    BalanceOverflow,
    /// No fresh record identifiers are left to allocate.
    IdSpaceExhausted,
    /// The storage collaborator reported a write failure.
    StorageUnavailable,
}

/// The outcome of a rejected ledger operation.
#[derive(Clone, Debug)]
pub enum LedgerError {
    /// No account with the requested id exists.
    AccountNotFound,
    /// The account exists but has been soft-deleted.
    AccountDeleted,
    /// A withdrawal request carried no items.
    MissingItems,
    /// A requested catalog code is not registered; carries that code.
    ItemNotFound(String),
    /// A requested quantity exceeds the stock on hand.
    InsufficientStock { upc: String, available: u64, requested: u64 },
    /// The account balance does not cover the required amount.
    InsufficientFunds { available: Money, required: Money },
    /// Another operation committed first; the caller may retry.
    ConcurrencyConflict,
    /// A bounded wait on the storage collaborator expired.
    Timeout,
    /// A write failed during the commit phase; every prior write of the
    /// unit has been rolled back.
    PersistenceFailure(FailureCause),
}

/// The ghost shape of a `LedgerError`, with catalog codes as character
/// sequences.
pub ghost enum LedgerErrorV {
    AccountNotFound,
    AccountDeleted,
    MissingItems,
    ItemNotFound(Seq<char>),
    InsufficientStock { upc: Seq<char>, available: u64, requested: u64 },
    InsufficientFunds { available: int, required: int },
    ConcurrencyConflict,
    Timeout,
    PersistenceFailure(FailureCause),
}

impl View for LedgerError {
    type V = LedgerErrorV;

    open spec fn view(&self) -> LedgerErrorV {
        match self {
            LedgerError::AccountNotFound => LedgerErrorV::AccountNotFound,
            LedgerError::AccountDeleted => LedgerErrorV::AccountDeleted,
            LedgerError::MissingItems => LedgerErrorV::MissingItems,
            LedgerError::ItemNotFound(upc) => LedgerErrorV::ItemNotFound(upc@),
            LedgerError::InsufficientStock { upc, available, requested } =>
                LedgerErrorV::InsufficientStock {
                    upc: upc@,
                    available: *available,
                    requested: *requested,
                },
            LedgerError::InsufficientFunds { available, required } =>
                LedgerErrorV::InsufficientFunds {
                    available: available@,
                    required: required@,
                },
            LedgerError::ConcurrencyConflict => LedgerErrorV::ConcurrencyConflict,
            LedgerError::Timeout => LedgerErrorV::Timeout,
            LedgerError::PersistenceFailure(cause) => LedgerErrorV::PersistenceFailure(*cause),
        }
    }
}

impl LedgerError {
    /// A short description of the error, for the reporting collaborator.
    pub fn message(&self) -> (r: String)
        ensures
            r@ == self.message_spec(),
    {
        match self {
            LedgerError::AccountNotFound => "Account not found".to_owned(),
            LedgerError::AccountDeleted => "Account deleted".to_owned(),
            LedgerError::MissingItems => "No items in withdrawal".to_owned(),
            LedgerError::ItemNotFound(_) => "Item not found".to_owned(),
            LedgerError::InsufficientStock { .. } => "Insufficient stock".to_owned(),
            LedgerError::InsufficientFunds { .. } => "Insufficient funds".to_owned(),
            LedgerError::ConcurrencyConflict => "Concurrent update, please retry".to_owned(),
            LedgerError::Timeout => "Timed out waiting for the store".to_owned(),
            LedgerError::PersistenceFailure(_) => "Could not persist the transaction".to_owned(),
        }
    }

    /// What `message` returns for each variant.
    pub open spec fn message_spec(&self) -> Seq<char> {
        match self {
            LedgerError::AccountNotFound => "Account not found"@,
            LedgerError::AccountDeleted => "Account deleted"@,
            LedgerError::MissingItems => "No items in withdrawal"@,
            LedgerError::ItemNotFound(_) => "Item not found"@,
            LedgerError::InsufficientStock { .. } => "Insufficient stock"@,
            LedgerError::InsufficientFunds { .. } => "Insufficient funds"@,
            LedgerError::ConcurrencyConflict => "Concurrent update, please retry"@,
            LedgerError::Timeout => "Timed out waiting for the store"@,
            LedgerError::PersistenceFailure(_) => "Could not persist the transaction"@,
        }
    }
}

} // verus!
