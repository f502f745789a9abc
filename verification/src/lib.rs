//! Account ledger and commissary fulfillment engine.
//!
//! Residents hold monetary accounts that can be credited and that can be
//! drawn down by purchasing inventory items. The engine validates funds,
//! resolves and decrements inventory, records immutable ledger and
//! inventory-movement entries, and updates the account balance, all as one
//! atomic unit: either every write of an operation is applied or none is.

pub mod auth;
pub mod engine;
pub mod errors;
pub mod laws;
pub mod locations;
pub mod money;
pub mod orders;
pub mod records;
pub mod resolver;
pub mod residents;
pub mod response;
pub mod store;
