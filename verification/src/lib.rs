//! Ledger rules for value transfers between addresses: folding an address's
//! transaction history into its balance, and deciding whether a proposed
//! transaction is admissible against that history.

pub mod address;
pub mod amount;
pub mod balance;
pub mod config;
pub mod transaction;
pub mod validation;
