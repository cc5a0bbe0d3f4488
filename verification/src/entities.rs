//! The value types of the ledger.

pub mod account;
pub mod amount;
pub mod balance;
pub mod date;
pub mod move_;
pub mod transaction;
pub mod unit;
