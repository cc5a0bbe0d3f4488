//! A personal double-entry ledger: an append-only event log with append-time
//! validation, and the projections (accounts, units, transactions, moves,
//! balances, running balances) that are derived from it.

pub mod arguments_interpreter;
pub mod cli;
pub mod entities;
pub mod error;
pub mod events;
pub mod laws;
pub mod reports;
pub mod sorted_map;
pub mod views;
