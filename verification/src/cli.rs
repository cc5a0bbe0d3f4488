//! What can be asked of the ledger, as a request holds it once its words are
//! parsed.

use vstd::prelude::*;
use crate::entities::amount::NonNegativeAmount;
use crate::entities::date::Date;
use crate::entities::{account, transaction, unit};

verus! {

/// A request.
pub struct Arguments {
    pub category: Category,
}

/// What a request is about.
pub enum Category {
    Account(Account),
    Transaction(Transaction),
    Unit(Unit),
    Move(Move),
    Balances,
    RunningBalance(RunningBalance),
}

/// What can be done with accounts.
pub enum Account {
    Create(AccountCreate),
}

/// Creates an account.
pub struct AccountCreate {
    pub kind: account::Kind,
    pub name: account::Name,
}

/// What can be done with transactions.
pub enum Transaction {
    Record(TransactionRecord),
    Show(TransactionShow),
}

/// Records a transaction.
pub struct TransactionRecord {
    pub date: Date,
}

/// Shows a transaction.
pub struct TransactionShow {
    pub id: transaction::Id,
}

/// What can be done with units.
pub enum Unit {
    Create(UnitCreate),
}

/// Creates a unit.
pub struct UnitCreate {
    pub decimal_places: u8,
    pub name: unit::Name,
}

/// What can be done with moves.
pub enum Move {
    Add(MoveAdd),
}

/// Asks for the running balance of an account in a unit.
pub struct RunningBalance {
    pub account: account::Name,
    pub unit: unit::Name,
}

/// Adds a move to a transaction.
#[derive(Debug, Clone)]
pub struct MoveAdd {
    pub transaction: transaction::Id,
    pub debit_account: account::Name,
    pub credit_account: account::Name,
    pub amount: NonNegativeAmount,
    pub unit: unit::Name,
}

} // verus!
