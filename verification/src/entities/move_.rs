use vstd::prelude::*;
use crate::entities::amount::{AmountView, NonNegativeAmount};
use crate::entities::{account, transaction, unit};

verus! {

/// A transfer of an amount of a unit from the debit account to the credit
/// account, attached to a transaction.
#[derive(Debug)]
pub struct Move {
    pub transaction: transaction::Id,
    pub debit_account: account::Name,
    pub credit_account: account::Name,
    pub amount: NonNegativeAmount,
    pub unit: unit::Name,
}

/// What a [`Move`] holds, with names as their characters and the amount as
/// its mantissa and scale.
pub ghost struct MoveView {
    pub transaction: transaction::Id,
    pub debit_account: Seq<char>,
    pub credit_account: Seq<char>,
    pub amount: AmountView,
    pub unit: Seq<char>,
}

impl View for Move {
    type V = MoveView;

    open spec fn view(&self) -> MoveView {
        MoveView {
            transaction: self.transaction,
            debit_account: self.debit_account@,
            credit_account: self.credit_account@,
            amount: self.amount@,
            unit: self.unit@,
        }
    }
}

} // verus!
