//! The errors of the ledger.

use vstd::prelude::*;
use crate::entities::{account, transaction, unit};

verus! {

/// `std::num::ParseIntError`, which says why a text is no whole number.
#[verifier::external_type_specification]
#[verifier::external_body]
pub struct ExParseIntError(std::num::ParseIntError);

/// Everything that the ledger can refuse.
#[derive(Debug)]
pub enum LedgerError {
    /// The text of a non-negative amount is no decimal number.
    NonNegativeAmountFailedToParseDecimal(rust_decimal::Error),
    /// The text of a non-negative amount is a negative number.
    NonNegativeAmountParsedNegativeDecimal,
    /// The text of an amount is no decimal number.
    AmountFailedToParseDecimal(rust_decimal::Error),
    /// The text of a transaction identifier is no whole number.
    TransactionIdFailedToParse(std::num::ParseIntError),
    /// An event does not fit the log that it was offered to.
    EventValidateForAppendingTo(EventValidateForAppendingToError),
    /// A balance left the range in which sums are exact.
    BalanceNotRepresentable,
    /// A report was asked to show a transaction that the log does not hold.
    ReportTransactionShowTransactionNotFound(transaction::Id),
    /// A move was asked for from an account to itself.
    ArgumentsInterpreterMoveAddSameAccount(account::Name),
}

/// Why a move does not fit the log: each of the four things that can be
/// wrong with it, where it is.
#[derive(Debug, PartialEq, Eq, PartialOrd, Ord)]
pub struct EventValidateForAppendingToErrorMoveAdded {
    pub transaction_not_found: Option<transaction::Id>,
    pub debit_account_not_found: Option<account::Name>,
    pub credit_account_not_found: Option<account::Name>,
    pub unit: Option<EventValidateForAppendingToErrorMoveAddedUnit>,
}

/// What is wrong with the unit of a move.
#[derive(Debug, PartialEq, Eq, PartialOrd, Ord)]
pub enum EventValidateForAppendingToErrorMoveAddedUnit {
    UnitNotFound(unit::Name),
    DecimalPlacesMismatch { unit_scale: u8, amount_scale: u32 },
}

/// Why an event does not fit the log.
#[derive(Debug, PartialEq, Eq, PartialOrd, Ord)]
pub enum EventValidateForAppendingToError {
    AccountCreatedNameCollision(account::Name),
    UnitCreatedNameCollision(unit::Name),
    MoveAdded(EventValidateForAppendingToErrorMoveAdded),
}

/// [`EventValidateForAppendingToErrorMoveAddedUnit`] with names as their
/// characters.
pub ghost enum MoveAddedUnitErrorView {
    UnitNotFound(Seq<char>),
    DecimalPlacesMismatch { unit_scale: u8, amount_scale: u32 },
}

/// [`EventValidateForAppendingToErrorMoveAdded`] with names as their
/// characters.
pub ghost struct MoveAddedErrorView {
    pub transaction_not_found: Option<transaction::Id>,
    pub debit_account_not_found: Option<Seq<char>>,
    pub credit_account_not_found: Option<Seq<char>>,
    pub unit: Option<MoveAddedUnitErrorView>,
}

/// [`EventValidateForAppendingToError`] with names as their characters.
pub ghost enum ValidationErrorView {
    AccountCreatedNameCollision(Seq<char>),
    UnitCreatedNameCollision(Seq<char>),
    MoveAdded(MoveAddedErrorView),
}

impl MoveAddedErrorView {
    /// The error that finds nothing wrong.
    pub open spec fn nothing() -> MoveAddedErrorView {
        MoveAddedErrorView {
            transaction_not_found: None,
            debit_account_not_found: None,
            credit_account_not_found: None,
            unit: None,
        }
    }
}

impl View for EventValidateForAppendingToErrorMoveAddedUnit {
    type V = MoveAddedUnitErrorView;

    open spec fn view(&self) -> MoveAddedUnitErrorView {
        match *self {
            EventValidateForAppendingToErrorMoveAddedUnit::UnitNotFound(name) => {
                MoveAddedUnitErrorView::UnitNotFound(name@)
            },
            EventValidateForAppendingToErrorMoveAddedUnit::DecimalPlacesMismatch {
                unit_scale,
                amount_scale,
            } => MoveAddedUnitErrorView::DecimalPlacesMismatch { unit_scale, amount_scale },
        }
    }
}

impl View for EventValidateForAppendingToErrorMoveAdded {
    type V = MoveAddedErrorView;

    open spec fn view(&self) -> MoveAddedErrorView {
        MoveAddedErrorView {
            transaction_not_found: self.transaction_not_found,
            debit_account_not_found: match self.debit_account_not_found {
                Some(name) => Some(name@),
                None => None,
            },
            credit_account_not_found: match self.credit_account_not_found {
                Some(name) => Some(name@),
                None => None,
            },
            unit: match self.unit {
                Some(unit) => Some(unit@),
                None => None,
            },
        }
    }
}

impl View for EventValidateForAppendingToError {
    type V = ValidationErrorView;

    open spec fn view(&self) -> ValidationErrorView {
        match *self {
            EventValidateForAppendingToError::AccountCreatedNameCollision(name) => {
                ValidationErrorView::AccountCreatedNameCollision(name@)
            },
            EventValidateForAppendingToError::UnitCreatedNameCollision(name) => {
                ValidationErrorView::UnitCreatedNameCollision(name@)
            },
            EventValidateForAppendingToError::MoveAdded(error) => ValidationErrorView::MoveAdded(
                error@,
            ),
        }
    }
}

impl Default for EventValidateForAppendingToErrorMoveAdded {
    /// The error that finds nothing wrong.
    fn default() -> (error: EventValidateForAppendingToErrorMoveAdded)
        ensures
            error@ == MoveAddedErrorView::nothing(),
    {
        EventValidateForAppendingToErrorMoveAdded {
            transaction_not_found: None,
            debit_account_not_found: None,
            credit_account_not_found: None,
            unit: None,
        }
    }
}

} // verus!
