use vstd::prelude::*;

verus! {

/// `chrono::NaiveDate`, a calendar date without a time zone. The ledger only
/// carries dates; nothing in it looks inside one.
#[verifier::external_type_specification]
#[verifier::external_body]
pub struct ExChronoNaiveDate(chrono::NaiveDate);

/// The date of a transaction.
#[derive(Debug, Clone, Copy, PartialEq, Eq)]
pub struct Date(pub chrono::NaiveDate);

} // verus!
