use vstd::prelude::*;
use vstd::string::StringExecFns;
use crate::entities::date::Date;
use crate::error::LedgerError;

verus! {

/// The identifier of a transaction: its position, counted from one, among the
/// transactions that the log records.
#[derive(Clone, Copy, PartialEq, Eq, Debug, PartialOrd, Ord, Structural)]
pub struct Id(pub u64);

/// A recorded transaction with the identifier that its position gives it.
#[derive(Debug, Clone, Copy, PartialEq, Eq)]
pub struct Transaction {
    pub id: Id,
    pub date: Date,
}

/// Whether a character is one of the ten digits.
pub open spec fn is_digit(c: char) -> bool {
    48 <= c as u32 <= 57
}

/// The number that a sequence of digits stands for.
pub open spec fn digits_value(digits: Seq<char>) -> nat
    decreases digits.len(),
{
    if digits.len() == 0 {
        0
    } else {
        (digits_value(digits.drop_last()) * 10 + (digits.last() as u32 - 48)) as nat
    }
}

/// The number that a text stands for as `u64` reads it: at least one digit
/// and nothing but digits, after at most one plus sign, and a value that a
/// `u64` can hold.
pub open spec fn parsed_u64(s: Seq<char>) -> Option<u64> {
    let digits = if s.len() > 0 && s[0] == '+' {
        s.drop_first()
    } else {
        s
    };
    if digits.len() > 0 && (forall|i: int| 0 <= i < digits.len() ==> is_digit(#[trigger] digits[i]))
        && digits_value(digits) <= u64::MAX {
        Some(digits_value(digits) as u64)
    } else {
        None
    }
}

/// The digits that a number is written with, without leading zeros.
pub open spec fn decimal_digits(n: nat) -> Seq<char>
    decreases n,
{
    if n < 10 {
        seq![seq!['0', '1', '2', '3', '4', '5', '6', '7', '8', '9'][n as int]]
    } else {
        decimal_digits(n / 10).push(
            seq!['0', '1', '2', '3', '4', '5', '6', '7', '8', '9'][(n % 10) as int],
        )
    }
}

/// Calls `str::parse` for `u64`, which reads a whole number in decimal
/// notation: an optional plus sign and then digits only. The contract says
/// which number comes out, and that every other text is an error.
#[verifier::external_body]
fn parse_u64(s: &str) -> (r: Result<u64, std::num::ParseIntError>)
    ensures
        match r {
            Ok(n) => parsed_u64(s@) == Some(n),
            Err(_) => parsed_u64(s@) is None,
        },
{
    s.parse::<u64>()
}

/// The text of one digit.
fn digit(d: u64) -> (s: &'static str)
    requires
        d < 10,
    ensures
        s@ == decimal_digits(d as nat),
{
    proof {
        reveal_strlit("0");
        reveal_strlit("1");
        reveal_strlit("2");
        reveal_strlit("3");
        reveal_strlit("4");
        reveal_strlit("5");
        reveal_strlit("6");
        reveal_strlit("7");
        reveal_strlit("8");
        reveal_strlit("9");
    }
    let s = if d == 0 {
        "0"
    } else if d == 1 {
        "1"
    } else if d == 2 {
        "2"
    } else if d == 3 {
        "3"
    } else if d == 4 {
        "4"
    } else if d == 5 {
        "5"
    } else if d == 6 {
        "6"
    } else if d == 7 {
        "7"
    } else if d == 8 {
        "8"
    } else {
        "9"
    };
    assert(s@ =~= decimal_digits(d as nat));
    s
}

/// Writes a number in decimal notation behind `out`.
fn push_decimal(out: &mut String, n: u64)
    ensures
        final(out)@ == old(out)@ + decimal_digits(n as nat),
    decreases n,
{
    if n >= 10 {
        push_decimal(out, n / 10);
        out.append(digit(n % 10));
        assert(out@ =~= old(out)@ + decimal_digits(n as nat));
    } else {
        out.append(digit(n));
    }
}

impl Id {
    /// Reads an identifier from a whole number in decimal notation.
    pub fn from_str(s: &str) -> (r: Result<Id, LedgerError>)
        ensures
            match parsed_u64(s@) {
                Some(n) => r matches Ok(id) && id.0 == n,
                None => r matches Err(LedgerError::TransactionIdFailedToParse(_)),
            },
    {
        match parse_u64(s) {
            Ok(n) => Ok(Id(n)),
            Err(error) => Err(LedgerError::TransactionIdFailedToParse(error)),
        }
    }

    /// The identifier as it is shown: a number sign and the number.
    pub fn to_string(&self) -> (s: String)
        ensures
            s@ == seq!['#'] + decimal_digits(self.0 as nat),
    {
        proof {
            reveal_strlit("#");
        }
        let mut s = "#".to_owned();
        assert(s@ =~= seq!['#']);
        push_decimal(&mut s, self.0);
        s
    }
}

} // verus!
