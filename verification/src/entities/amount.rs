//! Signed decimal amounts with a tracked scale.
//!
//! An amount is a whole number, its mantissa, and a scale, the number of
//! digits after the decimal point; it stands for `mantissa / 10^scale`.
//! Parsing and arithmetic are done by `rust_decimal`, whose numbers have a
//! mantissa of at most 96 bits and a scale of at most 28.

use vstd::prelude::*;
use crate::error::LedgerError;

verus! {

/// `rust_decimal::Error`, which says why a text is no decimal number.
#[verifier::external_type_specification]
#[verifier::external_body]
pub struct ExDecimalError(rust_decimal::Error);

/// The largest mantissa, that of `rust_decimal::Decimal::MAX`: 2^96 - 1.
pub const MAX_MANTISSA: i128 = 0xFFFF_FFFF_FFFF_FFFF_FFFF_FFFF;

/// The largest scale, `rust_decimal::Decimal::MAX_SCALE`.
pub const MAX_SCALE: u32 = 28;

/// An amount as a pair of numbers: it stands for `mantissa / 10^scale`.
pub ghost struct AmountView {
    pub mantissa: int,
    pub scale: nat,
}

impl AmountView {
    /// Nothing, written without fractional digits.
    pub open spec fn zero() -> AmountView {
        AmountView { mantissa: 0, scale: 0 }
    }

    /// Whether a decimal number can hold the amount.
    pub open spec fn representable(self) -> bool {
        -MAX_MANTISSA <= self.mantissa <= MAX_MANTISSA && self.scale <= MAX_SCALE
    }

    /// The amount with the opposite sign.
    pub open spec fn negated(self) -> AmountView {
        AmountView { mantissa: -self.mantissa, scale: self.scale }
    }

    /// The sum of two amounts, written with the larger of the two scales.
    /// It is the sum of what the two stand for when they are
    /// [`aligned`](Self::aligned).
    pub open spec fn plus(self, other: AmountView) -> AmountView {
        AmountView {
            mantissa: self.mantissa + other.mantissa,
            scale: if self.scale >= other.scale {
                self.scale
            } else {
                other.scale
            },
        }
    }

    /// Whether two amounts can be added digit for digit: they have the same
    /// scale, or one of them is nothing and does not have the larger scale.
    pub open spec fn aligned(self, other: AmountView) -> bool {
        ||| self.scale == other.scale
        ||| self.mantissa == 0 && self.scale <= other.scale
        ||| self.mantissa != 0 && other.mantissa == 0 && other.scale <= self.scale
    }

    /// The sum of two amounts where it is exact: where they are aligned and
    /// the sum is representable.
    pub open spec fn exact_sum(self, other: AmountView) -> Option<AmountView> {
        if self.aligned(other) && self.plus(other).representable() {
            Some(self.plus(other))
        } else {
            None
        }
    }

    /// The difference of two amounts where it is exact.
    pub open spec fn exact_difference(self, other: AmountView) -> Option<AmountView> {
        self.exact_sum(other.negated())
    }
}

/// What `rust_decimal::Decimal::from_str_exact` makes of a text: the mantissa
/// and the scale of the number that it parses, or `None` where it fails.
pub uninterp spec fn decimal_from_str_exact(s: Seq<char>) -> Option<(int, nat)>;

/// Calls `rust_decimal::Decimal::from_str_exact` and takes the number apart
/// with `mantissa` and `scale`. The contract names the parsed number and
/// claims the bounds that every `Decimal` made by the parser keeps: a
/// mantissa of at most 96 bits and a scale of at most 28.
#[verifier::external_body]
fn parse_decimal(s: &str) -> (r: Result<(i128, u32), rust_decimal::Error>)
    ensures
        match r {
            Ok((mantissa, scale)) => {
                &&& decimal_from_str_exact(s@) == Some((mantissa as int, scale as nat))
                &&& -MAX_MANTISSA <= mantissa <= MAX_MANTISSA
                &&& scale <= MAX_SCALE
            },
            Err(_) => decimal_from_str_exact(s@) is None,
        },
{
    match rust_decimal::Decimal::from_str_exact(s) {
        Ok(decimal) => Ok((decimal.mantissa(), decimal.scale())),
        Err(error) => Err(error),
    }
}

/// Calls `rust_decimal::Decimal::checked_add` on the two numbers with the
/// given mantissas and scales. The contract claims that the sum is exact
/// where no digit has to be shifted and the result fits: with equal scales
/// the mantissas are added, and a zero operand that does not have the larger
/// scale leaves the other operand as it is.
#[verifier::external_body]
fn decimal_checked_add(a_mantissa: i128, a_scale: u32, b_mantissa: i128, b_scale: u32) -> (r:
    Option<(i128, u32)>)
    requires
        (AmountView { mantissa: a_mantissa as int, scale: a_scale as nat }).representable(),
        (AmountView { mantissa: b_mantissa as int, scale: b_scale as nat }).representable(),
        (AmountView { mantissa: a_mantissa as int, scale: a_scale as nat }).exact_sum(
            AmountView { mantissa: b_mantissa as int, scale: b_scale as nat },
        ) is Some,
    ensures
        r == Some(
            (
                (a_mantissa + b_mantissa) as i128,
                if a_scale >= b_scale {
                    a_scale
                } else {
                    b_scale
                },
            ),
        ),
{
    let a = rust_decimal::Decimal::try_from_i128_with_scale(a_mantissa, a_scale).ok()?;
    let b = rust_decimal::Decimal::try_from_i128_with_scale(b_mantissa, b_scale).ok()?;
    let sum = a.checked_add(b)?;
    Some((sum.mantissa(), sum.scale()))
}

/// Calls `rust_decimal::Decimal::checked_sub` on the two numbers with the
/// given mantissas and scales. The contract claims that the difference is
/// exact where no digit has to be shifted and the result fits, as for
/// `checked_add`.
#[verifier::external_body]
fn decimal_checked_sub(a_mantissa: i128, a_scale: u32, b_mantissa: i128, b_scale: u32) -> (r:
    Option<(i128, u32)>)
    requires
        (AmountView { mantissa: a_mantissa as int, scale: a_scale as nat }).representable(),
        (AmountView { mantissa: b_mantissa as int, scale: b_scale as nat }).representable(),
        (AmountView { mantissa: a_mantissa as int, scale: a_scale as nat }).exact_difference(
            AmountView { mantissa: b_mantissa as int, scale: b_scale as nat },
        ) is Some,
    ensures
        r == Some(
            (
                (a_mantissa - b_mantissa) as i128,
                if a_scale >= b_scale {
                    a_scale
                } else {
                    b_scale
                },
            ),
        ),
{
    let a = rust_decimal::Decimal::try_from_i128_with_scale(a_mantissa, a_scale).ok()?;
    let b = rust_decimal::Decimal::try_from_i128_with_scale(b_mantissa, b_scale).ok()?;
    let difference = a.checked_sub(b)?;
    Some((difference.mantissa(), difference.scale()))
}

/// What `Display` of `rust_decimal::Decimal` writes for the number with the
/// given mantissa and scale.
pub uninterp spec fn decimal_display(mantissa: int, scale: nat) -> Seq<char>;

/// Calls `Display` of `rust_decimal::Decimal` on the number with the given
/// mantissa and scale, and names what it writes.
#[verifier::external_body]
fn decimal_to_string(mantissa: i128, scale: u32) -> (s: String)
    requires
        (AmountView { mantissa: mantissa as int, scale: scale as nat }).representable(),
    ensures
        s@ == decimal_display(mantissa as int, scale as nat),
{
    match rust_decimal::Decimal::try_from_i128_with_scale(mantissa, scale) {
        Ok(decimal) => format!("{}", decimal),
        Err(_) => String::new(),
    }
}

/// A signed decimal amount.
#[derive(Clone, Copy, Debug, PartialEq, Eq)]
pub struct Amount {
    mantissa: i128,
    scale: u32,
}

impl View for Amount {
    type V = AmountView;

    closed spec fn view(&self) -> AmountView {
        AmountView { mantissa: self.mantissa as int, scale: self.scale as nat }
    }
}

impl Default for Amount {
    /// Nothing, written without fractional digits.
    fn default() -> (amount: Amount)
        ensures
            amount@ == AmountView::zero(),
    {
        Amount { mantissa: 0, scale: 0 }
    }
}

impl Amount {
    #[verifier::type_invariant]
    spec fn bounded(self) -> bool {
        self@.representable()
    }

    /// The amount `mantissa / 10^scale`, where a decimal number can hold it.
    pub fn new(mantissa: i128, scale: u32) -> (amount: Option<Amount>)
        ensures
            match amount {
                Some(a) => a@ == (AmountView { mantissa: mantissa as int, scale: scale as nat }),
                None => !(AmountView {
                    mantissa: mantissa as int,
                    scale: scale as nat,
                }).representable(),
            },
    {
        if -MAX_MANTISSA <= mantissa && mantissa <= MAX_MANTISSA && scale <= MAX_SCALE {
            Some(Amount { mantissa, scale })
        } else {
            None
        }
    }

    /// The whole number that the amount is written with.
    pub fn mantissa(&self) -> (mantissa: i128)
        ensures
            mantissa == self@.mantissa,
            self@.representable(),
    {
        proof {
            use_type_invariant(self);
        }
        self.mantissa
    }

    /// The number of digits after the decimal point.
    pub fn scale(&self) -> (scale: u32)
        ensures
            scale == self@.scale,
            self@.representable(),
    {
        proof {
            use_type_invariant(self);
        }
        self.scale
    }

    /// Parses a decimal number exactly: a text that would have to be rounded
    /// is refused.
    pub fn from_str(s: &str) -> (r: Result<Amount, LedgerError>)
        ensures
            match r {
                Ok(amount) => decimal_from_str_exact(s@) == Some(
                    (amount@.mantissa, amount@.scale),
                ),
                Err(error) => error is AmountFailedToParseDecimal && decimal_from_str_exact(s@)
                    is None,
            },
    {
        match parse_decimal(s) {
            Ok((mantissa, scale)) => Ok(Amount { mantissa, scale }),
            Err(error) => Err(LedgerError::AmountFailedToParseDecimal(error)),
        }
    }

    /// The sum of two amounts where it is exact, `None` where it is not.
    pub fn checked_add(self, rhs: Amount) -> (sum: Option<Amount>)
        ensures
            match self@.exact_sum(rhs@) {
                Some(v) => sum matches Some(a) && a@ == v,
                None => sum is None,
            },
    {
        proof {
            use_type_invariant(self);
            use_type_invariant(rhs);
        }
        let aligned = self.scale == rhs.scale || (self.mantissa == 0 && self.scale <= rhs.scale)
            || (self.mantissa != 0 && rhs.mantissa == 0 && rhs.scale <= self.scale);
        let total: i128 = self.mantissa + rhs.mantissa;
        if !aligned || total < -MAX_MANTISSA || total > MAX_MANTISSA {
            return None;
        }
        match decimal_checked_add(self.mantissa, self.scale, rhs.mantissa, rhs.scale) {
            Some((mantissa, scale)) => Some(Amount { mantissa, scale }),
            None => None,
        }
    }

    /// The difference of two amounts where it is exact, `None` where it is
    /// not.
    pub fn checked_sub(self, rhs: Amount) -> (difference: Option<Amount>)
        ensures
            match self@.exact_difference(rhs@) {
                Some(v) => difference matches Some(a) && a@ == v,
                None => difference is None,
            },
    {
        proof {
            use_type_invariant(self);
            use_type_invariant(rhs);
        }
        let aligned = self.scale == rhs.scale || (self.mantissa == 0 && self.scale <= rhs.scale)
            || (self.mantissa != 0 && rhs.mantissa == 0 && rhs.scale <= self.scale);
        let rest: i128 = self.mantissa - rhs.mantissa;
        if !aligned || rest < -MAX_MANTISSA || rest > MAX_MANTISSA {
            return None;
        }
        match decimal_checked_sub(self.mantissa, self.scale, rhs.mantissa, rhs.scale) {
            Some((mantissa, scale)) => Some(Amount { mantissa, scale }),
            None => None,
        }
    }

    /// Adds `rhs` to the amount.
    pub fn add_assign(&mut self, rhs: Amount)
        requires
            old(self)@.exact_sum(rhs@) is Some,
        ensures
            Some(final(self)@) == old(self)@.exact_sum(rhs@),
    {
        if let Some(sum) = self.checked_add(rhs) {
            *self = sum;
        }
    }

    /// Subtracts `rhs` from the amount.
    pub fn sub_assign(&mut self, rhs: Amount)
        requires
            old(self)@.exact_difference(rhs@) is Some,
        ensures
            Some(final(self)@) == old(self)@.exact_difference(rhs@),
    {
        if let Some(difference) = self.checked_sub(rhs) {
            *self = difference;
        }
    }

    /// The amount in decimal notation, with as many fractional digits as its
    /// scale says.
    pub fn to_string(&self) -> (s: String)
        ensures
            s@ == decimal_display(self@.mantissa, self@.scale),
    {
        proof {
            use_type_invariant(self);
        }
        decimal_to_string(self.mantissa, self.scale)
    }
}

/// A decimal amount that is not negative.
#[derive(Clone, Copy, Debug, PartialEq, Eq)]
pub struct NonNegativeAmount {
    amount: Amount,
}

impl View for NonNegativeAmount {
    type V = AmountView;

    closed spec fn view(&self) -> AmountView {
        self.amount@
    }
}

impl Default for NonNegativeAmount {
    /// Nothing, written without fractional digits.
    fn default() -> (amount: NonNegativeAmount)
        ensures
            amount@ == AmountView::zero(),
    {
        NonNegativeAmount { amount: Amount { mantissa: 0, scale: 0 } }
    }
}

impl NonNegativeAmount {
    #[verifier::type_invariant]
    spec fn not_negative(self) -> bool {
        self.amount@.mantissa >= 0 && self.amount@.representable()
    }

    /// The amount as a non-negative one, unless it is negative.
    pub fn from_amount(amount: Amount) -> (r: Result<NonNegativeAmount, LedgerError>)
        ensures
            match r {
                Ok(a) => amount@.mantissa >= 0 && a@ == amount@,
                Err(error) => amount@.mantissa < 0 && error
                    is NonNegativeAmountParsedNegativeDecimal,
            },
    {
        proof {
            use_type_invariant(amount);
        }
        if amount.mantissa < 0 {
            Err(LedgerError::NonNegativeAmountParsedNegativeDecimal)
        } else {
            Ok(NonNegativeAmount { amount })
        }
    }

    /// Parses a decimal number exactly and refuses a negative one. A zero
    /// written with a minus sign is not negative.
    pub fn from_str(s: &str) -> (r: Result<NonNegativeAmount, LedgerError>)
        ensures
            match decimal_from_str_exact(s@) {
                Some((mantissa, scale)) => if mantissa >= 0 {
                    r matches Ok(a) && a@ == (AmountView { mantissa, scale })
                } else {
                    r matches Err(error) && error is NonNegativeAmountParsedNegativeDecimal
                },
                None => r matches Err(error) && error is NonNegativeAmountFailedToParseDecimal,
            },
    {
        match parse_decimal(s) {
            Ok((mantissa, scale)) => NonNegativeAmount::from_amount(Amount { mantissa, scale }),
            Err(error) => Err(LedgerError::NonNegativeAmountFailedToParseDecimal(error)),
        }
    }

    /// The number of digits after the decimal point.
    pub fn scale(&self) -> (scale: u32)
        ensures
            scale == self@.scale,
    {
        self.amount.scale
    }

    /// The amount in decimal notation.
    pub fn to_string(&self) -> (s: String)
        ensures
            s@ == decimal_display(self@.mantissa, self@.scale),
    {
        proof {
            use_type_invariant(self);
        }
        decimal_to_string(self.amount.mantissa, self.amount.scale)
    }
}

impl Amount {
    /// The same amount with its sign free again.
    pub fn from(non_negative_amount: NonNegativeAmount) -> (amount: Amount)
        ensures
            amount@ == non_negative_amount@,
            amount@.mantissa >= 0,
    {
        proof {
            use_type_invariant(non_negative_amount);
        }
        non_negative_amount.amount
    }
}

} // verus!
