//! Monetary amounts with four fractional decimal digits.
//!
//! An [`Amount`] is held as its count of ten-thousandths. Decimal text is
//! read, rounded, added, subtracted and ordered by `rust_decimal`; each
//! function of this module that calls into it states what it relies on, and
//! everything else is proved from those statements.

use crate::error::ApplicationError;
use rust_decimal::Decimal;
use vstd::prelude::*;

verus! {

/// Number of fractional decimal digits of every amount.
pub const AMOUNT_SCALE: u32 = 4;

/// Largest scale a decimal can carry.
pub const MAX_DECIMAL_SCALE: u32 = 28;

/// Largest magnitude of a decimal's 96-bit mantissa, and so of an amount's
/// count of ten-thousandths.
pub const MAX_UNITS: i128 = 0xFFFF_FFFF_FFFF_FFFF_FFFF_FFFF;

/// Whether `units` fits the mantissa of a decimal.
pub open spec fn units_in_range(units: int) -> bool {
    -MAX_UNITS <= units <= MAX_UNITS
}

/// Ten to the power `exp`.
pub open spec fn pow10(exp: nat) -> int
    decreases exp,
{
    if exp == 0 {
        1
    } else {
        10 * pow10((exp - 1) as nat)
    }
}

/// `mantissa` divided by ten to the power `digits`, rounded to the nearest
/// integer, a tie going to the even neighbour.
pub open spec fn round_half_even(mantissa: int, digits: nat) -> int {
    let divisor = pow10(digits);
    let magnitude = if mantissa < 0 { -mantissa } else { mantissa };
    let quotient = magnitude / divisor;
    let remainder = magnitude % divisor;
    let rounded = if 2 * remainder > divisor || (2 * remainder == divisor && quotient % 2 == 1) {
        quotient + 1
    } else {
        quotient
    };
    if mantissa < 0 { -rounded } else { rounded }
}

/// The count of ten-thousandths that stands for the decimal `mantissa`
/// over ten to the power `scale`: exact where the decimal has at most four
/// fractional digits, rounded half to even where it has more.
pub open spec fn units_of_decimal(mantissa: int, scale: nat) -> int {
    if scale <= AMOUNT_SCALE {
        mantissa * pow10((AMOUNT_SCALE - scale) as nat)
    } else {
        round_half_even(mantissa, (scale - AMOUNT_SCALE) as nat)
    }
}

/// Whether a mantissa and a scale are those of a decimal that an amount can
/// stand for.
pub open spec fn decimal_is_amount(mantissa: int, scale: nat) -> bool {
    &&& units_in_range(mantissa)
    &&& scale <= MAX_DECIMAL_SCALE
    &&& units_in_range(units_of_decimal(mantissa, scale))
}

/// The mantissa and the scale that `rust_decimal` reads from `text`, or
/// `None` where it rejects the text.
pub uninterp spec fn decimal_text_value(text: Seq<char>) -> Option<(int, nat)>;

/// The count of ten-thousandths that `text` denotes, or `None` where the
/// text is no decimal or denotes more than an amount can hold.
pub open spec fn text_units(text: Seq<char>) -> Option<int> {
    match decimal_text_value(text) {
        Some((mantissa, scale)) => if decimal_is_amount(mantissa, scale) {
            Some(units_of_decimal(mantissa, scale))
        } else {
            None
        },
        None => None,
    }
}

/// The error that `rust_decimal` reports for text it cannot read.
#[verifier::external_type_specification]
#[verifier::external_body]
pub struct ExDecimalError(rust_decimal::Error);

/// Reads decimal text with `Decimal::from_str_exact` and hands out the
/// mantissa and the scale of what was read.
///
/// Trusted: the outcome depends on the text alone, and a decimal that was
/// read has a mantissa of at most 96 bits and a scale of at most 28.
#[verifier::external_body]
fn decimal_from_str_exact(text: &str) -> (parsed: Result<(i128, u32), rust_decimal::Error>)
    ensures
        match parsed {
            Ok((mantissa, scale)) => {
                &&& decimal_text_value(text@) == Some((mantissa as int, scale as nat))
                &&& units_in_range(mantissa as int)
                &&& scale <= MAX_DECIMAL_SCALE
            },
            Err(_) => decimal_text_value(text@) is None,
        },
{
    match Decimal::from_str_exact(text) {
        Ok(d) => Ok((d.mantissa(), d.scale())),
        Err(e) => Err(e),
    }
}

/// The text with which `rust_decimal` describes one of its errors.
///
/// Trusted: nothing is claimed of the text.
#[verifier::external_body]
fn decimal_error_text(error: &rust_decimal::Error) -> String {
    error.to_string()
}

/// Rounds a decimal to at most `dp` fractional digits with
/// `Decimal::round_dp`.
///
/// Trusted: a decimal of at most `dp` fractional digits comes back
/// unchanged; any other is rounded to `dp` digits, half to even.
#[verifier::external_body]
fn decimal_round_dp(mantissa: i128, scale: u32, dp: u32) -> (rounded: (i128, u32))
    requires
        units_in_range(mantissa as int),
        scale <= MAX_DECIMAL_SCALE,
    ensures
        units_in_range(rounded.0 as int),
        scale <= dp ==> rounded == (mantissa, scale),
        scale > dp ==> rounded.0 == round_half_even(mantissa as int, (scale - dp) as nat)
            && rounded.1 == dp,
{
    let d = Decimal::from_i128_with_scale(mantissa, scale).round_dp(dp);
    (d.mantissa(), d.scale())
}

/// Adds two decimals of one scale with `Decimal::checked_add`.
///
/// Trusted: where the sum of the mantissas fits 96 bits, the result has
/// that sum as its mantissa and the operands' scale; where it does not, the
/// crate gives up a fractional digit or reports overflow.
#[verifier::external_body]
fn decimal_checked_add(lhs: i128, rhs: i128, scale: u32) -> (sum: Option<(i128, u32)>)
    requires
        units_in_range(lhs as int),
        units_in_range(rhs as int),
        scale <= MAX_DECIMAL_SCALE,
    ensures
        units_in_range(lhs + rhs) ==> sum == Some(((lhs + rhs) as i128, scale)),
        !units_in_range(lhs + rhs) ==> (sum matches Some(parts) ==> parts.1 < scale),
{
    let lhs = Decimal::from_i128_with_scale(lhs, scale);
    let rhs = Decimal::from_i128_with_scale(rhs, scale);
    match lhs.checked_add(rhs) {
        Some(d) => Some((d.mantissa(), d.scale())),
        None => None,
    }
}

/// Subtracts two decimals of one scale with `Decimal::checked_sub`.
///
/// Trusted: where the difference of the mantissas fits 96 bits, the result
/// has that difference as its mantissa and the operands' scale; where it
/// does not, the crate gives up a fractional digit or reports overflow.
#[verifier::external_body]
fn decimal_checked_sub(lhs: i128, rhs: i128, scale: u32) -> (difference: Option<(i128, u32)>)
    requires
        units_in_range(lhs as int),
        units_in_range(rhs as int),
        scale <= MAX_DECIMAL_SCALE,
    ensures
        units_in_range(lhs - rhs) ==> difference == Some(((lhs - rhs) as i128, scale)),
        !units_in_range(lhs - rhs) ==> (difference matches Some(parts) ==> parts.1 < scale),
{
    let lhs = Decimal::from_i128_with_scale(lhs, scale);
    let rhs = Decimal::from_i128_with_scale(rhs, scale);
    match lhs.checked_sub(rhs) {
        Some(d) => Some((d.mantissa(), d.scale())),
        None => None,
    }
}

/// Orders two decimals of one scale with `>=` on `Decimal`.
///
/// Trusted: decimals of equal scale are ordered as their mantissas are.
#[verifier::external_body]
fn decimal_ge(lhs: i128, rhs: i128, scale: u32) -> (ordered: bool)
    requires
        units_in_range(lhs as int),
        units_in_range(rhs as int),
        scale <= MAX_DECIMAL_SCALE,
    ensures
        ordered == (lhs >= rhs),
{
    Decimal::from_i128_with_scale(lhs, scale) >= Decimal::from_i128_with_scale(rhs, scale)
}

/// Ten to the power `digits`, for the few digits an amount can lack.
fn power_of_ten(digits: u32) -> (power: i128)
    requires
        digits <= AMOUNT_SCALE,
    ensures
        power == pow10(digits as nat),
        1 <= power <= 10_000,
{
    let mut power: i128 = 1;
    let mut done: u32 = 0;
    while done < digits
        invariant
            done <= digits <= AMOUNT_SCALE,
            power == pow10(done as nat),
            1 <= power <= 10_000,
        decreases digits - done,
    {
        proof {
            reveal_with_fuel(pow10, 5);
        }
        power = 10 * power;
        done = done + 1;
    }
    power
}

/// A decimal amount with four fractional digits.
#[derive(Clone, Copy, Debug, PartialEq, Eq, Structural)]
pub struct Amount {
    units: i128,
}

impl View for Amount {
    type V = int;

    /// The amount as its count of ten-thousandths.
    closed spec fn view(&self) -> int {
        self.units as int
    }
}

impl Amount {
    /// Every amount fits the mantissa of a decimal.
    #[verifier::type_invariant]
    pub open spec fn in_range(self) -> bool {
        units_in_range(self@)
    }

    /// The amount zero.
    pub fn zero() -> (amount: Amount)
        ensures
            amount@ == 0,
    {
        Amount { units: 0 }
    }

    /// The amount of `units` ten-thousandths, or `None` where that is more
    /// than an amount can hold.
    pub fn from_units(units: i128) -> (amount: Option<Amount>)
        ensures
            match amount {
                Some(a) => units_in_range(units as int) && a@ == units,
                None => !units_in_range(units as int),
            },
    {
        if -MAX_UNITS <= units && units <= MAX_UNITS {
            Some(Amount { units })
        } else {
            None
        }
    }

    /// The amount as its count of ten-thousandths.
    pub fn units(self) -> (units: i128)
        ensures
            units == self@,
            units_in_range(units as int),
    {
        proof {
            use_type_invariant(self);
        }
        self.units
    }

    /// The amount that stands for the decimal `mantissa` over ten to the
    /// power `scale`, rounded half to even to four fractional digits, or
    /// `None` where the parts are those of no decimal or the amount would
    /// not fit.
    pub fn from_decimal_parts(mantissa: i128, scale: u32) -> (amount: Option<Amount>)
        ensures
            match amount {
                Some(a) => decimal_is_amount(mantissa as int, scale as nat) && a@
                    == units_of_decimal(mantissa as int, scale as nat),
                None => !decimal_is_amount(mantissa as int, scale as nat),
            },
    {
        if mantissa < -MAX_UNITS || mantissa > MAX_UNITS || scale > MAX_DECIMAL_SCALE {
            return None;
        }
        let rounded: (i128, u32) = decimal_round_dp(mantissa, scale, AMOUNT_SCALE);
        let factor: i128 = power_of_ten(AMOUNT_SCALE - rounded.1);
        assert(-MAX_UNITS * 10_000 <= rounded.0 * factor <= MAX_UNITS * 10_000)
            by (nonlinear_arith)
            requires
                -MAX_UNITS <= rounded.0 <= MAX_UNITS,
                1 <= factor <= 10_000,
        ;
        proof {
            reveal_with_fuel(pow10, 1);
        }
        Amount::from_units(rounded.0 * factor)
    }

    /// Reads an amount from decimal text and rounds it half to even to four
    /// fractional digits. Text that is no decimal, or that denotes more than
    /// an amount can hold, is a malformed record.
    pub fn parse(text: &str) -> (amount: Result<Amount, ApplicationError>)
        ensures
            match amount {
                Ok(a) => text_units(text@) == Some(a@),
                Err(e) => text_units(text@) is None
                    && e is FailedDeserializedCsvTransaction,
            },
    {
        match decimal_from_str_exact(text) {
            Ok((mantissa, scale)) => match Amount::from_decimal_parts(mantissa, scale) {
                Some(amount) => Ok(amount),
                None => Err(
                    ApplicationError::FailedDeserializedCsvTransaction(
                        "Invalid decimal: amount out of range".to_owned(),
                    ),
                ),
            },
            Err(error) => Err(
                ApplicationError::FailedDeserializedCsvTransaction(decimal_error_text(&error)),
            ),
        }
    }

    /// The sum of two amounts, or `None` where it is more than an amount
    /// can hold.
    pub fn checked_add(self, rhs: Amount) -> (sum: Option<Amount>)
        ensures
            match sum {
                Some(s) => units_in_range(self@ + rhs@) && s@ == self@ + rhs@,
                None => !units_in_range(self@ + rhs@),
            },
    {
        proof {
            use_type_invariant(self);
            use_type_invariant(rhs);
        }
        match decimal_checked_add(self.units, rhs.units, AMOUNT_SCALE) {
            Some((units, scale)) => if scale == AMOUNT_SCALE {
                Some(Amount { units })
            } else {
                None
            },
            None => None,
        }
    }

    /// The difference of two amounts, or `None` where it is more than an
    /// amount can hold.
    pub fn checked_sub(self, rhs: Amount) -> (difference: Option<Amount>)
        ensures
            match difference {
                Some(d) => units_in_range(self@ - rhs@) && d@ == self@ - rhs@,
                None => !units_in_range(self@ - rhs@),
            },
    {
        proof {
            use_type_invariant(self);
            use_type_invariant(rhs);
        }
        match decimal_checked_sub(self.units, rhs.units, AMOUNT_SCALE) {
            Some((units, scale)) => if scale == AMOUNT_SCALE {
                Some(Amount { units })
            } else {
                None
            },
            None => None,
        }
    }

    /// Whether this amount is at least `rhs`.
    pub fn at_least(self, rhs: Amount) -> (ordered: bool)
        ensures
            ordered == (self@ >= rhs@),
    {
        proof {
            use_type_invariant(self);
            use_type_invariant(rhs);
        }
        decimal_ge(self.units, rhs.units, AMOUNT_SCALE)
    }
}

} // verus!
