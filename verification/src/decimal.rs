//! Fixed-point decimal numbers of `rust_decimal`, seen by the verifier through
//! the names of what its operations return.
use rust_decimal::Decimal;
use vstd::prelude::*;

verus! {

#[verifier::external_type_specification]
#[verifier::external_body]
pub struct ExDecimal(Decimal);

#[verifier::external_type_specification]
#[verifier::external_body]
pub struct ExDecimalError(rust_decimal::Error);

/// The sum that `Decimal::checked_add` returns (`None` on overflow).
pub uninterp spec fn decimal_checked_add(a: Decimal, b: Decimal) -> Option<Decimal>;

/// The difference that `Decimal::checked_sub` returns (`None` on overflow).
pub uninterp spec fn decimal_checked_sub(a: Decimal, b: Decimal) -> Option<Decimal>;

/// The product that `Decimal::checked_mul` returns (`None` on overflow).
pub uninterp spec fn decimal_checked_mul(a: Decimal, b: Decimal) -> Option<Decimal>;

/// The quotient that `Decimal::checked_div` returns (`None` on overflow or division by zero).
pub uninterp spec fn decimal_checked_div(a: Decimal, b: Decimal) -> Option<Decimal>;

/// Whether `Decimal::is_zero` holds of a value.
pub uninterp spec fn decimal_is_zero(a: Decimal) -> bool;

/// The value that `Decimal::abs` returns.
pub uninterp spec fn decimal_abs(a: Decimal) -> Decimal;



/// The value that `Decimal::new(num, scale)` returns: `num * 10^-scale`.
pub uninterp spec fn decimal_new(num: i64, scale: u32) -> Decimal;

/// Whether `a < b` in the numeric order of `Decimal`.
pub uninterp spec fn decimal_lt(a: Decimal, b: Decimal) -> bool;

/// Whether `a <= b` in the numeric order of `Decimal`.
pub uninterp spec fn decimal_le(a: Decimal, b: Decimal) -> bool;

/// Whether `a > b` in the numeric order of `Decimal`.
pub uninterp spec fn decimal_gt(a: Decimal, b: Decimal) -> bool;

/// Whether `a >= b` in the numeric order of `Decimal`.
pub uninterp spec fn decimal_ge(a: Decimal, b: Decimal) -> bool;

/// The value that `Decimal::min` returns: `other` where `self > other`, else `self`.
pub open spec fn decimal_min(a: Decimal, b: Decimal) -> Decimal {
    if decimal_gt(a, b) {
        b
    } else {
        a
    }
}

/// The text that `Decimal`'s `Display` writes for a value.
pub uninterp spec fn decimal_display(a: Decimal) -> Seq<char>;

/// What `Decimal`'s `FromStr` implementation returns for a text.
pub uninterp spec fn decimal_parsed(text: Seq<char>) -> Result<Decimal, rust_decimal::Error>;

/// What `Decimal::from_str_exact` returns for a text.
pub uninterp spec fn decimal_parsed_exact(text: Seq<char>) -> Result<Decimal, rust_decimal::Error>;

/// The zero of `Decimal`.
pub open spec fn dec_zero() -> Decimal {
    decimal_new(0, 0)
}

/// `Clone` of `Decimal`, a `Copy` type whose derived clone returns the same value.
pub assume_specification[ <Decimal as Clone>::clone ](a: &Decimal) -> (r: Decimal)
    ensures
        r == *a,
;

/// `Decimal::checked_add`: the sum, or `None` where the exact result cannot be held.
pub assume_specification[ Decimal::checked_add ](a: Decimal, b: Decimal) -> (r: Option<Decimal>)
    ensures
        r == decimal_checked_add(a, b),
;

/// `Decimal::checked_sub`: the difference, or `None` where it cannot be held.
pub assume_specification[ Decimal::checked_sub ](a: Decimal, b: Decimal) -> (r: Option<Decimal>)
    ensures
        r == decimal_checked_sub(a, b),
;

/// `Decimal::checked_mul`: the product, or `None` where it cannot be held.
pub assume_specification[ Decimal::checked_mul ](a: Decimal, b: Decimal) -> (r: Option<Decimal>)
    ensures
        r == decimal_checked_mul(a, b),
;

/// `Decimal::checked_div`: the quotient, or `None` on overflow or a zero divisor.
pub assume_specification[ Decimal::checked_div ](a: Decimal, b: Decimal) -> (r: Option<Decimal>)
    ensures
        r == decimal_checked_div(a, b),
;

/// `Decimal::is_zero`: whether the mantissa is zero.
pub assume_specification[ Decimal::is_zero ](a: &Decimal) -> (r: bool)
    ensures
        r == decimal_is_zero(*a),
;

/// `Decimal::abs`: the absolute value (never fails).
pub assume_specification[ Decimal::abs ](a: &Decimal) -> (r: Decimal)
    ensures
        r == decimal_abs(*a),
;

/// `Decimal::min`: `b` where `a > b`, else `a`.
pub assume_specification[ Decimal::min ](a: Decimal, b: Decimal) -> (r: Decimal)
    ensures
        r == decimal_min(a, b),
;

/// `Decimal::from_str_exact`: parses a text without rounding.
pub assume_specification[ Decimal::from_str_exact ](text: &str) -> (r: Result<Decimal, rust_decimal::Error>)
    ensures
        r == decimal_parsed_exact(text@),
;

/// `Decimal::new(num, scale)`: `num * 10^-scale`; it panics when `scale > 28`.
#[verifier::external_body]
pub(crate) fn dec_new(num: i64, scale: u32) -> (r: Decimal)
    requires
        scale <= 28,
    ensures
        r == decimal_new(num, scale),
{
    Decimal::new(num, scale)
}

/// `a < b` for `Decimal` (its `PartialOrd::lt`).
#[verifier::external_body]
pub(crate) fn dec_lt(a: Decimal, b: Decimal) -> (r: bool)
    ensures
        r == decimal_lt(a, b),
{
    a < b
}

/// `a <= b` for `Decimal` (its `PartialOrd::le`).
#[verifier::external_body]
pub(crate) fn dec_le(a: Decimal, b: Decimal) -> (r: bool)
    ensures
        r == decimal_le(a, b),
{
    a <= b
}

/// `a > b` for `Decimal` (its `PartialOrd::gt`).
#[verifier::external_body]
pub(crate) fn dec_gt(a: Decimal, b: Decimal) -> (r: bool)
    ensures
        r == decimal_gt(a, b),
{
    a > b
}

/// `a >= b` for `Decimal` (its `PartialOrd::ge`).
#[verifier::external_body]
pub(crate) fn dec_ge(a: Decimal, b: Decimal) -> (r: bool)
    ensures
        r == decimal_ge(a, b),
{
    a >= b
}

/// The text of a `Decimal` as its `Display` writes it.
#[verifier::external_body]
pub(crate) fn dec_text(a: Decimal) -> (r: String)
    ensures
        r@ == decimal_display(a),
{
    a.to_string()
}

/// Parses a `Decimal` with its `FromStr` implementation.
#[verifier::external_body]
pub(crate) fn dec_parse(text: &str) -> (r: Result<Decimal, rust_decimal::Error>)
    ensures
        r == decimal_parsed(text@),
{
    text.parse::<Decimal>()
}

/// The zero of `Decimal`, built as `Decimal::new(0, 0)`.
pub fn zero() -> (r: Decimal)
    ensures
        r == dec_zero(),
{
    dec_new(0, 0)
}

} // verus!
