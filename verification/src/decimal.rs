//! Exact decimal amounts.
//!
//! An [`Amount`] is a signed 96-bit integer mantissa together with a scale, the
//! number of digits after the decimal point: the number it stands for is
//! `mantissa / 10^scale`. Addition, subtraction, multiplication, division and
//! rounding are done by `rust_decimal`; what they return is named here and the
//! rest of the library is proved against those names.

use vstd::prelude::*;

verus! {

/// The largest magnitude a mantissa may have: `2^96 - 1`.
pub const MAX_MANTISSA: i128 = 79_228_162_514_264_337_593_543_950_335;

/// The largest scale an amount may have.
pub const MAX_SCALE: u32 = 28;

/// What an [`Amount`] holds, as mathematical integers.
pub struct DecimalValue {
    pub mantissa: int,
    pub scale: int,
}

/// An exact decimal number.
#[derive(Clone, Copy, Debug)]
pub struct Amount {
    mantissa: i128,
    scale: u32,
}

/// Whether a mantissa and a scale are those of a representable decimal.
pub open spec fn representable(mantissa: int, scale: int) -> bool {
    -(MAX_MANTISSA as int) <= mantissa <= MAX_MANTISSA as int && 0 <= scale <= MAX_SCALE as int
}

/// The decimal zero with no fractional digits.
pub open spec fn zero_value() -> DecimalValue {
    DecimalValue { mantissa: 0, scale: 0 }
}

/// The whole number `n`.
pub open spec fn whole_value(n: int) -> DecimalValue {
    DecimalValue { mantissa: n, scale: 0 }
}

/// The number with the opposite sign.
pub open spec fn negated(v: DecimalValue) -> DecimalValue {
    DecimalValue { mantissa: -v.mantissa, scale: v.scale }
}

/// The magnitude of a number.
pub open spec fn magnitude(v: DecimalValue) -> DecimalValue {
    DecimalValue { mantissa: if v.mantissa < 0 { -v.mantissa } else { v.mantissa }, scale: v.scale }
}

/// What `rust_decimal` returns for the sum of two decimals that are not zero:
/// mantissa and scale of the result, or `None` when it reports an overflow.
pub uninterp spec fn decimal_sum(a_mantissa: int, a_scale: int, b_mantissa: int, b_scale: int) -> Option<(int, int)>;

/// What `rust_decimal` returns for the difference of two decimals that are not zero.
pub uninterp spec fn decimal_difference(a_mantissa: int, a_scale: int, b_mantissa: int, b_scale: int) -> Option<(int, int)>;

/// What `rust_decimal` returns for the product of two decimals that are not zero.
pub uninterp spec fn decimal_product(a_mantissa: int, a_scale: int, b_mantissa: int, b_scale: int) -> Option<(int, int)>;

/// What `rust_decimal` returns for the quotient of two decimals that are not zero.
pub uninterp spec fn decimal_quotient(a_mantissa: int, a_scale: int, b_mantissa: int, b_scale: int) -> Option<(int, int)>;

/// What `rust_decimal` returns when it rounds a decimal to `places` fractional
/// digits, ties going to the even digit.
pub uninterp spec fn decimal_rounded(mantissa: int, scale: int, places: int) -> (int, int);

/// What `rust_decimal` reads a text as: mantissa and scale, or `None` where
/// it does not take the text for a number.
pub uninterp spec fn decimal_parsed(text: Seq<char>) -> Option<(int, int)>;

/// Ten to the power of `exponent`.
pub open spec fn pow10(exponent: int) -> int
    decreases exponent,
{
    if exponent <= 0 {
        1
    } else {
        10 * pow10(exponent - 1)
    }
}

/// Whether a decimal is greater than a whole number.
pub open spec fn exceeds(v: DecimalValue, whole: int) -> bool {
    v.mantissa > whole * pow10(v.scale)
}

/// A named result as a decimal value.
pub open spec fn as_value(r: Option<(int, int)>) -> Option<DecimalValue> {
    match r {
        Some(p) => Some(DecimalValue { mantissa: p.0, scale: p.1 }),
        None => None,
    }
}

/// The sum of two decimals, `None` on overflow. Adding zero changes nothing.
pub open spec fn sum_of(a: DecimalValue, b: DecimalValue) -> Option<DecimalValue> {
    if a.mantissa == 0 {
        Some(b)
    } else if b.mantissa == 0 {
        Some(a)
    } else {
        as_value(decimal_sum(a.mantissa, a.scale, b.mantissa, b.scale))
    }
}

/// The difference of two decimals, `None` on overflow.
pub open spec fn difference_of(a: DecimalValue, b: DecimalValue) -> Option<DecimalValue> {
    if a.mantissa == 0 {
        Some(negated(b))
    } else if b.mantissa == 0 {
        Some(a)
    } else {
        as_value(decimal_difference(a.mantissa, a.scale, b.mantissa, b.scale))
    }
}

/// The product of two decimals, `None` on overflow. A product with zero is zero.
pub open spec fn product_of(a: DecimalValue, b: DecimalValue) -> Option<DecimalValue> {
    if a.mantissa == 0 || b.mantissa == 0 {
        Some(zero_value())
    } else {
        as_value(decimal_product(a.mantissa, a.scale, b.mantissa, b.scale))
    }
}

/// The quotient of two decimals: `None` when the divisor is zero or on
/// overflow, zero when the dividend is zero.
pub open spec fn quotient_of(a: DecimalValue, b: DecimalValue) -> Option<DecimalValue> {
    if b.mantissa == 0 {
        None
    } else if a.mantissa == 0 {
        Some(zero_value())
    } else {
        as_value(decimal_quotient(a.mantissa, a.scale, b.mantissa, b.scale))
    }
}

/// A decimal rounded to `places` fractional digits.
pub open spec fn rounded_to(a: DecimalValue, places: int) -> DecimalValue {
    let r = decimal_rounded(a.mantissa, a.scale, places);
    DecimalValue { mantissa: r.0, scale: r.1 }
}

/// Sum of an optional running total and a decimal: an overflow stays an overflow.
pub open spec fn accumulate(total: Option<DecimalValue>, v: DecimalValue) -> Option<DecimalValue> {
    match total {
        Some(t) => sum_of(t, v),
        None => None,
    }
}

/// Difference of an optional running total and a decimal.
pub open spec fn deduct(total: Option<DecimalValue>, v: DecimalValue) -> Option<DecimalValue> {
    match total {
        Some(t) => difference_of(t, v),
        None => None,
    }
}

/// The value of an optional amount.
pub open spec fn value_of(r: Option<Amount>) -> Option<DecimalValue> {
    match r {
        Some(a) => Some(a@),
        None => None,
    }
}

impl View for Amount {
    type V = DecimalValue;

    closed spec fn view(&self) -> DecimalValue {
        DecimalValue { mantissa: self.mantissa as int, scale: self.scale as int }
    }
}

/// Calls `Decimal::checked_add` of `rust_decimal` on the two amounts. The
/// result is the named sum; the source returns the other operand unchanged
/// when one operand is zero.
#[verifier::external_body]
fn decimal_checked_add(a: Amount, b: Amount) -> (r: Option<Amount>)
    ensures
        a@.mantissa == 0 ==> value_of(r) == Some(b@),
        a@.mantissa != 0 && b@.mantissa == 0 ==> value_of(r) == Some(a@),
        a@.mantissa != 0 && b@.mantissa != 0 ==> value_of(r) == as_value(
            decimal_sum(a@.mantissa, a@.scale, b@.mantissa, b@.scale),
        ),
{
    let x = rust_decimal::Decimal::from_i128_with_scale(a.mantissa, a.scale);
    let y = rust_decimal::Decimal::from_i128_with_scale(b.mantissa, b.scale);
    match x.checked_add(y) {
        Some(d) => Some(Amount { mantissa: d.mantissa(), scale: d.scale() }),
        None => None,
    }
}

/// Calls `Decimal::checked_sub` of `rust_decimal`. The result is the named
/// difference; the source negates the second operand when the first is zero
/// and returns the first unchanged when the second is zero.
#[verifier::external_body]
fn decimal_checked_sub(a: Amount, b: Amount) -> (r: Option<Amount>)
    ensures
        a@.mantissa == 0 ==> value_of(r) == Some(negated(b@)),
        a@.mantissa != 0 && b@.mantissa == 0 ==> value_of(r) == Some(a@),
        a@.mantissa != 0 && b@.mantissa != 0 ==> value_of(r) == as_value(
            decimal_difference(a@.mantissa, a@.scale, b@.mantissa, b@.scale),
        ),
{
    let x = rust_decimal::Decimal::from_i128_with_scale(a.mantissa, a.scale);
    let y = rust_decimal::Decimal::from_i128_with_scale(b.mantissa, b.scale);
    match x.checked_sub(y) {
        Some(d) => Some(Amount { mantissa: d.mantissa(), scale: d.scale() }),
        None => None,
    }
}

/// Calls `Decimal::checked_mul` of `rust_decimal`. The result is the named
/// product; the source returns the plain zero when either operand is zero.
#[verifier::external_body]
fn decimal_checked_mul(a: Amount, b: Amount) -> (r: Option<Amount>)
    ensures
        a@.mantissa == 0 || b@.mantissa == 0 ==> value_of(r) == Some(zero_value()),
        a@.mantissa != 0 && b@.mantissa != 0 ==> value_of(r) == as_value(
            decimal_product(a@.mantissa, a@.scale, b@.mantissa, b@.scale),
        ),
{
    let x = rust_decimal::Decimal::from_i128_with_scale(a.mantissa, a.scale);
    let y = rust_decimal::Decimal::from_i128_with_scale(b.mantissa, b.scale);
    match x.checked_mul(y) {
        Some(d) => Some(Amount { mantissa: d.mantissa(), scale: d.scale() }),
        None => None,
    }
}

/// Calls `Decimal::checked_div` of `rust_decimal`. The result is the named
/// quotient; the source returns `None` for a zero divisor and the plain zero
/// for a zero dividend.
#[verifier::external_body]
fn decimal_checked_div(a: Amount, b: Amount) -> (r: Option<Amount>)
    ensures
        b@.mantissa == 0 ==> r is None,
        a@.mantissa == 0 && b@.mantissa != 0 ==> value_of(r) == Some(zero_value()),
        a@.mantissa != 0 && b@.mantissa != 0 ==> value_of(r) == as_value(
            decimal_quotient(a@.mantissa, a@.scale, b@.mantissa, b@.scale),
        ),
{
    let x = rust_decimal::Decimal::from_i128_with_scale(a.mantissa, a.scale);
    let y = rust_decimal::Decimal::from_i128_with_scale(b.mantissa, b.scale);
    match x.checked_div(y) {
        Some(d) => Some(Amount { mantissa: d.mantissa(), scale: d.scale() }),
        None => None,
    }
}

/// Calls `Decimal::round_dp` of `rust_decimal`, which rounds half to even.
/// The result is the named rounding.
#[verifier::external_body]
fn decimal_round_dp(a: Amount, places: u32) -> (r: Amount)
    ensures
        r@ == (DecimalValue {
            mantissa: decimal_rounded(a@.mantissa, a@.scale, places as int).0,
            scale: decimal_rounded(a@.mantissa, a@.scale, places as int).1,
        }),
{
    let d = rust_decimal::Decimal::from_i128_with_scale(a.mantissa, a.scale).round_dp(places);
    Amount { mantissa: d.mantissa(), scale: d.scale() }
}

/// Calls `Decimal::from_str` of `rust_decimal`. The result is the named
/// reading of the text.
#[verifier::external_body]
fn decimal_from_str(text: &str) -> (r: Option<Amount>)
    ensures
        value_of(r) == as_value(decimal_parsed(text@)),
{
    match <rust_decimal::Decimal as std::str::FromStr>::from_str(text) {
        Ok(d) => Some(Amount { mantissa: d.mantissa(), scale: d.scale() }),
        Err(_) => None,
    }
}

/// Ten to the power of a scale.
fn power_of_ten(scale: u32) -> (r: i128)
    requires
        scale <= MAX_SCALE,
    ensures
        r == pow10(scale as int),
        1 <= r <= 10_000_000_000_000_000_000_000_000_000,
{
    let mut power: i128 = 1;
    let mut i: u32 = 0;
    proof {
        reveal_with_fuel(pow10, 30);
    }
    while i < scale
        invariant
            i <= scale <= MAX_SCALE,
            power == pow10(i as int),
            1 <= power,
            power * pow10(28 - i) == 10_000_000_000_000_000_000_000_000_000,
        decreases scale - i,
    {
        proof {
            reveal_with_fuel(pow10, 2);
            let rest = pow10(28 - i - 1);
            assert(pow10(28 - i) == 10 * rest);
            assert(rest >= 1) by {
                lemma_pow10_positive(28 - i - 1);
            }
            assert(power * (10 * rest) == (power * 10) * rest) by (nonlinear_arith);
            assert(power * 10 <= (power * 10) * rest) by (nonlinear_arith)
                requires
                    rest >= 1,
                    power >= 1,
            ;
        }
        power = power * 10;
        i += 1;
    }
    proof {
        lemma_pow10_positive(28 - scale);
        assert(power <= power * pow10(28 - scale)) by (nonlinear_arith)
            requires
                pow10(28 - scale) >= 1,
                power >= 1,
        ;
    }
    power
}

/// Powers of ten are positive.
pub proof fn lemma_pow10_positive(exponent: int)
    ensures
        pow10(exponent) >= 1,
    decreases exponent,
{
    if exponent > 0 {
        lemma_pow10_positive(exponent - 1);
    }
}

impl Amount {
    #[verifier::type_invariant]
    spec fn well_formed(self) -> bool {
        representable(self.mantissa as int, self.scale as int)
    }

    /// The amount with the given mantissa and scale, if it is representable.
    pub fn new(mantissa: i128, scale: u32) -> (r: Option<Amount>)
        ensures
            r is Some == representable(mantissa as int, scale as int),
            r is Some ==> r->0@ == (DecimalValue { mantissa: mantissa as int, scale: scale as int }),
    {
        if scale <= MAX_SCALE && -MAX_MANTISSA <= mantissa && mantissa <= MAX_MANTISSA {
            Some(Amount { mantissa, scale })
        } else {
            None
        }
    }

    /// Zero.
    pub fn zero() -> (r: Amount)
        ensures
            r@ == zero_value(),
    {
        Amount { mantissa: 0, scale: 0 }
    }

    /// The whole number `n`.
    pub fn from_int(n: i64) -> (r: Amount)
        ensures
            r@ == whole_value(n as int),
    {
        Amount { mantissa: n as i128, scale: 0 }
    }

    /// The mantissa.
    pub fn mantissa(&self) -> (m: i128)
        ensures
            m == self@.mantissa,
            representable(self@.mantissa, self@.scale),
    {
        proof {
            use_type_invariant(self);
        }
        self.mantissa
    }

    /// The number of fractional digits.
    pub fn scale(&self) -> (s: u32)
        ensures
            s == self@.scale,
    {
        self.scale
    }

    /// Whether the amount is zero, whatever its scale.
    pub fn is_zero(&self) -> (b: bool)
        ensures
            b == (self@.mantissa == 0),
    {
        self.mantissa == 0
    }

    /// Whether the amount is greater than zero.
    pub fn is_positive(&self) -> (b: bool)
        ensures
            b == (self@.mantissa > 0),
    {
        self.mantissa > 0
    }

    /// Whether the amount is less than zero.
    pub fn is_negative(&self) -> (b: bool)
        ensures
            b == (self@.mantissa < 0),
    {
        self.mantissa < 0
    }

    /// The magnitude of the amount.
    pub fn abs(&self) -> (r: Amount)
        ensures
            r@ == magnitude(self@),
    {
        proof {
            use_type_invariant(self);
        }
        if self.mantissa < 0 {
            Amount { mantissa: -self.mantissa, scale: self.scale }
        } else {
            *self
        }
    }

    /// The amount with the opposite sign.
    pub fn negate(&self) -> (r: Amount)
        ensures
            r@ == negated(self@),
    {
        proof {
            use_type_invariant(self);
        }
        Amount { mantissa: -self.mantissa, scale: self.scale }
    }

    /// The amount that a text stands for, as `rust_decimal` reads it.
    pub fn parse(text: &str) -> (r: Option<Amount>)
        ensures
            value_of(r) == as_value(decimal_parsed(text@)),
    {
        decimal_from_str(text)
    }

    /// Whether the amount is greater than the whole number `whole`.
    pub fn greater_than(&self, whole: i32) -> (b: bool)
        ensures
            b == exceeds(self@, whole as int),
    {
        proof {
            use_type_invariant(self);
        }
        let power = power_of_ten(self.scale);
        assert(-2_147_483_648 * power <= whole * power <= 2_147_483_647 * power) by (nonlinear_arith)
            requires
                -2_147_483_648 <= whole <= 2_147_483_647,
                power >= 1,
        ;
        self.mantissa > (whole as i128) * power
    }

    /// `self + other`, or `None` when the sum overflows.
    pub fn checked_add(self, other: Amount) -> (r: Option<Amount>)
        ensures
            value_of(r) == sum_of(self@, other@),
    {
        decimal_checked_add(self, other)
    }

    /// `self - other`, or `None` when the difference overflows.
    pub fn checked_sub(self, other: Amount) -> (r: Option<Amount>)
        ensures
            value_of(r) == difference_of(self@, other@),
    {
        decimal_checked_sub(self, other)
    }

    /// `self * other`, or `None` when the product overflows.
    pub fn checked_mul(self, other: Amount) -> (r: Option<Amount>)
        ensures
            value_of(r) == product_of(self@, other@),
    {
        decimal_checked_mul(self, other)
    }

    /// `self / other`, or `None` when `other` is zero or the quotient overflows.
    pub fn checked_div(self, other: Amount) -> (r: Option<Amount>)
        ensures
            value_of(r) == quotient_of(self@, other@),
    {
        decimal_checked_div(self, other)
    }

    /// The amount rounded to `places` fractional digits, half to even.
    pub fn round_dp(self, places: u32) -> (r: Amount)
        ensures
            r@ == rounded_to(self@, places as int),
    {
        decimal_round_dp(self, places)
    }
}

} // verus!
