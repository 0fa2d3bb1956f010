//! Fixed-point money values.
//!
//! A [`Dec`] is a 96-bit mantissa together with a count of decimal places, as
//! `rust_decimal` represents a number.  The arithmetic itself is done by that
//! crate; this module says in mathematical terms what the library relies on.
//! The view of a value is its size in units of 10^-28, the finest step any
//! `Dec` can take, so two values are numerically equal exactly when their views
//! are equal.

use vstd::prelude::*;

verus! {

/// The most decimal places a value can have.
pub const MAX_SCALE: u32 = 28;

/// The largest mantissa: 2^96 - 1.
pub const MAX_MANTISSA: i128 = 79228162514264337593543950335;

/// 10 to the power `n`.
pub open spec fn pow10(n: nat) -> int
    decreases n,
{
    if n == 0 {
        1
    } else {
        10 * pow10((n - 1) as nat)
    }
}

/// The view of the number one.
pub open spec fn unit() -> int {
    10000000000000000000000000000
}

/// The view of `n` hundredths.
pub open spec fn cents(n: int) -> int {
    n * 100000000000000000000000000
}

/// Whether a mantissa and a scale make a value.
pub open spec fn dec_in_range(mantissa: int, scale: nat) -> bool {
    -MAX_MANTISSA <= mantissa <= MAX_MANTISSA && scale <= MAX_SCALE
}

/// A decimal number: `mantissa` divided by 10^`scale`.
#[derive(Clone, Copy, Debug)]
pub struct Dec {
    mantissa: i128,
    scale: u32,
}

impl Dec {
    #[verifier::type_invariant]
    spec fn in_range(self) -> bool {
        dec_in_range(self.mantissa as int, self.scale as nat)
    }

    /// The digits of the value, as one integer.
    pub closed spec fn spec_mantissa(self) -> int {
        self.mantissa as int
    }

    /// How many of the digits stand behind the point.
    pub closed spec fn spec_scale(self) -> nat {
        self.scale as nat
    }

    /// The value with these digits and this many of them behind the point.
    pub closed spec fn of(mantissa: int, scale: nat) -> Dec {
        Dec { mantissa: mantissa as i128, scale: scale as u32 }
    }
}

impl View for Dec {
    type V = int;

    open spec fn view(&self) -> int {
        self.spec_mantissa() * pow10((MAX_SCALE - self.spec_scale()) as nat)
    }
}

// ---------------------------------------------------------------------------
// What `rust_decimal` computes
// ---------------------------------------------------------------------------

/// What `Decimal::checked_add` gives for two numbers, each a mantissa and a
/// scale: the mantissa and the scale of the sum, or nothing on overflow.
pub uninterp spec fn decimal_sum(a: int, a_scale: nat, b: int, b_scale: nat) -> Option<(int, nat)>;

/// What `Decimal::checked_sub` gives: the parts of the first number less the
/// second, or nothing on overflow.
pub uninterp spec fn decimal_difference(a: int, a_scale: nat, b: int, b_scale: nat) -> Option<(int, nat)>;

/// What `Decimal::checked_mul` gives: the parts of the product, or nothing on
/// overflow.
pub uninterp spec fn decimal_product(a: int, a_scale: nat, b: int, b_scale: nat) -> Option<(int, nat)>;

/// What `Decimal::checked_div` gives: the parts of the quotient, or nothing on
/// overflow or for a divisor of zero.
pub uninterp spec fn decimal_quotient(a: int, a_scale: nat, b: int, b_scale: nat) -> Option<(int, nat)>;

/// What `Decimal::from_str` reads in a text: the parts of the number, or
/// nothing where the text is no number.
pub uninterp spec fn decimal_from_text(text: Seq<char>) -> Option<(int, nat)>;

/// The text that `Decimal::to_string` writes for a mantissa and a scale.
pub uninterp spec fn decimal_text(mantissa: int, scale: nat) -> Seq<char>;

/// The parts of a value that may be missing.
pub open spec fn dec_parts(d: Option<Dec>) -> Option<(int, nat)> {
    match d {
        Some(d) => Some((d.spec_mantissa(), d.spec_scale())),
        None => None,
    }
}

/// The value that has the given parts.
pub open spec fn dec_from_parts(parts: Option<(int, nat)>) -> Option<Dec> {
    match parts {
        Some((mantissa, scale)) => Some(Dec::of(mantissa, scale)),
        None => None,
    }
}

/// The size of an integer without its sign.
pub open spec fn magnitude(n: int) -> int {
    if n < 0 {
        -n
    } else {
        n
    }
}

/// The larger of two scales.
pub open spec fn wider(a: nat, b: nat) -> nat {
    if a < b {
        b
    } else {
        a
    }
}

/// Whether two numbers, written with the same number of decimal places, are
/// small enough together that neither their sum nor their difference needs
/// rounding.
pub open spec fn exact_together(a: int, a_scale: nat, b: int, b_scale: nat) -> bool {
    magnitude(a) * pow10((wider(a_scale, b_scale) - a_scale) as nat)
        + magnitude(b) * pow10((wider(a_scale, b_scale) - b_scale) as nat) <= MAX_MANTISSA
}

/// The integer quotient of `n` by a positive `d`, rounded toward zero.
pub open spec fn div_toward_zero(n: int, d: int) -> int {
    if n >= 0 {
        n / d
    } else {
        -((-n) / d)
    }
}

impl Dec {
    /// `Decimal`'s `<` (its `PartialOrd`): a comparison of the numbers, whatever
    /// their scales.
    #[verifier::external_body]
    fn decimal_less(self, other: Dec) -> (r: bool)
        ensures
            r == (self@ < other@),
    {
        rust_decimal::Decimal::from_i128_with_scale(self.mantissa, self.scale)
            < rust_decimal::Decimal::from_i128_with_scale(other.mantissa, other.scale)
    }

    /// `Decimal::checked_add`.  The sum is named; it is exact where both numbers
    /// fit a common scale together, and adding zero changes nothing.
    #[verifier::external_body]
    fn decimal_add(self, other: Dec) -> (r: Option<Dec>)
        ensures
            dec_parts(r) == decimal_sum(
                self.spec_mantissa(),
                self.spec_scale(),
                other.spec_mantissa(),
                other.spec_scale(),
            ),
            exact_together(
                self.spec_mantissa(),
                self.spec_scale(),
                other.spec_mantissa(),
                other.spec_scale(),
            ) ==> r is Some && r->0@ == self@ + other@,
            self.spec_mantissa() == 0 ==> dec_parts(r) == dec_parts(Some(other)),
            self.spec_mantissa() != 0 && other.spec_mantissa() == 0 ==> dec_parts(r)
                == dec_parts(Some(self)),
    {
        rust_decimal::Decimal::from_i128_with_scale(self.mantissa, self.scale)
            .checked_add(rust_decimal::Decimal::from_i128_with_scale(other.mantissa, other.scale))
            .map(|d| Dec { mantissa: d.mantissa(), scale: d.scale() })
    }

    /// `Decimal::checked_sub`.  The difference is named; it is exact where both
    /// numbers fit a common scale together.
    #[verifier::external_body]
    fn decimal_sub(self, other: Dec) -> (r: Option<Dec>)
        ensures
            dec_parts(r) == decimal_difference(
                self.spec_mantissa(),
                self.spec_scale(),
                other.spec_mantissa(),
                other.spec_scale(),
            ),
            exact_together(
                self.spec_mantissa(),
                self.spec_scale(),
                other.spec_mantissa(),
                other.spec_scale(),
            ) ==> r is Some && r->0@ == self@ - other@,
    {
        rust_decimal::Decimal::from_i128_with_scale(self.mantissa, self.scale)
            .checked_sub(rust_decimal::Decimal::from_i128_with_scale(other.mantissa, other.scale))
            .map(|d| Dec { mantissa: d.mantissa(), scale: d.scale() })
    }

    /// `Decimal::checked_mul`.  The product is named; it is the exact product of
    /// the mantissas at the sum of the scales where that can be held, and zero
    /// where a factor is zero.
    #[verifier::external_body]
    fn decimal_mul(self, other: Dec) -> (r: Option<Dec>)
        ensures
            dec_parts(r) == decimal_product(
                self.spec_mantissa(),
                self.spec_scale(),
                other.spec_mantissa(),
                other.spec_scale(),
            ),
            self.spec_mantissa() == 0 || other.spec_mantissa() == 0 ==> dec_parts(r) == Some(
                (0int, 0nat),
            ),
            self.spec_mantissa() != 0 && other.spec_mantissa() != 0 && dec_in_range(
                self.spec_mantissa() * other.spec_mantissa(),
                self.spec_scale() + other.spec_scale(),
            ) ==> dec_parts(r) == Some(
                (
                    self.spec_mantissa() * other.spec_mantissa(),
                    self.spec_scale() + other.spec_scale(),
                ),
            ),
    {
        rust_decimal::Decimal::from_i128_with_scale(self.mantissa, self.scale)
            .checked_mul(rust_decimal::Decimal::from_i128_with_scale(other.mantissa, other.scale))
            .map(|d| Dec { mantissa: d.mantissa(), scale: d.scale() })
    }

    /// `Decimal::checked_div`.  The quotient is named; a divisor of zero has
    /// none, zero divided by anything else is zero, and dividing by a power of
    /// ten, of nine zeros at most, is exact where the scale has room for it.
    #[verifier::external_body]
    fn decimal_div(self, other: Dec) -> (r: Option<Dec>)
        ensures
            dec_parts(r) == decimal_quotient(
                self.spec_mantissa(),
                self.spec_scale(),
                other.spec_mantissa(),
                other.spec_scale(),
            ),
            other.spec_mantissa() == 0 ==> r is None,
            self.spec_mantissa() == 0 && other.spec_mantissa() != 0 ==> dec_parts(r) == Some(
                (0int, 0nat),
            ),
            forall|k: nat|
                k <= 9 && other.spec_scale() == 0 && other.spec_mantissa() == #[trigger] pow10(k)
                    && self.spec_scale() + k <= MAX_SCALE ==> r is Some && r->0@ * pow10(k) == self@,
    {
        rust_decimal::Decimal::from_i128_with_scale(self.mantissa, self.scale)
            .checked_div(rust_decimal::Decimal::from_i128_with_scale(other.mantissa, other.scale))
            .map(|d| Dec { mantissa: d.mantissa(), scale: d.scale() })
    }

    /// `Decimal::ceil`: the smallest whole number that is not below the value.
    #[verifier::external_body]
    fn decimal_ceil(self) -> (r: Dec)
        ensures
            r.spec_scale() == 0,
            r.spec_mantissa() == -((-self.spec_mantissa()) / pow10(self.spec_scale())),
    {
        let d = rust_decimal::Decimal::from_i128_with_scale(self.mantissa, self.scale).ceil();
        Dec { mantissa: d.mantissa(), scale: d.scale() }
    }

    /// `Decimal::floor`: the largest whole number that is not above the value.
    #[verifier::external_body]
    fn decimal_floor(self) -> (r: Dec)
        ensures
            r.spec_scale() == 0,
            r.spec_mantissa() == self.spec_mantissa() / pow10(self.spec_scale()),
    {
        let d = rust_decimal::Decimal::from_i128_with_scale(self.mantissa, self.scale).floor();
        Dec { mantissa: d.mantissa(), scale: d.scale() }
    }

    /// `Decimal::abs`: the value without its sign.
    #[verifier::external_body]
    fn decimal_abs(self) -> (r: Dec)
        ensures
            r.spec_scale() == self.spec_scale(),
            r.spec_mantissa() == magnitude(self.spec_mantissa()),
    {
        let d = rust_decimal::Decimal::from_i128_with_scale(self.mantissa, self.scale).abs();
        Dec { mantissa: d.mantissa(), scale: d.scale() }
    }

    /// `Decimal::trunc_with_scale`: the decimal places after the first `places`
    /// are cut off, without rounding.  The result has that many decimal places,
    /// or fewer where the value had fewer and cannot take more.
    #[verifier::external_body]
    fn decimal_truncate(self, places: u32) -> (r: Dec)
        requires
            places <= MAX_SCALE,
        ensures
            r@ == div_toward_zero(self@, pow10((MAX_SCALE - places) as nat)) * pow10(
                (MAX_SCALE - places) as nat,
            ),
            self.spec_scale() >= places ==> r.spec_scale() == places,
            r.spec_scale() <= places,
    {
        let d = rust_decimal::Decimal::from_i128_with_scale(self.mantissa, self.scale)
            .trunc_with_scale(places);
        Dec { mantissa: d.mantissa(), scale: d.scale() }
    }

    /// `ToPrimitive::to_u32` of a `Decimal`: the whole part, where the value is
    /// not negative and its whole part fits.
    #[verifier::external_body]
    fn decimal_to_u32(self) -> (r: Option<u32>)
        ensures
            r == (if self.spec_mantissa() >= 0 && self.spec_mantissa() / pow10(self.spec_scale())
                <= u32::MAX {
                Some((self.spec_mantissa() / pow10(self.spec_scale())) as u32)
            } else {
                None
            }),
    {
        rust_decimal::prelude::ToPrimitive::to_u32(
            &rust_decimal::Decimal::from_i128_with_scale(self.mantissa, self.scale),
        )
    }

    /// `Decimal`'s `FromStr`: the number that a text denotes.
    #[verifier::external_body]
    fn decimal_parse(text: &str) -> (r: Option<Dec>)
        ensures
            dec_parts(r) == decimal_from_text(text@),
    {
        match text.parse::<rust_decimal::Decimal>() {
            Ok(d) => Some(Dec { mantissa: d.mantissa(), scale: d.scale() }),
            Err(_) => None,
        }
    }

    /// `Decimal`'s `ToString`: all digits of the number.  The text reads back as
    /// the same mantissa and scale.
    #[verifier::external_body]
    fn decimal_to_text(self) -> (r: String)
        ensures
            r@ == decimal_text(self.spec_mantissa(), self.spec_scale()),
            decimal_from_text(r@) == Some((self.spec_mantissa(), self.spec_scale())),
    {
        rust_decimal::Decimal::from_i128_with_scale(self.mantissa, self.scale).to_string()
    }
}

// ---------------------------------------------------------------------------
// Values and their arithmetic
// ---------------------------------------------------------------------------

/// `pow10` of the exponents that literals use.
proof fn lemma_pow10_literals()
    ensures
        pow10(28) == unit(),
        pow10(27) * 10 == unit(),
        pow10(26) == cents(1),
{
    reveal_with_fuel(pow10, 29);
}

/// Powers of ten are positive.
pub proof fn lemma_pow10_positive(n: nat)
    ensures
        pow10(n) >= 1,
    decreases n,
{
    if n > 0 {
        lemma_pow10_positive((n - 1) as nat);
    }
}

/// A value is numerically zero exactly where its mantissa is.
pub proof fn lemma_zero_value(d: Dec)
    ensures
        d@ == 0 <==> d.spec_mantissa() == 0,
        d@ > 0 <==> d.spec_mantissa() > 0,
        d@ < 0 <==> d.spec_mantissa() < 0,
{
    let p = pow10((MAX_SCALE - d.spec_scale()) as nat);
    lemma_pow10_positive((MAX_SCALE - d.spec_scale()) as nat);
    let m = d.spec_mantissa();
    assert(d@ == m * p);
    assert(m == 0 ==> m * p == 0) by (nonlinear_arith);
    assert(m > 0 ==> m * p > 0) by (nonlinear_arith)
        requires
            p >= 1,
    ;
    assert(m < 0 ==> m * p < 0) by (nonlinear_arith)
        requires
            p >= 1,
    ;
}

impl Dec {
    /// The sum of two values, where it can be held.
    pub open spec fn spec_plus(self, other: Dec) -> Option<Dec> {
        dec_from_parts(
            decimal_sum(
                self.spec_mantissa(),
                self.spec_scale(),
                other.spec_mantissa(),
                other.spec_scale(),
            ),
        )
    }

    /// The first value less the second, where that can be held.
    pub open spec fn spec_minus(self, other: Dec) -> Option<Dec> {
        dec_from_parts(
            decimal_difference(
                self.spec_mantissa(),
                self.spec_scale(),
                other.spec_mantissa(),
                other.spec_scale(),
            ),
        )
    }

    /// The product of two values, where it can be held.
    pub open spec fn spec_times(self, other: Dec) -> Option<Dec> {
        dec_from_parts(
            decimal_product(
                self.spec_mantissa(),
                self.spec_scale(),
                other.spec_mantissa(),
                other.spec_scale(),
            ),
        )
    }

    /// The first value divided by the second, where there is a quotient that can
    /// be held.
    pub open spec fn spec_over(self, other: Dec) -> Option<Dec> {
        dec_from_parts(
            decimal_quotient(
                self.spec_mantissa(),
                self.spec_scale(),
                other.spec_mantissa(),
                other.spec_scale(),
            ),
        )
    }

    /// The value that a text denotes.
    pub open spec fn spec_parse(text: Seq<char>) -> Option<Dec> {
        dec_from_parts(decimal_from_text(text))
    }

    /// The value as text.
    pub open spec fn spec_text(self) -> Seq<char> {
        decimal_text(self.spec_mantissa(), self.spec_scale())
    }

    /// Whether sum and difference of the two values are exact.
    pub open spec fn exact_with(self, other: Dec) -> bool {
        exact_together(
            self.spec_mantissa(),
            self.spec_scale(),
            other.spec_mantissa(),
            other.spec_scale(),
        )
    }

    /// A value from its digits and the number of them behind the point.
    pub fn new(mantissa: i64, scale: u32) -> (r: Dec)
        requires
            scale <= MAX_SCALE,
        ensures
            r == Dec::of(mantissa as int, scale as nat),
            r.spec_mantissa() == mantissa,
            r.spec_scale() == scale,
            scale == 0 ==> r@ == mantissa * unit(),
            scale == 1 ==> r@ * 10 == mantissa * unit(),
            scale == 2 ==> r@ == cents(mantissa as int),
    {
        proof {
            lemma_pow10_literals();
            assert(scale == 1 ==> (mantissa * pow10(27)) * 10 == mantissa * (pow10(27) * 10))
                by (nonlinear_arith);
        }
        Dec { mantissa: mantissa as i128, scale }
    }

    /// Zero.
    pub fn zero() -> (r: Dec)
        ensures
            r == Dec::of(0, 0),
            r.spec_mantissa() == 0,
            r@ == 0,
    {
        let r = Dec::new(0, 0);
        proof {
            lemma_zero_value(r);
        }
        r
    }

    /// A value from a mantissa of any size, where it is in range.
    pub fn from_parts(mantissa: i128, scale: u32) -> (r: Option<Dec>)
        ensures
            r is Some <==> dec_in_range(mantissa as int, scale as nat),
            r matches Some(d) ==> d.spec_mantissa() == mantissa && d.spec_scale() == scale && d
                == Dec::of(mantissa as int, scale as nat),
    {
        if scale <= MAX_SCALE && mantissa <= MAX_MANTISSA && mantissa >= -MAX_MANTISSA {
            Some(Dec { mantissa, scale })
        } else {
            None
        }
    }

    /// The digits of the value.
    pub fn mantissa(self) -> (r: i128)
        ensures
            r == self.spec_mantissa(),
            dec_in_range(self.spec_mantissa(), self.spec_scale()),
    {
        proof {
            use_type_invariant(&self);
        }
        self.mantissa
    }

    /// How many digits stand behind the point.
    pub fn scale(self) -> (r: u32)
        ensures
            r == self.spec_scale(),
            dec_in_range(self.spec_mantissa(), self.spec_scale()),
    {
        proof {
            use_type_invariant(&self);
        }
        self.scale
    }

    /// Whether the value is below the other.
    pub fn lt(self, other: Dec) -> (r: bool)
        ensures
            r == (self@ < other@),
    {
        self.decimal_less(other)
    }

    /// Whether the value is below the other or equal to it.
    pub fn le(self, other: Dec) -> (r: bool)
        ensures
            r == (self@ <= other@),
    {
        !other.decimal_less(self)
    }

    /// Whether the two values are numerically equal.
    pub fn same(self, other: Dec) -> (r: bool)
        ensures
            r == (self@ == other@),
    {
        !self.decimal_less(other) && !other.decimal_less(self)
    }

    /// Whether the value is above zero.
    pub fn is_positive(self) -> (r: bool)
        ensures
            r == (self@ > 0),
    {
        Dec::zero().lt(self)
    }

    /// The sum, where it can be held.
    pub fn plus(self, other: Dec) -> (r: Option<Dec>)
        ensures
            r == self.spec_plus(other),
            self.exact_with(other) ==> r is Some && r->0@ == self@ + other@,
            self@ == 0 ==> r == Some(other),
            self@ != 0 && other@ == 0 ==> r == Some(self),
    {
        proof {
            lemma_zero_value(self);
            lemma_zero_value(other);
        }
        self.decimal_add(other)
    }

    /// The difference, where it can be held.
    pub fn minus(self, other: Dec) -> (r: Option<Dec>)
        ensures
            r == self.spec_minus(other),
            self.exact_with(other) ==> r is Some && r->0@ == self@ - other@,
    {
        self.decimal_sub(other)
    }

    /// The product, where it can be held.
    pub fn times(self, other: Dec) -> (r: Option<Dec>)
        ensures
            r == self.spec_times(other),
            self@ == 0 || other@ == 0 ==> r == Some(Dec::of(0, 0)),
            self@ != 0 && other@ != 0 && dec_in_range(
                self.spec_mantissa() * other.spec_mantissa(),
                self.spec_scale() + other.spec_scale(),
            ) ==> r == Some(
                Dec::of(
                    self.spec_mantissa() * other.spec_mantissa(),
                    self.spec_scale() + other.spec_scale(),
                ),
            ),
    {
        proof {
            lemma_zero_value(self);
            lemma_zero_value(other);
        }
        self.decimal_mul(other)
    }

    /// The quotient, where there is one that can be held.
    pub fn over(self, other: Dec) -> (r: Option<Dec>)
        ensures
            r == self.spec_over(other),
            other@ == 0 ==> r is None,
            self@ == 0 && other@ != 0 ==> r == Some(Dec::of(0, 0)),
            forall|k: nat|
                k <= 9 && other.spec_scale() == 0 && other.spec_mantissa() == #[trigger] pow10(k)
                    && self.spec_scale() + k <= MAX_SCALE ==> r is Some && r->0@ * pow10(k) == self@,
    {
        proof {
            lemma_zero_value(self);
            lemma_zero_value(other);
        }
        self.decimal_div(other)
    }

    /// The smallest whole number that is not below the value.
    pub fn ceil(self) -> (r: Dec)
        ensures
            r == Dec::of(-((-self.spec_mantissa()) / pow10(self.spec_scale())), 0),
            r.spec_scale() == 0,
            r.spec_mantissa() == -((-self.spec_mantissa()) / pow10(self.spec_scale())),
    {
        self.decimal_ceil()
    }

    /// The largest whole number that is not above the value.
    pub fn floor(self) -> (r: Dec)
        ensures
            r == Dec::of(self.spec_mantissa() / pow10(self.spec_scale()), 0),
            r.spec_scale() == 0,
            r.spec_mantissa() == self.spec_mantissa() / pow10(self.spec_scale()),
    {
        self.decimal_floor()
    }

    /// The value without its sign.
    pub open spec fn spec_abs(self) -> Dec {
        Dec::of(magnitude(self.spec_mantissa()), self.spec_scale())
    }

    /// The value without its sign.
    pub fn abs(self) -> (r: Dec)
        ensures
            r == self.spec_abs(),
            r@ == magnitude(self@),
    {
        let r = self.decimal_abs();
        proof {
            let p = pow10((MAX_SCALE - self.spec_scale()) as nat);
            lemma_zero_value(self);
            assert((-self.spec_mantissa()) * p == -(self.spec_mantissa() * p)) by (nonlinear_arith);
        }
        r
    }

    /// The value cut off after the given number of decimal places.
    pub fn truncate(self, places: u32) -> (r: Dec)
        requires
            places <= MAX_SCALE,
        ensures
            r@ == div_toward_zero(self@, pow10((MAX_SCALE - places) as nat)) * pow10(
                (MAX_SCALE - places) as nat,
            ),
            self.spec_scale() >= places ==> r.spec_scale() == places,
            r.spec_scale() <= places,
    {
        self.decimal_truncate(places)
    }

    /// The whole part as a `u32`, where the value is not negative and it fits.
    pub fn to_u32(self) -> (r: Option<u32>)
        ensures
            r == (if self.spec_mantissa() >= 0 && self.spec_mantissa() / pow10(self.spec_scale())
                <= u32::MAX {
                Some((self.spec_mantissa() / pow10(self.spec_scale())) as u32)
            } else {
                None
            }),
    {
        self.decimal_to_u32()
    }

    /// The number that a text denotes.
    pub fn parse(text: &str) -> (r: Option<Dec>)
        ensures
            r == Dec::spec_parse(text@),
    {
        Dec::decimal_parse(text)
    }

    /// All digits of the number.
    pub fn to_text(self) -> (r: String)
        ensures
            r@ == self.spec_text(),
            Dec::spec_parse(r@) == Some(self),
    {
        self.decimal_to_text()
    }
}

/// What a value written by its digits is.
pub proof fn lemma_literal(mantissa: int, scale: nat)
    requires
        dec_in_range(mantissa, scale),
    ensures
        Dec::of(mantissa, scale).spec_mantissa() == mantissa,
        Dec::of(mantissa, scale).spec_scale() == scale,
        mantissa == 0 ==> Dec::of(mantissa, scale)@ == 0,
        scale == 0 ==> Dec::of(mantissa, scale)@ == mantissa * unit(),
        scale == 1 ==> Dec::of(mantissa, scale)@ * 10 == mantissa * unit(),
        scale == 2 ==> Dec::of(mantissa, scale)@ == cents(mantissa),
{
    lemma_pow10_literals();
    lemma_zero_value(Dec::of(mantissa, scale));
    assert(scale == 1 ==> (mantissa * pow10(27)) * 10 == mantissa * (pow10(27) * 10))
        by (nonlinear_arith);
}

/// Division toward zero leaves a remainder that is smaller than the divisor and
/// has the sign of the number; the magnitude of a number is never negative, and
/// is the number but for its sign.
pub proof fn law_division_is_toward_zero(n: int, d: int)
    requires
        d >= 1,
    ensures
        n >= 0 ==> 0 <= n - div_toward_zero(n, d) * d < d,
        n <= 0 ==> -d < n - div_toward_zero(n, d) * d <= 0,
        magnitude(n) >= 0,
        magnitude(n) == n || magnitude(n) == -n,
{
    vstd::arithmetic::div_mod::lemma_fundamental_div_mod(n, d);
    vstd::arithmetic::div_mod::lemma_mod_bound(n, d);
    vstd::arithmetic::div_mod::lemma_fundamental_div_mod(-n, d);
    vstd::arithmetic::div_mod::lemma_mod_bound(-n, d);
    vstd::arithmetic::mul::lemma_mul_is_commutative(d, n / d);
    vstd::arithmetic::mul::lemma_mul_is_commutative(d, (-n) / d);
    vstd::arithmetic::mul::lemma_mul_unary_negation((-n) / d, d);
    if n == 0 {
        assert(div_toward_zero(n, d) * d == (n / d) * d);
    }
}

/// Two numbers with the same number of decimal places are added and subtracted
/// exactly where their magnitudes together fit in the mantissa.
pub proof fn law_equal_scales_are_exact(a: int, b: int, scale: nat)
    ensures
        exact_together(a, scale, b, scale) <==> magnitude(a) + magnitude(b)
            <= 79228162514264337593543950335,
        MAX_SCALE == 28,
{
    assert(pow10(0) == 1);
}

} // verus!
