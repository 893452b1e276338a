//! Fixed-point decimal numbers.
//!
//! A [`Dec`] holds the two plain values of a `rust_decimal::Decimal`: a signed
//! mantissa of at most 96 bits and a scale between 0 and 28; its value is
//! `mantissa / 10^scale`. Arithmetic is delegated to `rust_decimal` through the
//! trusted wrappers below; comparisons are by value.
use vstd::prelude::*;

use rust_decimal::Decimal;

verus! {

/// Largest magnitude of a mantissa (`2^96 - 1`).
pub const MAX_MANTISSA: i128 = 0xFFFF_FFFF_FFFF_FFFF_FFFF_FFFFi128;

/// Largest scale (number of fractional digits).
pub const MAX_SCALE: u32 = 28u32;

/// A decimal number `mantissa / 10^scale`.
#[derive(Clone, Copy, Debug)]
pub struct Dec {
    pub mantissa: i128,
    pub scale: u32,
}

/// An arithmetic operation on decimals overflowed the representable range
/// (or divided by zero).
#[derive(Clone, Copy, Debug, PartialEq, Eq)]
pub struct Overflow;

/// `10^n`.
pub open spec fn pow10(n: nat) -> int
    decreases n,
{
    if n == 0 {
        1
    } else {
        10 * pow10((n - 1) as nat)
    }
}

pub proof fn lemma_pow10_pos(n: nat)
    ensures
        pow10(n) > 0,
    decreases n,
{
    if n > 0 {
        lemma_pow10_pos((n - 1) as nat);
    }
}

/// A decimal's value has the sign of its mantissa.
pub proof fn lemma_key_sign(d: Dec)
    ensures
        d.key() > 0 <==> d.mantissa > 0,
        d.key() == 0 <==> d.mantissa == 0,
        d.key() < 0 <==> d.mantissa < 0,
        Dec::spec_zero().key() == 0,
{
    let p = pow10((MAX_SCALE - d.scale) as nat);
    lemma_pow10_pos((MAX_SCALE - d.scale) as nat);
    assert(d.mantissa > 0 ==> d.mantissa * p > 0) by (nonlinear_arith)
        requires
            p > 0,
    ;
    assert(d.mantissa < 0 ==> d.mantissa * p < 0) by (nonlinear_arith)
        requires
            p > 0,
    ;
    assert(d.mantissa == 0 ==> d.mantissa * p == 0);
    assert(Dec::spec_zero().key() == 0);
}

impl Dec {
    /// The mantissa fits in 96 bits and the scale is at most 28.
    pub open spec fn wf(self) -> bool {
        &&& -MAX_MANTISSA <= self.mantissa <= MAX_MANTISSA
        &&& self.scale <= MAX_SCALE
    }

    /// The value scaled to 28 fractional digits: `value * 10^28`, an exact integer.
    pub open spec fn key(self) -> int {
        self.mantissa * pow10((MAX_SCALE - self.scale) as nat)
    }

    pub open spec fn spec_is_zero(self) -> bool {
        self.mantissa == 0
    }

    pub open spec fn spec_is_neg(self) -> bool {
        self.mantissa < 0
    }

    pub open spec fn spec_is_pos(self) -> bool {
        self.mantissa > 0
    }

    /// The decimal zero (`0`, scale 0).
    pub open spec fn spec_zero() -> Dec {
        Dec { mantissa: 0, scale: 0 }
    }

    /// `a < b` by value.
    pub open spec fn lt(a: Dec, b: Dec) -> bool {
        a.key() < b.key()
    }

    /// `a <= b` by value.
    pub open spec fn le(a: Dec, b: Dec) -> bool {
        a.key() <= b.key()
    }

    /// `a == b` by value (`1.0 == 1.00`).
    pub open spec fn same(a: Dec, b: Dec) -> bool {
        a.key() == b.key()
    }

    /// `Decimal::min`: `other` when `self > other`, else `self`.
    pub open spec fn spec_min(self, other: Dec) -> Dec {
        if Dec::lt(other, self) {
            other
        } else {
            self
        }
    }

    /// `Decimal::max`: `other` when `self < other`, else `self`.
    pub open spec fn spec_max(self, other: Dec) -> Dec {
        if Dec::lt(self, other) {
            other
        } else {
            self
        }
    }

    /// `Decimal::abs`: the mantissa's magnitude at the same scale.
    pub open spec fn spec_abs(self) -> Dec {
        Dec { mantissa: if self.mantissa < 0 { (-self.mantissa) as i128 } else { self.mantissa }, scale: self.scale }
    }

    /// Negation: the negated mantissa at the same scale.
    pub open spec fn spec_neg(self) -> Dec {
        Dec { mantissa: (-self.mantissa) as i128, scale: self.scale }
    }

    /// The decimal is in the representable range.
    pub fn is_valid(&self) -> (r: bool)
        ensures
            r == self.wf(),
    {
        -MAX_MANTISSA <= self.mantissa && self.mantissa <= MAX_MANTISSA && self.scale <= MAX_SCALE
    }

    /// The decimal zero.
    pub fn zero() -> (r: Dec)
        ensures
            r == Dec::spec_zero(),
            r.wf(),
    {
        Dec { mantissa: 0, scale: 0 }
    }

    /// The decimal one (`1`, scale 0).
    pub fn one() -> (r: Dec)
        ensures
            r == (Dec { mantissa: 1, scale: 0 }),
            r.wf(),
    {
        Dec { mantissa: 1, scale: 0 }
    }

    /// An integer as a decimal of scale 0 (`Decimal::from(n)`).
    pub fn from_u64(n: u64) -> (r: Dec)
        ensures
            r == (Dec { mantissa: n as i128, scale: 0 }),
            r.wf(),
    {
        Dec { mantissa: n as i128, scale: 0 }
    }

    /// `Decimal::is_zero`.
    pub fn is_zero(&self) -> (r: bool)
        ensures
            r == self.spec_is_zero(),
    {
        self.mantissa == 0
    }

    /// `Decimal::is_sign_negative`; zero carries no sign here.
    pub fn is_sign_negative(&self) -> (r: bool)
        ensures
            r == self.spec_is_neg(),
    {
        self.mantissa < 0
    }

    /// `Decimal::is_sign_positive`; true for zero.
    pub fn is_sign_positive(&self) -> (r: bool)
        ensures
            r == !self.spec_is_neg(),
    {
        self.mantissa >= 0
    }

    /// `Decimal::abs`.
    pub fn abs(&self) -> (r: Dec)
        requires
            self.wf(),
        ensures
            r == self.spec_abs(),
            r.wf(),
    {
        if self.mantissa < 0 {
            Dec { mantissa: -self.mantissa, scale: self.scale }
        } else {
            *self
        }
    }

    /// Negation (`-d`).
    pub fn neg(&self) -> (r: Dec)
        requires
            self.wf(),
        ensures
            r == self.spec_neg(),
            r.wf(),
    {
        Dec { mantissa: -self.mantissa, scale: self.scale }
    }

    /// `self < other` by value.
    pub fn less(&self, other: &Dec) -> (r: bool)
        requires
            self.wf(),
            other.wf(),
        ensures
            r == Dec::lt(*self, *other),
    {
        decimal_less(*self, *other)
    }

    /// `self <= other` by value.
    pub fn less_eq(&self, other: &Dec) -> (r: bool)
        requires
            self.wf(),
            other.wf(),
        ensures
            r == Dec::le(*self, *other),
    {
        !decimal_less(*other, *self)
    }

    /// `self == other` by value.
    pub fn same_value(&self, other: &Dec) -> (r: bool)
        requires
            self.wf(),
            other.wf(),
        ensures
            r == Dec::same(*self, *other),
    {
        !decimal_less(*self, *other) && !decimal_less(*other, *self)
    }

    /// `Decimal::min`.
    pub fn min(self, other: Dec) -> (r: Dec)
        requires
            self.wf(),
            other.wf(),
        ensures
            r == self.spec_min(other),
            r.wf(),
    {
        if decimal_less(other, self) {
            other
        } else {
            self
        }
    }

    /// `Decimal::max`.
    pub fn max(self, other: Dec) -> (r: Dec)
        requires
            self.wf(),
            other.wf(),
        ensures
            r == self.spec_max(other),
            r.wf(),
    {
        if decimal_less(self, other) {
            other
        } else {
            self
        }
    }
}

/// What `rust_decimal`'s `Decimal::checked_add` returns for the two decimals.
pub uninterp spec fn decimal_add(a: Dec, b: Dec) -> Option<Dec>;

/// What `rust_decimal`'s `Decimal::checked_sub` returns for the two decimals.
pub uninterp spec fn decimal_sub(a: Dec, b: Dec) -> Option<Dec>;

/// What `rust_decimal`'s `Decimal::checked_mul` returns for the two decimals.
pub uninterp spec fn decimal_mul(a: Dec, b: Dec) -> Option<Dec>;

/// What `rust_decimal`'s `Decimal::checked_div` returns for the two decimals.
pub uninterp spec fn decimal_div(a: Dec, b: Dec) -> Option<Dec>;

/// The decimal digit `d` (0 to 9) as a character.
pub open spec fn digit_char(d: nat) -> char {
    (48 + d) as char
}

/// The decimal digits of `n`, most significant first: none for zero.
pub open spec fn digits(n: nat) -> Seq<char>
    decreases n,
{
    if n == 0 {
        Seq::empty()
    } else {
        digits(n / 10).push(digit_char(n % 10))
    }
}

/// The decimal digits of `n`, with a single zero for zero.
pub open spec fn nat_text(n: nat) -> Seq<char> {
    if n == 0 {
        seq!['0']
    } else {
        digits(n)
    }
}

/// What `Display` of a `rust_decimal::Decimal` writes (with no precision
/// given): a minus sign for a negative value; then the digits of the
/// mantissa's magnitude, with zeros in front up to at least `scale` digits;
/// with a scale, the digits before the last `scale` ones (a zero when there
/// are none), a point, and the last `scale` digits; without one, the digits
/// (a zero for zero).
pub open spec fn decimal_display(d: Dec) -> Seq<char> {
    let mag = (if d.mantissa < 0 { -d.mantissa } else { d.mantissa as int }) as nat;
    let raw = digits(mag);
    let ds = if raw.len() < d.scale {
        Seq::new((d.scale - raw.len()) as nat, |i: int| '0') + raw
    } else {
        raw
    };
    let whole = ds.take(ds.len() - d.scale);
    let text = if d.scale == 0 {
        if ds.len() == 0 { seq!['0'] } else { ds }
    } else {
        (if whole.len() == 0 { seq!['0'] } else { whole }) + seq!['.'] + ds.skip(ds.len() - d.scale)
    };
    if d.mantissa < 0 {
        seq!['-'] + text
    } else {
        text
    }
}

/// A result of an arithmetic name, when present, is a well-formed decimal.
pub open spec fn opt_wf(r: Option<Dec>) -> bool {
    r matches Some(x) ==> x.wf()
}

/// `<` on two `rust_decimal::Decimal` (`PartialOrd::lt`). The crate compares
/// numerically, whatever the scales: the claim is that the result is the
/// comparison of the values scaled to 28 fractional digits.
#[verifier::external_body]
pub(crate) fn decimal_less(a: Dec, b: Dec) -> (r: bool)
    requires
        a.wf(),
        b.wf(),
    ensures
        r == (a.key() < b.key()),
{
    Decimal::from_i128_with_scale(a.mantissa, a.scale) < Decimal::from_i128_with_scale(
        b.mantissa,
        b.scale,
    )
}

/// `Decimal::checked_add`. Claims only that the result is the named one and,
/// when present, a well-formed decimal (every `Decimal` has a 96-bit mantissa
/// and a scale of at most 28). What the sum is, rounding included, is left to
/// the name.
#[verifier::external_body]
pub(crate) fn checked_add(a: Dec, b: Dec) -> (r: Option<Dec>)
    requires
        a.wf(),
        b.wf(),
    ensures
        r == decimal_add(a, b),
        opt_wf(r),
{
    let x = Decimal::from_i128_with_scale(a.mantissa, a.scale).checked_add(
        Decimal::from_i128_with_scale(b.mantissa, b.scale),
    );
    match x {
        Some(d) => Some(Dec { mantissa: d.mantissa(), scale: d.scale() }),
        None => None,
    }
}

/// `Decimal::checked_sub`; as for `checked_add`, the result is the named one.
#[verifier::external_body]
pub(crate) fn checked_sub(a: Dec, b: Dec) -> (r: Option<Dec>)
    requires
        a.wf(),
        b.wf(),
    ensures
        r == decimal_sub(a, b),
        opt_wf(r),
{
    let x = Decimal::from_i128_with_scale(a.mantissa, a.scale).checked_sub(
        Decimal::from_i128_with_scale(b.mantissa, b.scale),
    );
    match x {
        Some(d) => Some(Dec { mantissa: d.mantissa(), scale: d.scale() }),
        None => None,
    }
}

/// `Decimal::checked_mul`; the result is the named one.
#[verifier::external_body]
pub(crate) fn checked_mul(a: Dec, b: Dec) -> (r: Option<Dec>)
    requires
        a.wf(),
        b.wf(),
    ensures
        r == decimal_mul(a, b),
        opt_wf(r),
{
    let x = Decimal::from_i128_with_scale(a.mantissa, a.scale).checked_mul(
        Decimal::from_i128_with_scale(b.mantissa, b.scale),
    );
    match x {
        Some(d) => Some(Dec { mantissa: d.mantissa(), scale: d.scale() }),
        None => None,
    }
}

/// `Decimal::checked_div`; the result is the named one. The crate returns
/// `None` for a zero divisor, which is also stated.
#[verifier::external_body]
pub(crate) fn checked_div(a: Dec, b: Dec) -> (r: Option<Dec>)
    requires
        a.wf(),
        b.wf(),
    ensures
        r == decimal_div(a, b),
        opt_wf(r),
        b.mantissa == 0 ==> r is None,
{
    let x = Decimal::from_i128_with_scale(a.mantissa, a.scale).checked_div(
        Decimal::from_i128_with_scale(b.mantissa, b.scale),
    );
    match x {
        Some(d) => Some(Dec { mantissa: d.mantissa(), scale: d.scale() }),
        None => None,
    }
}

/// `Display` of a `rust_decimal::Decimal` (`to_string`); the text is that of
/// [`decimal_display`].
#[verifier::external_body]
pub(crate) fn decimal_to_string(d: Dec) -> (r: String)
    requires
        d.wf(),
    ensures
        r@ == decimal_display(d),
{
    Decimal::from_i128_with_scale(d.mantissa, d.scale).to_string()
}

/// `a + b`, or `Err(Overflow)` where `rust_decimal` overflows.
pub fn dec_add(a: Dec, b: Dec) -> (r: Result<Dec, Overflow>)
    requires
        a.wf(),
        b.wf(),
    ensures
        r == opt_res(decimal_add(a, b)),
        r matches Ok(x) ==> x.wf(),
{
    res(checked_add(a, b))
}

/// `a - b`, or `Err(Overflow)`.
pub fn dec_sub(a: Dec, b: Dec) -> (r: Result<Dec, Overflow>)
    requires
        a.wf(),
        b.wf(),
    ensures
        r == opt_res(decimal_sub(a, b)),
        r matches Ok(x) ==> x.wf(),
{
    res(checked_sub(a, b))
}

/// `a * b`, or `Err(Overflow)`.
pub fn dec_mul(a: Dec, b: Dec) -> (r: Result<Dec, Overflow>)
    requires
        a.wf(),
        b.wf(),
    ensures
        r == opt_res(decimal_mul(a, b)),
        r matches Ok(x) ==> x.wf(),
{
    res(checked_mul(a, b))
}

/// `a / b`, or `Err(Overflow)` (also for a zero divisor).
pub fn dec_div(a: Dec, b: Dec) -> (r: Result<Dec, Overflow>)
    requires
        a.wf(),
        b.wf(),
    ensures
        r == opt_res(decimal_div(a, b)),
        r matches Ok(x) ==> x.wf(),
{
    res(checked_div(a, b))
}

/// An optional decimal as a result that fails with `Overflow`.
pub open spec fn opt_res(r: Option<Dec>) -> Result<Dec, Overflow> {
    match r {
        Some(x) => Ok(x),
        None => Err(Overflow),
    }
}

fn res(r: Option<Dec>) -> (out: Result<Dec, Overflow>)
    ensures
        out == opt_res(r),
        opt_wf(r) ==> (out matches Ok(x) ==> x.wf()),
{
    match r {
        Some(x) => Ok(x),
        None => Err(Overflow),
    }
}

/// `a + b` in specifications.
pub open spec fn sadd(a: Dec, b: Dec) -> Result<Dec, Overflow> {
    opt_res(decimal_add(a, b))
}

/// `a - b` in specifications.
pub open spec fn ssub(a: Dec, b: Dec) -> Result<Dec, Overflow> {
    opt_res(decimal_sub(a, b))
}

/// `a * b` in specifications.
pub open spec fn smul(a: Dec, b: Dec) -> Result<Dec, Overflow> {
    opt_res(decimal_mul(a, b))
}

/// `a / b` in specifications.
pub open spec fn sdiv(a: Dec, b: Dec) -> Result<Dec, Overflow> {
    opt_res(decimal_div(a, b))
}

/// The quantity-weighted average cost of holding `qty` at `cost` and adding
/// `added_qty` at `price`, for a total of `total`: `(cost * qty + price *
/// added_qty) / total`, each step in decimal arithmetic.
pub open spec fn weighted_cost(cost: Dec, qty: Dec, price: Dec, added_qty: Dec, total: Dec) -> Result<Dec, Overflow> {
    match (smul(cost, qty), smul(price, added_qty)) {
        (Ok(held), Ok(added)) => match sadd(held, added) {
            Ok(sum) => sdiv(sum, total),
            Err(e) => Err(e),
        },
        (Err(e), _) => Err(e),
        (_, Err(e)) => Err(e),
    }
}

} // verus!
