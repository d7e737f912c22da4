//! Fixed-point decimal money values.
//!
//! `Dec` holds what a `rust_decimal::Decimal` is made of: a signed 96-bit
//! mantissa and a scale between 0 and 28; its value is `mantissa / 10^scale`.
//! The arithmetic itself is done by `rust_decimal`; the contracts below state
//! the exact result in the cases where that crate does not round.
use vstd::prelude::*;

use crate::text::{int_text, nat_text};

verus! {

/// The largest mantissa magnitude a decimal can hold (2^96 - 1).
pub const MANTISSA_MAX: i128 = 0xFFFF_FFFF_FFFF_FFFF_FFFF_FFFFi128;

/// The largest scale a decimal can have.
pub const SCALE_MAX: u32 = 28;

/// 10 to the power `n`.
pub open spec fn pow10(n: nat) -> int
    decreases n,
{
    if n == 0 {
        1
    } else {
        10 * pow10((n - 1) as nat)
    }
}

/// Whether an integer fits in a decimal's 96-bit mantissa.
pub open spec fn fits(m: int) -> bool {
    -MANTISSA_MAX <= m <= MANTISSA_MAX
}

/// A decimal number `mantissa / 10^scale`.
#[derive(Clone, Copy, Debug)]
pub struct Dec {
    pub mantissa: i128,
    pub scale: u32,
}

impl Dec {
    /// The parts are those of a representable decimal.
    pub open spec fn wf(self) -> bool {
        self.scale <= SCALE_MAX && fits(self.mantissa as int)
    }

    /// The mantissa brought to scale `s` (for `s >= self.scale`).
    pub open spec fn at_scale(self, s: nat) -> int {
        self.mantissa * pow10((s - self.scale) as nat)
    }

    /// The decimal `mantissa / 10^scale`; mirrors `Decimal::from_i128_with_scale`,
    /// which panics on parts that are not representable.
    pub fn new(mantissa: i128, scale: u32) -> (r: Dec)
        requires
            scale <= SCALE_MAX,
            fits(mantissa as int),
        ensures
            r.mantissa == mantissa,
            r.scale == scale,
            r.wf(),
    {
        Dec { mantissa, scale }
    }

    /// Zero at scale 0.
    pub open spec fn spec_zero() -> Dec {
        Dec { mantissa: 0, scale: 0 }
    }

    /// Zero, at scale 0 (`Decimal::ZERO`).
    pub fn zero() -> (r: Dec)
        ensures
            r == Dec::spec_zero(),
            r.mantissa == 0,
            r.scale == 0,
            r.wf(),
    {
        Dec { mantissa: 0, scale: 0 }
    }

    /// The integer `n` at scale 0 (`Decimal::from(n)`).
    pub fn from_u32(n: u32) -> (r: Dec)
        ensures
            r.mantissa == n as int,
            r.scale == 0,
            r.wf(),
    {
        Dec { mantissa: n as i128, scale: 0 }
    }

    /// Whether the value is zero (`Decimal::is_zero`).
    pub fn is_zero(&self) -> (r: bool)
        ensures
            r == (self.mantissa == 0),
    {
        self.mantissa == 0
    }
}

/// The larger of the two scales.
pub open spec fn max_scale(a: Dec, b: Dec) -> nat {
    if a.scale >= b.scale {
        a.scale as nat
    } else {
        b.scale as nat
    }
}

/// `a < b` as values.
pub open spec fn dec_lt(a: Dec, b: Dec) -> bool {
    a.mantissa * pow10(b.scale as nat) < b.mantissa * pow10(a.scale as nat)
}

/// `a <= b` as values.
pub open spec fn dec_le(a: Dec, b: Dec) -> bool {
    a.mantissa * pow10(b.scale as nat) <= b.mantissa * pow10(a.scale as nat)
}

/// `a == b` as values (`1.50` equals `1.5`).
pub open spec fn dec_eq(a: Dec, b: Dec) -> bool {
    a.mantissa * pow10(b.scale as nat) == b.mantissa * pow10(a.scale as nat)
}

/// The sum as `rust_decimal` forms it when nothing has to be rounded: a zero
/// operand gives back the other one, otherwise both are brought to the larger
/// scale and added.
pub open spec fn spec_add(a: Dec, b: Dec) -> Dec {
    if a.mantissa == 0 {
        b
    } else if b.mantissa == 0 {
        a
    } else {
        let s = max_scale(a, b);
        Dec { mantissa: (a.at_scale(s) + b.at_scale(s)) as i128, scale: s as u32 }
    }
}

/// The sum needs no rounding: the operands at the common scale and the sum
/// all fit in 96 bits.
pub open spec fn add_exact(a: Dec, b: Dec) -> bool {
    a.mantissa == 0 || b.mantissa == 0 || {
        let s = max_scale(a, b);
        &&& fits(a.at_scale(s))
        &&& fits(b.at_scale(s))
        &&& fits(a.at_scale(s) + b.at_scale(s))
    }
}

/// The difference as `rust_decimal` forms it when nothing has to be rounded.
pub open spec fn spec_sub(a: Dec, b: Dec) -> Dec {
    if a.mantissa == 0 {
        Dec { mantissa: (-b.mantissa) as i128, scale: b.scale }
    } else if b.mantissa == 0 {
        a
    } else {
        let s = max_scale(a, b);
        Dec { mantissa: (a.at_scale(s) - b.at_scale(s)) as i128, scale: s as u32 }
    }
}

/// The difference needs no rounding.
pub open spec fn sub_exact(a: Dec, b: Dec) -> bool {
    a.mantissa == 0 || b.mantissa == 0 || {
        let s = max_scale(a, b);
        &&& fits(a.at_scale(s))
        &&& fits(b.at_scale(s))
        &&& fits(a.at_scale(s) - b.at_scale(s))
    }
}

/// The product as `rust_decimal` forms it when nothing has to be rounded: a
/// zero operand gives zero at scale 0, otherwise mantissas multiply and scales
/// add.
pub open spec fn spec_mul(a: Dec, b: Dec) -> Dec {
    if a.mantissa == 0 || b.mantissa == 0 {
        Dec { mantissa: 0, scale: 0 }
    } else {
        Dec { mantissa: (a.mantissa * b.mantissa) as i128, scale: (a.scale + b.scale) as u32 }
    }
}

/// The product needs no rounding.
pub open spec fn mul_exact(a: Dec, b: Dec) -> bool {
    a.mantissa == 0 || b.mantissa == 0 || (fits(a.mantissa * b.mantissa) && a.scale + b.scale
        <= SCALE_MAX)
}

/// The sum lies within the range of a decimal (its magnitude is at most 2^96 - 1).
pub open spec fn sum_in_range(a: Dec, b: Dec) -> bool {
    let s = max_scale(a, b);
    -MANTISSA_MAX * pow10(s) <= a.at_scale(s) + b.at_scale(s) <= MANTISSA_MAX * pow10(s)
}

/// The difference lies within the range of a decimal.
pub open spec fn diff_in_range(a: Dec, b: Dec) -> bool {
    let s = max_scale(a, b);
    -MANTISSA_MAX * pow10(s) <= a.at_scale(s) - b.at_scale(s) <= MANTISSA_MAX * pow10(s)
}

/// The product lies within the range of a decimal.
pub open spec fn prod_in_range(a: Dec, b: Dec) -> bool {
    let p = pow10((a.scale + b.scale) as nat);
    -MANTISSA_MAX * p <= a.mantissa * b.mantissa <= MANTISSA_MAX * p
}

/// The divisor is not zero and the quotient lies within the range of a decimal.
pub open spec fn quot_in_range(a: Dec, b: Dec) -> bool {
    let n = a.mantissa * pow10(b.scale as nat);
    let d = b.mantissa * pow10(a.scale as nat);
    &&& b.mantissa != 0
    &&& (d > 0 ==> -MANTISSA_MAX * d <= n <= MANTISSA_MAX * d)
    &&& (d < 0 ==> MANTISSA_MAX * d <= n <= -MANTISSA_MAX * d)
}

/// What `rust_decimal` gives for `a + b`, as mantissa and scale.
pub uninterp spec fn decimal_sum(am: i128, ascale: u32, bm: i128, bscale: u32) -> (i128, u32);

/// What `rust_decimal` gives for `a - b`, as mantissa and scale.
pub uninterp spec fn decimal_difference(am: i128, ascale: u32, bm: i128, bscale: u32) -> (i128, u32);

/// What `rust_decimal` gives for `a * b`, as mantissa and scale.
pub uninterp spec fn decimal_product(am: i128, ascale: u32, bm: i128, bscale: u32) -> (i128, u32);

/// What `rust_decimal` gives for `a / b`, as mantissa and scale.
pub uninterp spec fn decimal_quotient(am: i128, ascale: u32, bm: i128, bscale: u32) -> (i128, u32);

/// The decimal digits of the magnitude of `m` (none for zero), with zeros in
/// front up to `scale` digits.
pub open spec fn scaled_digits(m: int, scale: nat) -> Seq<char> {
    let a = if m < 0 { -m } else { m };
    let d = if a == 0 { Seq::<char>::empty() } else { nat_text(a as nat) };
    if d.len() >= scale {
        d
    } else {
        Seq::new((scale - d.len()) as nat, |_i: int| '0') + d
    }
}

/// The text `rust_decimal` prints for a decimal (its `Display`): `-` for a
/// negative mantissa, the whole digits (`0` where there are none) and, at a
/// positive scale, a point and exactly `scale` fraction digits.
pub open spec fn decimal_text(m: i128, scale: u32) -> Seq<char> {
    let d = scaled_digits(m as int, scale as nat);
    let w = d.len() - scale;
    let whole = if w == 0 { seq!['0'] } else { d.take(w) };
    let body = if scale == 0 { whole } else { whole + seq!['.'] + d.skip(w) };
    if m < 0 { seq!['-'] + body } else { body }
}

/// `Decimal::checked_add` gives a sum (`+` does not overflow).
pub uninterp spec fn decimal_sum_ok(am: i128, ascale: u32, bm: i128, bscale: u32) -> bool;

/// `Decimal::checked_sub` gives a difference (`-` does not overflow).
pub uninterp spec fn decimal_difference_ok(am: i128, ascale: u32, bm: i128, bscale: u32) -> bool;

/// `Decimal::checked_mul` gives a product (`*` does not overflow).
pub uninterp spec fn decimal_product_ok(am: i128, ascale: u32, bm: i128, bscale: u32) -> bool;

/// `Decimal::checked_div` gives a quotient (`/` neither overflows nor divides
/// by zero).
pub uninterp spec fn decimal_quotient_ok(am: i128, ascale: u32, bm: i128, bscale: u32) -> bool;

/// `a + b` does not overflow: the exact sum is within range, or the crate
/// finds a representable (rounded) sum.
pub open spec fn sum_fits(a: Dec, b: Dec) -> bool {
    sum_in_range(a, b) || decimal_sum_ok(a.mantissa, a.scale, b.mantissa, b.scale)
}

/// `a - b` does not overflow.
pub open spec fn diff_fits(a: Dec, b: Dec) -> bool {
    diff_in_range(a, b) || decimal_difference_ok(a.mantissa, a.scale, b.mantissa, b.scale)
}

/// `a * b` does not overflow.
pub open spec fn prod_fits(a: Dec, b: Dec) -> bool {
    prod_in_range(a, b) || decimal_product_ok(a.mantissa, a.scale, b.mantissa, b.scale)
}

/// `a / b` neither overflows nor divides by zero.
pub open spec fn quot_fits(a: Dec, b: Dec) -> bool {
    quot_in_range(a, b) || decimal_quotient_ok(a.mantissa, a.scale, b.mantissa, b.scale)
}

/// The text of a decimal.
pub open spec fn dtext(d: Dec) -> Seq<char> {
    decimal_text(d.mantissa, d.scale)
}

/// What `rust_decimal` parses from a text (its `FromStr`), as mantissa and scale.
pub uninterp spec fn decimal_parse(s: Seq<char>) -> Option<(i128, u32)>;

/// The named sum as a decimal.
pub open spec fn dsum(a: Dec, b: Dec) -> Dec {
    let t = decimal_sum(a.mantissa, a.scale, b.mantissa, b.scale);
    Dec { mantissa: t.0, scale: t.1 }
}

/// The named difference as a decimal.
pub open spec fn ddiff(a: Dec, b: Dec) -> Dec {
    let t = decimal_difference(a.mantissa, a.scale, b.mantissa, b.scale);
    Dec { mantissa: t.0, scale: t.1 }
}

/// The named product as a decimal.
pub open spec fn dprod(a: Dec, b: Dec) -> Dec {
    let t = decimal_product(a.mantissa, a.scale, b.mantissa, b.scale);
    Dec { mantissa: t.0, scale: t.1 }
}

/// The named quotient as a decimal.
pub open spec fn dquot(a: Dec, b: Dec) -> Dec {
    let t = decimal_quotient(a.mantissa, a.scale, b.mantissa, b.scale);
    Dec { mantissa: t.0, scale: t.1 }
}

/// `a + b` by `rust_decimal`'s `Add`, for a sum that does not overflow (the
/// operator panics only then). The result is named; where nothing has to be
/// rounded it is the exact sum as that crate forms it; rounding keeps the sum
/// of two non-negative decimals non-negative.
#[verifier::external_body]
pub(crate) fn rd_add(a: Dec, b: Dec) -> (r: Dec)
    requires
        a.wf(),
        b.wf(),
        sum_fits(a, b),
    ensures
        (r.mantissa, r.scale) == decimal_sum(a.mantissa, a.scale, b.mantissa, b.scale),
        add_exact(a, b) ==> r == spec_add(a, b),
        a.mantissa >= 0 && b.mantissa >= 0 ==> r.mantissa >= 0,
        r.wf(),
{
    let x = rust_decimal::Decimal::from_i128_with_scale(a.mantissa, a.scale);
    let y = rust_decimal::Decimal::from_i128_with_scale(b.mantissa, b.scale);
    let z = x + y;
    Dec { mantissa: z.mantissa(), scale: z.scale() }
}

/// `a - b` by `rust_decimal`'s `Sub`, for a difference that does not
/// overflow. The result is named; where nothing has to be rounded it is the
/// exact difference; the difference of a smaller from a larger value is never
/// negative.
#[verifier::external_body]
pub(crate) fn rd_sub(a: Dec, b: Dec) -> (r: Dec)
    requires
        a.wf(),
        b.wf(),
        diff_fits(a, b),
    ensures
        (r.mantissa, r.scale) == decimal_difference(a.mantissa, a.scale, b.mantissa, b.scale),
        sub_exact(a, b) ==> r == spec_sub(a, b),
        dec_le(b, a) ==> r.mantissa >= 0,
        r.wf(),
{
    let x = rust_decimal::Decimal::from_i128_with_scale(a.mantissa, a.scale);
    let y = rust_decimal::Decimal::from_i128_with_scale(b.mantissa, b.scale);
    let z = x - y;
    Dec { mantissa: z.mantissa(), scale: z.scale() }
}

/// `a * b` by `rust_decimal`'s `Mul`, for a product that does not overflow.
/// The result is named; where nothing has to be rounded it is the exact
/// product; the product of two non-negative decimals is never negative.
#[verifier::external_body]
pub(crate) fn rd_mul(a: Dec, b: Dec) -> (r: Dec)
    requires
        a.wf(),
        b.wf(),
        prod_fits(a, b),
    ensures
        (r.mantissa, r.scale) == decimal_product(a.mantissa, a.scale, b.mantissa, b.scale),
        mul_exact(a, b) ==> r == spec_mul(a, b),
        a.mantissa >= 0 && b.mantissa >= 0 ==> r.mantissa >= 0,
        r.wf(),
{
    let x = rust_decimal::Decimal::from_i128_with_scale(a.mantissa, a.scale);
    let y = rust_decimal::Decimal::from_i128_with_scale(b.mantissa, b.scale);
    let z = x * y;
    Dec { mantissa: z.mantissa(), scale: z.scale() }
}

/// The division that `rust_decimal` finishes at once: the divisor is not
/// zero, its mantissa divides the dividend's, and the dividend has at least
/// the divisor's scale.
pub open spec fn quot_whole(a: Dec, b: Dec) -> bool {
    b.mantissa != 0 && a.scale >= b.scale && a.mantissa % b.mantissa == 0
}

/// The quotient of such a division: zero (at scale 0) for a zero dividend,
/// else the quotient of the mantissas at the difference of the scales.
pub open spec fn spec_quot_whole(a: Dec, b: Dec) -> Dec {
    if a.mantissa == 0 {
        Dec { mantissa: 0, scale: 0 }
    } else {
        Dec { mantissa: (a.mantissa / b.mantissa) as i128, scale: (a.scale - b.scale) as u32 }
    }
}

/// `a / b` by `rust_decimal`'s `Div`, for a non-zero divisor and a quotient
/// that does not overflow. The quotient is named; where the divisor's
/// mantissa divides the dividend's and the scales allow it (`quot_whole`),
/// it is that quotient of mantissas (the division's path without remainder).
#[verifier::external_body]
pub(crate) fn rd_div(a: Dec, b: Dec) -> (r: Dec)
    requires
        a.wf(),
        b.wf(),
        quot_fits(a, b),
    ensures
        (r.mantissa, r.scale) == decimal_quotient(a.mantissa, a.scale, b.mantissa, b.scale),
        quot_whole(a, b) ==> r == spec_quot_whole(a, b),
        r.wf(),
{
    let x = rust_decimal::Decimal::from_i128_with_scale(a.mantissa, a.scale);
    let y = rust_decimal::Decimal::from_i128_with_scale(b.mantissa, b.scale);
    let z = x / y;
    Dec { mantissa: z.mantissa(), scale: z.scale() }
}

/// `Decimal::checked_add`: the sum that `+` gives, or none where `+` would
/// overflow; an exact sum within range is always given, and where nothing has
/// to be rounded it is the exact sum.
#[verifier::external_body]
fn rd_checked_add(a: Dec, b: Dec) -> (r: Option<Dec>)
    requires
        a.wf(),
        b.wf(),
    ensures
        r is Some <==> decimal_sum_ok(a.mantissa, a.scale, b.mantissa, b.scale),
        sum_in_range(a, b) ==> r is Some,
        r matches Some(z) ==> (z.mantissa, z.scale) == decimal_sum(a.mantissa, a.scale, b.mantissa, b.scale) && z.wf(),
        add_exact(a, b) ==> r == Some(spec_add(a, b)),
{
    let x = rust_decimal::Decimal::from_i128_with_scale(a.mantissa, a.scale);
    let y = rust_decimal::Decimal::from_i128_with_scale(b.mantissa, b.scale);
    match x.checked_add(y) {
        Some(z) => Some(Dec { mantissa: z.mantissa(), scale: z.scale() }),
        None => None,
    }
}

/// `Decimal::checked_sub`: the difference that `-` gives, or none where `-`
/// would overflow; an exact difference within range is always given, and
/// where nothing has to be rounded it is the exact difference.
#[verifier::external_body]
fn rd_checked_sub(a: Dec, b: Dec) -> (r: Option<Dec>)
    requires
        a.wf(),
        b.wf(),
    ensures
        r is Some <==> decimal_difference_ok(a.mantissa, a.scale, b.mantissa, b.scale),
        diff_in_range(a, b) ==> r is Some,
        r matches Some(z) ==> (z.mantissa, z.scale) == decimal_difference(a.mantissa, a.scale, b.mantissa, b.scale) && z.wf(),
        sub_exact(a, b) ==> r == Some(spec_sub(a, b)),
{
    let x = rust_decimal::Decimal::from_i128_with_scale(a.mantissa, a.scale);
    let y = rust_decimal::Decimal::from_i128_with_scale(b.mantissa, b.scale);
    match x.checked_sub(y) {
        Some(z) => Some(Dec { mantissa: z.mantissa(), scale: z.scale() }),
        None => None,
    }
}

/// `Decimal::checked_mul`: the product that `*` gives, or none where `*`
/// would overflow; an exact product within range is always given, and where
/// nothing has to be rounded it is the exact product.
#[verifier::external_body]
fn rd_checked_mul(a: Dec, b: Dec) -> (r: Option<Dec>)
    requires
        a.wf(),
        b.wf(),
    ensures
        r is Some <==> decimal_product_ok(a.mantissa, a.scale, b.mantissa, b.scale),
        prod_in_range(a, b) ==> r is Some,
        r matches Some(z) ==> (z.mantissa, z.scale) == decimal_product(a.mantissa, a.scale, b.mantissa, b.scale) && z.wf(),
        mul_exact(a, b) ==> r == Some(spec_mul(a, b)),
{
    let x = rust_decimal::Decimal::from_i128_with_scale(a.mantissa, a.scale);
    let y = rust_decimal::Decimal::from_i128_with_scale(b.mantissa, b.scale);
    match x.checked_mul(y) {
        Some(z) => Some(Dec { mantissa: z.mantissa(), scale: z.scale() }),
        None => None,
    }
}

/// `Decimal::checked_div`: the quotient that `/` gives, or none where `/`
/// would overflow or divide by zero; a quotient within range by a non-zero
/// divisor is always given.
#[verifier::external_body]
fn rd_checked_div(a: Dec, b: Dec) -> (r: Option<Dec>)
    requires
        a.wf(),
        b.wf(),
    ensures
        r is Some <==> decimal_quotient_ok(a.mantissa, a.scale, b.mantissa, b.scale),
        quot_in_range(a, b) ==> r is Some,
        r matches Some(z) ==> (z.mantissa, z.scale) == decimal_quotient(a.mantissa, a.scale, b.mantissa, b.scale) && z.wf(),
{
    let x = rust_decimal::Decimal::from_i128_with_scale(a.mantissa, a.scale);
    let y = rust_decimal::Decimal::from_i128_with_scale(b.mantissa, b.scale);
    match x.checked_div(y) {
        Some(z) => Some(Dec { mantissa: z.mantissa(), scale: z.scale() }),
        None => None,
    }
}

/// `a < b` by `rust_decimal`'s ordering, which compares values.
#[verifier::external_body]
pub(crate) fn rd_lt(a: Dec, b: Dec) -> (r: bool)
    requires
        a.wf(),
        b.wf(),
    ensures
        r == dec_lt(a, b),
{
    let x = rust_decimal::Decimal::from_i128_with_scale(a.mantissa, a.scale);
    let y = rust_decimal::Decimal::from_i128_with_scale(b.mantissa, b.scale);
    x < y
}

/// `a <= b` by `rust_decimal`'s ordering, which compares values.
#[verifier::external_body]
pub(crate) fn rd_le(a: Dec, b: Dec) -> (r: bool)
    requires
        a.wf(),
        b.wf(),
    ensures
        r == dec_le(a, b),
{
    let x = rust_decimal::Decimal::from_i128_with_scale(a.mantissa, a.scale);
    let y = rust_decimal::Decimal::from_i128_with_scale(b.mantissa, b.scale);
    x <= y
}

/// The text of a decimal by `rust_decimal`'s `Display` (`to_string`): the
/// mantissa's digits with a point `scale` places from the right, as
/// `decimal_text` spells out.
#[verifier::external_body]
pub(crate) fn rd_text(a: Dec) -> (r: String)
    requires
        a.wf(),
    ensures
        r@ == decimal_text(a.mantissa, a.scale),
{
    rust_decimal::Decimal::from_i128_with_scale(a.mantissa, a.scale).to_string()
}

/// A decimal parsed from text by `rust_decimal`'s `FromStr`. The result is
/// named; the decimal text of a whole number within `i64` or `u64` (an
/// optional `-` and its digits, without leading zeros) reads as that number
/// at scale 0.
#[verifier::external_body]
pub(crate) fn rd_parse(s: &str) -> (r: Option<Dec>)
    ensures
        match r {
            Some(d) => decimal_parse(s@) == Some((d.mantissa, d.scale)) && d.wf(),
            None => decimal_parse(s@) is None,
        },
        forall|n: int|
            i64::MIN <= n <= u64::MAX && #[trigger] int_text(n) == s@ ==> r == Some(
                Dec { mantissa: n as i128, scale: 0 },
            ),
{
    match <rust_decimal::Decimal as std::str::FromStr>::from_str(s) {
        Ok(z) => Some(Dec { mantissa: z.mantissa(), scale: z.scale() }),
        Err(_) => None,
    }
}

/// 10^n is positive.
pub proof fn lemma_pow10_pos(n: nat)
    ensures
        pow10(n) >= 1,
    decreases n,
{
    if n > 0 {
        lemma_pow10_pos((n - 1) as nat);
    }
}

/// A value that fits in the mantissa is within range at any scale.
proof fn lemma_fits_in_range(x: int, s: nat)
    requires
        fits(x),
    ensures
        -MANTISSA_MAX * pow10(s) <= x <= MANTISSA_MAX * pow10(s),
{
    lemma_pow10_pos(s);
    let p = pow10(s);
    assert(MANTISSA_MAX * 1 <= MANTISSA_MAX * p) by (nonlinear_arith)
        requires
            p >= 1,
    ;
}

/// 10^n grows with n.
pub proof fn lemma_pow10_mono(m: nat, n: nat)
    requires
        m <= n,
    ensures
        pow10(m) <= pow10(n),
    decreases n,
{
    lemma_pow10_pos(n);
    if m < n {
        lemma_pow10_mono(m, (n - 1) as nat);
    }
}

/// A mantissa scaled up to `s` stays within range at `s`.
proof fn lemma_scaled_in_range(d: Dec, s: nat)
    requires
        d.wf(),
        d.scale <= s,
    ensures
        -MANTISSA_MAX * pow10(s) <= d.at_scale(s) <= MANTISSA_MAX * pow10(s),
{
    let q = pow10((s - d.scale) as nat);
    let p = pow10(s);
    lemma_pow10_pos((s - d.scale) as nat);
    lemma_pow10_mono((s - d.scale) as nat, s);
    let m = d.mantissa as int;
    assert(-MANTISSA_MAX * p <= m * q <= MANTISSA_MAX * p) by (nonlinear_arith)
        requires
            -MANTISSA_MAX <= m <= MANTISSA_MAX,
            1 <= q <= p,
    ;
}

/// An exact sum, difference or product is within range.
pub proof fn lemma_exact_in_range(a: Dec, b: Dec)
    requires
        a.wf(),
        b.wf(),
    ensures
        add_exact(a, b) ==> sum_in_range(a, b),
        sub_exact(a, b) ==> diff_in_range(a, b),
        mul_exact(a, b) ==> prod_in_range(a, b),
{
    let s = max_scale(a, b);
    lemma_scaled_in_range(a, s);
    lemma_scaled_in_range(b, s);
    lemma_pow10_pos(s);
    if a.mantissa == 0 {
        assert(a.at_scale(s) == 0);
    }
    if b.mantissa == 0 {
        assert(b.at_scale(s) == 0);
    }
    if fits(a.at_scale(s) + b.at_scale(s)) {
        lemma_fits_in_range(a.at_scale(s) + b.at_scale(s), s);
    }
    if fits(a.at_scale(s) - b.at_scale(s)) {
        lemma_fits_in_range(a.at_scale(s) - b.at_scale(s), s);
    }
    let ps = pow10((a.scale + b.scale) as nat);
    lemma_pow10_pos((a.scale + b.scale) as nat);
    if a.mantissa == 0 || b.mantissa == 0 {
        assert(a.mantissa * b.mantissa == 0) by (nonlinear_arith)
            requires
                a.mantissa == 0 || b.mantissa == 0,
        ;
        assert(MANTISSA_MAX * ps >= 0) by (nonlinear_arith)
            requires
                ps >= 1,
        ;
    } else if fits(a.mantissa * b.mantissa) {
        lemma_fits_in_range(a.mantissa * b.mantissa, (a.scale + b.scale) as nat);
    }
}

/// An exact sum, difference or product of representable decimals is
/// representable.
pub proof fn lemma_exact_wf(a: Dec, b: Dec)
    requires
        a.wf(),
        b.wf(),
    ensures
        add_exact(a, b) ==> spec_add(a, b).wf(),
        sub_exact(a, b) ==> spec_sub(a, b).wf(),
        mul_exact(a, b) ==> spec_mul(a, b).wf(),
{
}

impl Dec {
    /// `self + other` (the `+` of `Decimal`).
    pub fn plus(self, other: Dec) -> (r: Dec)
        requires
            self.wf(),
            other.wf(),
            sum_fits(self, other),
        ensures
            (r.mantissa, r.scale) == decimal_sum(self.mantissa, self.scale, other.mantissa, other.scale),
            add_exact(self, other) ==> r == spec_add(self, other),
            self.mantissa >= 0 && other.mantissa >= 0 ==> r.mantissa >= 0,
            r.wf(),
    {
        rd_add(self, other)
    }

    /// `self - other` (the `-` of `Decimal`).
    pub fn minus(self, other: Dec) -> (r: Dec)
        requires
            self.wf(),
            other.wf(),
            diff_fits(self, other),
        ensures
            (r.mantissa, r.scale) == decimal_difference(self.mantissa, self.scale, other.mantissa, other.scale),
            sub_exact(self, other) ==> r == spec_sub(self, other),
            dec_le(other, self) ==> r.mantissa >= 0,
            r.wf(),
    {
        rd_sub(self, other)
    }

    /// `self * other` (the `*` of `Decimal`).
    pub fn times(self, other: Dec) -> (r: Dec)
        requires
            self.wf(),
            other.wf(),
            prod_fits(self, other),
        ensures
            (r.mantissa, r.scale) == decimal_product(self.mantissa, self.scale, other.mantissa, other.scale),
            mul_exact(self, other) ==> r == spec_mul(self, other),
            self.mantissa >= 0 && other.mantissa >= 0 ==> r.mantissa >= 0,
            r.wf(),
    {
        rd_mul(self, other)
    }

    /// `self / other` (the `/` of `Decimal`).
    pub fn divided_by(self, other: Dec) -> (r: Dec)
        requires
            self.wf(),
            other.wf(),
            quot_fits(self, other),
        ensures
            (r.mantissa, r.scale) == decimal_quotient(self.mantissa, self.scale, other.mantissa, other.scale),
            quot_whole(self, other) ==> r == spec_quot_whole(self, other),
            r.wf(),
    {
        rd_div(self, other)
    }

    /// `self < other` as values.
    pub fn lt(self, other: Dec) -> (r: bool)
        requires
            self.wf(),
            other.wf(),
        ensures
            r == dec_lt(self, other),
    {
        rd_lt(self, other)
    }

    /// `self <= other` as values.
    pub fn le(self, other: Dec) -> (r: bool)
        requires
            self.wf(),
            other.wf(),
        ensures
            r == dec_le(self, other),
    {
        rd_le(self, other)
    }

    /// `self + other`, or none where it would overflow (`checked_add`).
    pub fn checked_plus(self, other: Dec) -> (r: Option<Dec>)
        requires
            self.wf(),
            other.wf(),
        ensures
            r is Some <==> sum_fits(self, other),
            r matches Some(z) ==> (z.mantissa, z.scale) == decimal_sum(self.mantissa, self.scale, other.mantissa, other.scale) && z.wf(),
            add_exact(self, other) ==> r == Some(spec_add(self, other)),
    {
        rd_checked_add(self, other)
    }

    /// `self - other`, or none where it would overflow (`checked_sub`).
    pub fn checked_minus(self, other: Dec) -> (r: Option<Dec>)
        requires
            self.wf(),
            other.wf(),
        ensures
            r is Some <==> diff_fits(self, other),
            r matches Some(z) ==> (z.mantissa, z.scale) == decimal_difference(self.mantissa, self.scale, other.mantissa, other.scale) && z.wf(),
            sub_exact(self, other) ==> r == Some(spec_sub(self, other)),
    {
        rd_checked_sub(self, other)
    }

    /// `self * other`, or none where it would overflow (`checked_mul`).
    pub fn checked_times(self, other: Dec) -> (r: Option<Dec>)
        requires
            self.wf(),
            other.wf(),
        ensures
            r is Some <==> prod_fits(self, other),
            r matches Some(z) ==> (z.mantissa, z.scale) == decimal_product(self.mantissa, self.scale, other.mantissa, other.scale) && z.wf(),
            mul_exact(self, other) ==> r == Some(spec_mul(self, other)),
    {
        rd_checked_mul(self, other)
    }

    /// `self / other`, or none where it would overflow or divide by zero
    /// (`checked_div`).
    pub fn checked_divided_by(self, other: Dec) -> (r: Option<Dec>)
        requires
            self.wf(),
            other.wf(),
        ensures
            r is Some <==> quot_fits(self, other),
            r matches Some(z) ==> (z.mantissa, z.scale) == decimal_quotient(self.mantissa, self.scale, other.mantissa, other.scale) && z.wf(),
    {
        rd_checked_div(self, other)
    }

    /// The text of the decimal, as `Decimal::to_string` prints it.
    pub fn to_text(self) -> (r: String)
        requires
            self.wf(),
        ensures
            r@ == decimal_text(self.mantissa, self.scale),
    {
        rd_text(self)
    }
}

} // verus!

verus! {

/// 10^(a+b) = 10^a * 10^b.
pub proof fn lemma_pow10_add(a: nat, b: nat)
    ensures
        pow10(a + b) == pow10(a) * pow10(b),
    decreases a,
{
    if a > 0 {
        lemma_pow10_add((a - 1) as nat, b);
        assert(pow10(a + b) == 10 * pow10((a - 1 + b) as nat));
        assert(pow10(a) == 10 * pow10((a - 1) as nat));
        assert(10 * (pow10((a - 1) as nat) * pow10(b)) == (10 * pow10((a - 1) as nat)) * pow10(b))
            by (nonlinear_arith);
    }
}

/// A decimal brought to a larger scale keeps its value.
pub proof fn lemma_rescaled_eq(d: Dec, s: nat)
    requires
        d.scale <= s,
    ensures
        d.at_scale(s) * pow10(d.scale as nat) == d.mantissa * pow10(s),
{
    let k = (s - d.scale) as nat;
    lemma_pow10_add(k, d.scale as nat);
    assert(d.mantissa * pow10(k) * pow10(d.scale as nat) == d.mantissa * (pow10(k) * pow10(
        d.scale as nat,
    ))) by (nonlinear_arith);
}

/// Taking a decimal away and adding it back gives the same value.
pub proof fn lemma_sub_add_cancel(b: Dec, c: Dec)
    requires
        b.wf(),
        c.wf(),
        sub_exact(b, c),
        add_exact(spec_sub(b, c), c),
    ensures
        dec_eq(spec_add(spec_sub(b, c), c), b),
{
    let x = spec_sub(b, c);
    let s = max_scale(b, c);
    lemma_pow10_pos(b.scale as nat);
    lemma_pow10_pos(c.scale as nat);
    if b.mantissa == 0 {
        assert(c.at_scale(c.scale as nat) == c.mantissa * 1);
        assert(0 * pow10(c.scale as nat) == 0);
    } else if c.mantissa == 0 {
    } else {
        lemma_rescaled_eq(b, s);
        lemma_rescaled_eq(c, s);
        let y = spec_add(x, c);
        if x.mantissa == 0 {
            // b and c have the same value
            let pb = pow10(b.scale as nat);
            let pc = pow10(c.scale as nat);
            let ps = pow10(s);
            lemma_pow10_pos(s);
            assert(b.at_scale(s) == c.at_scale(s));
            assert(c.mantissa * pb * ps == b.mantissa * pc * ps) by (nonlinear_arith)
                requires
                    b.at_scale(s) * pb == b.mantissa * ps,
                    c.at_scale(s) * pc == c.mantissa * ps,
                    b.at_scale(s) == c.at_scale(s),
            {
                assert(c.mantissa * pb * ps == c.mantissa * ps * pb);
                assert(c.mantissa * ps * pb == c.at_scale(s) * pc * pb);
                assert(b.mantissa * pc * ps == b.mantissa * ps * pc);
                assert(b.mantissa * ps * pc == b.at_scale(s) * pb * pc);
            }
            assert(c.mantissa * pb == b.mantissa * pc) by (nonlinear_arith)
                requires
                    c.mantissa * pb * ps == b.mantissa * pc * ps,
                    ps >= 1,
            ;
        } else {
            assert(x.scale == s);
            assert(x.at_scale(s) == x.mantissa * pow10(0));
            assert(y.mantissa == b.at_scale(s));
            assert(y.scale == s);
        }
    }
}

} // verus!
