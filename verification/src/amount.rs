//! Exact decimal quantities, computed by `rust_decimal`.

use rust_decimal::Decimal;
use vstd::arithmetic::power::{lemma_pow0, lemma_pow_positive, pow};
use vstd::prelude::*;

verus! {

/// Largest magnitude of a mantissa: 2^96 - 1.
pub const MAX_MANTISSA: i128 = 0x0000_0000_FFFF_FFFF_FFFF_FFFF_FFFF_FFFFi128;

/// Largest number of decimal places.
pub const MAX_SCALE: u32 = 28u32;

/// The number `mantissa / 10^scale`.
pub struct AmountView {
    pub mantissa: int,
    pub scale: nat,
}

/// Whether a decimal with these parts can be represented.
pub open spec fn valid_amount(v: AmountView) -> bool {
    -MAX_MANTISSA <= v.mantissa <= MAX_MANTISSA && v.scale <= MAX_SCALE
}

/// The quantity zero, with no decimal places.
pub open spec fn zero_view() -> AmountView {
    AmountView { mantissa: 0, scale: 0 }
}

/// `a < b` as numbers.
pub open spec fn amount_lt(a: AmountView, b: AmountView) -> bool {
    a.mantissa * pow(10, b.scale) < b.mantissa * pow(10, a.scale)
}

/// `a` and `b` are the same number, whatever their scales.
pub open spec fn same_value(a: AmountView, b: AmountView) -> bool {
    a.mantissa * pow(10, b.scale) == b.mantissa * pow(10, a.scale)
}

/// What `Decimal::checked_add` returns on two decimals given by mantissa and
/// scale, where the sum has to be rescaled, rounded or refused.
pub uninterp spec fn decimal_sum(m1: int, s1: nat, m2: int, s2: nat) -> Option<(int, nat)>;

/// What `Decimal::checked_sub` returns on two decimals given by mantissa and
/// scale, where the difference has to be rescaled, rounded or refused.
pub uninterp spec fn decimal_difference(m1: int, s1: nat, m2: int, s2: nat) -> Option<(int, nat)>;

/// The amount with the given mantissa and scale, where there is one.
pub open spec fn from_parts_view(parts: Option<(int, nat)>) -> Option<AmountView> {
    match parts {
        Some((m, s)) => Some(AmountView { mantissa: m, scale: s }),
        None => None,
    }
}

/// The checked sum of two decimals, given what the decimal arithmetic makes
/// of the operands in `otherwise`: adding zero changes nothing, and two
/// operands of one scale whose mantissas add up within 96 bits give exactly
/// that sum at that scale.
pub open spec fn sum_with(a: AmountView, b: AmountView, otherwise: Option<(int, nat)>) -> Option<
    AmountView,
> {
    if a.mantissa == 0 {
        Some(b)
    } else if b.mantissa == 0 {
        Some(a)
    } else if a.scale == b.scale && -MAX_MANTISSA <= a.mantissa + b.mantissa <= MAX_MANTISSA {
        Some(AmountView { mantissa: a.mantissa + b.mantissa, scale: a.scale })
    } else {
        from_parts_view(otherwise)
    }
}

/// The checked sum of two decimals; `None` where it cannot be represented.
pub open spec fn sum_spec(a: AmountView, b: AmountView) -> Option<AmountView> {
    sum_with(a, b, decimal_sum(a.mantissa, a.scale, b.mantissa, b.scale))
}

/// The checked difference of two decimals, given what the decimal arithmetic
/// makes of the operands in `otherwise`: taking zero away changes nothing,
/// zero less `b` is `b` negated, and two operands of one scale whose mantissas
/// differ within 96 bits give exactly that difference at that scale.
pub open spec fn difference_with(
    a: AmountView,
    b: AmountView,
    otherwise: Option<(int, nat)>,
) -> Option<AmountView> {
    if a.mantissa == 0 {
        Some(AmountView { mantissa: -b.mantissa, scale: b.scale })
    } else if b.mantissa == 0 {
        Some(a)
    } else if a.scale == b.scale && -MAX_MANTISSA <= a.mantissa - b.mantissa <= MAX_MANTISSA {
        Some(AmountView { mantissa: a.mantissa - b.mantissa, scale: a.scale })
    } else {
        from_parts_view(otherwise)
    }
}

/// The checked difference of two decimals; `None` where it cannot be
/// represented.
pub open spec fn difference_spec(a: AmountView, b: AmountView) -> Option<AmountView> {
    difference_with(a, b, decimal_difference(a.mantissa, a.scale, b.mantissa, b.scale))
}

/// The view of an optional amount.
pub open spec fn view_opt(r: Option<Amount>) -> Option<AmountView> {
    match r {
        Some(a) => Some(a@),
        None => None,
    }
}

/// An exact decimal quantity: a signed mantissa of at most 96 bits and a
/// number of decimal places of at most 28.
#[derive(Clone, Copy, Debug)]
pub struct Amount {
    mantissa: i128,
    scale: u32,
}

impl View for Amount {
    type V = AmountView;

    closed spec fn view(&self) -> AmountView {
        AmountView { mantissa: self.mantissa as int, scale: self.scale as nat }
    }
}

/// `Decimal::checked_add` on the decimals with the parts of `a` and `b`,
/// built by `Decimal::from_i128_with_scale` and read back by `mantissa` and
/// `scale`.
/// Trusted: a zero operand gives the other operand back; operands of one
/// scale whose mantissas add up within 96 bits give that sum at that scale;
/// any other result, `None` for an overflow, is only given the name
/// `decimal_sum`.
#[verifier::external_body]
fn decimal_checked_add(a: Amount, b: Amount) -> (r: Option<Amount>)
    requires
        valid_amount(a@),
        valid_amount(b@),
    ensures
        view_opt(r) == sum_with(
            a@,
            b@,
            decimal_sum(a@.mantissa, a@.scale, b@.mantissa, b@.scale),
        ),
{
    let x = Decimal::from_i128_with_scale(a.mantissa, a.scale);
    let y = Decimal::from_i128_with_scale(b.mantissa, b.scale);
    match x.checked_add(y) {
        Some(d) => Some(Amount { mantissa: d.mantissa(), scale: d.scale() }),
        None => None,
    }
}

/// `Decimal::checked_sub` on the decimals with the parts of `a` and `b`,
/// built by `Decimal::from_i128_with_scale` and read back by `mantissa` and
/// `scale`.
/// Trusted: zero less `b` is `b` with its sign reversed; taking zero away
/// gives `a` back; operands of one scale whose mantissas differ within 96
/// bits give that difference at that scale; any other result, `None` for an
/// overflow, is only given the name `decimal_difference`.
#[verifier::external_body]
fn decimal_checked_sub(a: Amount, b: Amount) -> (r: Option<Amount>)
    requires
        valid_amount(a@),
        valid_amount(b@),
    ensures
        view_opt(r) == difference_with(
            a@,
            b@,
            decimal_difference(a@.mantissa, a@.scale, b@.mantissa, b@.scale),
        ),
{
    let x = Decimal::from_i128_with_scale(a.mantissa, a.scale);
    let y = Decimal::from_i128_with_scale(b.mantissa, b.scale);
    match x.checked_sub(y) {
        Some(d) => Some(Amount { mantissa: d.mantissa(), scale: d.scale() }),
        None => None,
    }
}

/// The `<` of `Decimal` on the decimals with the parts of `a` and `b`, built
/// by `Decimal::from_i128_with_scale`.
/// Trusted: it orders decimals by their numeric value, whatever their scales.
#[verifier::external_body]
fn decimal_lt(a: Amount, b: Amount) -> (r: bool)
    requires
        valid_amount(a@),
        valid_amount(b@),
    ensures
        r == amount_lt(a@, b@),
{
    let x = Decimal::from_i128_with_scale(a.mantissa, a.scale);
    let y = Decimal::from_i128_with_scale(b.mantissa, b.scale);
    x < y
}

impl Amount {
    #[verifier::type_invariant]
    spec fn representable(self) -> bool {
        valid_amount(self@)
    }

    /// The decimal `num / 10^scale`.
    pub fn new(num: i64, scale: u32) -> (r: Amount)
        requires
            scale <= MAX_SCALE,
        ensures
            r@ == (AmountView { mantissa: num as int, scale: scale as nat }),
    {
        Amount { mantissa: num as i128, scale }
    }

    /// The decimal `mantissa / 10^scale`, where it can be represented.
    pub fn try_from_parts(mantissa: i128, scale: u32) -> (r: Option<Amount>)
        ensures
            view_opt(r) == (if valid_amount(AmountView { mantissa: mantissa as int, scale: scale as nat }) {
                Some(AmountView { mantissa: mantissa as int, scale: scale as nat })
            } else {
                None
            }),
    {
        if scale <= MAX_SCALE && -MAX_MANTISSA <= mantissa && mantissa <= MAX_MANTISSA {
            Some(Amount { mantissa, scale })
        } else {
            None
        }
    }

    /// Zero, with no decimal places.
    pub fn zero() -> (r: Amount)
        ensures
            r@ == zero_view(),
    {
        Amount { mantissa: 0, scale: 0 }
    }

    /// The mantissa: the amount is `mantissa / 10^scale`.
    pub fn mantissa(&self) -> (m: i128)
        ensures
            m == self@.mantissa,
            -MAX_MANTISSA <= m <= MAX_MANTISSA,
    {
        proof {
            use_type_invariant(self);
        }
        self.mantissa
    }

    /// The number of decimal places.
    pub fn scale(&self) -> (s: u32)
        ensures
            s == self@.scale,
            s <= MAX_SCALE,
    {
        proof {
            use_type_invariant(self);
        }
        self.scale
    }

    /// Whether `self` is a smaller number than `other`.
    pub fn lt(&self, other: &Amount) -> (r: bool)
        ensures
            r == amount_lt(self@, other@),
    {
        proof {
            use_type_invariant(self);
            use_type_invariant(other);
        }
        decimal_lt(*self, *other)
    }

    /// Whether `self` is below zero.
    pub fn is_negative(&self) -> (r: bool)
        ensures
            r == (self@.mantissa < 0),
            r == amount_lt(self@, zero_view()),
    {
        proof {
            lemma_lt_zero(self@);
        }
        self.lt(&Amount::zero())
    }

    /// Whether `self` is above zero.
    pub fn is_positive(&self) -> (r: bool)
        ensures
            r == (self@.mantissa > 0),
            r == amount_lt(zero_view(), self@),
    {
        proof {
            lemma_lt_zero(self@);
        }
        Amount::zero().lt(self)
    }

    /// The sum, or `None` where it cannot be represented.
    pub fn checked_add(self, other: Amount) -> (r: Option<Amount>)
        ensures
            view_opt(r) == sum_spec(self@, other@),
    {
        proof {
            use_type_invariant(self);
            use_type_invariant(other);
        }
        decimal_checked_add(self, other)
    }

    /// The difference, or `None` where it cannot be represented.
    pub fn checked_sub(self, other: Amount) -> (r: Option<Amount>)
        ensures
            view_opt(r) == difference_spec(self@, other@),
    {
        proof {
            use_type_invariant(self);
            use_type_invariant(other);
        }
        decimal_checked_sub(self, other)
    }
}

impl PartialEq for Amount {
    /// Two amounts are equal where they are the same number: `1.0 == 1.00`.
    fn eq(&self, other: &Amount) -> (r: bool) {
        !self.lt(other) && !other.lt(self)
    }
}

impl vstd::std_specs::cmp::PartialEqSpecImpl for Amount {
    open spec fn obeys_eq_spec() -> bool {
        true
    }

    open spec fn eq_spec(&self, other: &Amount) -> bool {
        same_value(self@, other@)
    }
}

impl Eq for Amount {

}

/// Against zero only the sign of the mantissa decides.
pub proof fn lemma_lt_zero(a: AmountView)
    ensures
        amount_lt(a, zero_view()) <==> a.mantissa < 0,
        amount_lt(zero_view(), a) <==> a.mantissa > 0,
{
    lemma_pow0(10);
    lemma_pow_positive(10, a.scale);
    let p = pow(10, a.scale);
    assert(a.mantissa * 1 == a.mantissa);
    assert(0 * p == 0);
    assert(0 * 1 == 0int);
}

/// When two amounts are the same number: always where they are equal part
/// by part; at one scale, exactly where the mantissas agree; against a zero,
/// exactly where the other is a zero too, whatever the scales.
pub proof fn lemma_same_value(a: AmountView, b: AmountView)
    ensures
        a == b ==> same_value(a, b),
        a.scale == b.scale ==> (same_value(a, b) <==> a.mantissa == b.mantissa),
        a.mantissa == 0 ==> (same_value(a, b) <==> b.mantissa == 0),
{
    let p = pow(10, a.scale);
    let q = pow(10, b.scale);
    let m = a.mantissa;
    let n = b.mantissa;
    lemma_pow_positive(10, a.scale);
    lemma_pow_positive(10, b.scale);
    assert(0 * q == 0) by (nonlinear_arith);
    assert(n * p == 0 <==> n == 0) by (nonlinear_arith)
        requires
            p > 0,
    ;
    assert(m * p == n * p <==> m == n) by (nonlinear_arith)
        requires
            p > 0,
    ;
}

} // verus!
