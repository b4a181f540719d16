//! Exact decimal amounts of money.
//!
//! An amount is an integer mantissa together with a scale: the number of
//! digits after the decimal point. Its mathematical value is
//! `mantissa / 10^scale`. Contracts speak of an amount through its view, the
//! value counted in units of `10^-28`, which is an integer for every scale
//! this type admits.

use crate::decimal::{decimal_checked_add, decimal_order, decimal_sum};
use std::cmp::Ordering;
use vstd::prelude::*;

verus! {

/// The largest number of digits after the decimal point.
pub const MAX_SCALE: u32 = 28;

/// The largest magnitude of a mantissa: `2^96 - 1`.
pub const MAX_MANTISSA: i128 = 79_228_162_514_264_337_593_543_950_335;

/// `10^n`.
pub open spec fn pow10(n: nat) -> nat
    decreases n,
{
    if n == 0 {
        1
    } else {
        10 * pow10((n - 1) as nat)
    }
}

/// Whether a mantissa and a scale describe an amount.
pub open spec fn in_range(mantissa: i128, scale: u32) -> bool {
    -MAX_MANTISSA <= mantissa <= MAX_MANTISSA && scale <= MAX_SCALE
}

/// Whether two decimals add without any rescaling: they have one scale, and
/// the sum of their mantissas is the mantissa of a decimal.
pub open spec fn sums_plainly(am: i128, a_scale: u32, bm: i128, b_scale: u32) -> bool {
    a_scale == b_scale && -MAX_MANTISSA <= am + bm <= MAX_MANTISSA
}

/// The value of `mantissa / 10^scale`, counted in units of `10^-28`.
pub open spec fn value_of(mantissa: i128, scale: u32) -> int {
    mantissa * pow10((MAX_SCALE - scale) as nat)
}

/// A decimal amount of money, positive for a credit and negative for a debit.
#[derive(Clone, Copy, Debug)]
pub struct Amount {
    mantissa: i128,
    scale: u32,
}

impl View for Amount {
    type V = int;

    /// The value of the amount in units of `10^-28`.
    open spec fn view(&self) -> int {
        value_of(self.spec_mantissa(), self.spec_scale())
    }
}

impl Amount {
    #[verifier::type_invariant]
    spec fn valid(self) -> bool {
        in_range(self.mantissa, self.scale)
    }

    /// Whether the two amounts add without any rescaling (`sums_plainly`).
    pub open spec fn adds_plainly(&self, other: Amount) -> bool {
        sums_plainly(
            self.spec_mantissa(),
            self.spec_scale(),
            other.spec_mantissa(),
            other.spec_scale(),
        )
    }

    /// The mantissa of the amount.
    pub closed spec fn spec_mantissa(&self) -> i128 {
        self.mantissa
    }

    /// The number of digits after the decimal point.
    pub closed spec fn spec_scale(&self) -> u32 {
        self.scale
    }

    /// The amount `mantissa / 10^scale`, where the two are in range.
    pub fn new(mantissa: i128, scale: u32) -> (r: Option<Amount>)
        ensures
            in_range(mantissa, scale) <==> r is Some,
            r matches Some(a) ==> a.spec_mantissa() == mantissa && a.spec_scale() == scale,
    {
        if scale <= MAX_SCALE && -MAX_MANTISSA <= mantissa && mantissa <= MAX_MANTISSA {
            Some(Amount { mantissa, scale })
        } else {
            None
        }
    }

    /// The amount of `units` whole units.
    pub fn from_units(units: i64) -> (r: Amount)
        ensures
            r.spec_mantissa() == units,
            r.spec_scale() == 0,
    {
        Amount { mantissa: units as i128, scale: 0 }
    }

    /// The amount zero.
    pub fn zero() -> (r: Amount)
        ensures
            r.spec_mantissa() == 0,
            r.spec_scale() == 0,
            r@ == 0,
    {
        assert(0 * pow10(28) == 0) by (nonlinear_arith);
        Amount { mantissa: 0, scale: 0 }
    }

    /// The mantissa of the amount.
    #[verifier::when_used_as_spec(spec_mantissa)]
    pub fn mantissa(&self) -> (r: i128)
        ensures
            r == self.spec_mantissa(),
            in_range(r, self.spec_scale()),
    {
        proof {
            use_type_invariant(self);
        }
        self.mantissa
    }

    /// The number of digits after the decimal point.
    #[verifier::when_used_as_spec(spec_scale)]
    pub fn scale(&self) -> (r: u32)
        ensures
            r == self.spec_scale(),
            in_range(self.spec_mantissa(), r),
    {
        proof {
            use_type_invariant(self);
        }
        self.scale
    }

    /// Whether the amount is zero.
    pub fn is_zero(&self) -> (r: bool)
        ensures
            r == (self@ == 0),
    {
        proof {
            use_type_invariant(self);
            lemma_value_sign(self.mantissa, self.scale);
        }
        self.mantissa == 0
    }

    /// Whether the amount is below zero: a debit.
    pub fn is_negative(&self) -> (r: bool)
        ensures
            r == (self@ < 0),
    {
        proof {
            use_type_invariant(self);
            lemma_value_sign(self.mantissa, self.scale);
        }
        self.mantissa < 0
    }

    /// The amount with the opposite sign.
    pub fn neg(&self) -> (r: Amount)
        ensures
            r@ == -self@,
            r.spec_mantissa() == -self.spec_mantissa(),
            r.spec_scale() == self.spec_scale(),
    {
        proof {
            use_type_invariant(self);
            let m = self.mantissa as int;
            let p = pow10((MAX_SCALE - self.scale) as nat) as int;
            assert((-m) * p == -(m * p)) by (nonlinear_arith);
        }
        Amount { mantissa: -self.mantissa, scale: self.scale }
    }

    /// Whether this amount is less than `other`.
    pub fn lt(&self, other: &Amount) -> (r: bool)
        ensures
            r == (self@ < other@),
    {
        proof {
            use_type_invariant(self);
            use_type_invariant(other);
        }
        match decimal_order(self.mantissa, self.scale, other.mantissa, other.scale) {
            Ordering::Less => true,
            Ordering::Equal => false,
            Ordering::Greater => false,
        }
    }

    /// Whether this amount is at least `other`.
    pub fn ge(&self, other: &Amount) -> (r: bool)
        ensures
            r == (self@ >= other@),
    {
        !self.lt(other)
    }

    /// Whether the two amounts have the same value, whatever their scales.
    pub fn same_value(&self, other: &Amount) -> (r: bool)
        ensures
            r == (self@ == other@),
    {
        proof {
            use_type_invariant(self);
            use_type_invariant(other);
        }
        match decimal_order(self.mantissa, self.scale, other.mantissa, other.scale) {
            Ordering::Less => false,
            Ordering::Equal => true,
            Ordering::Greater => false,
        }
    }

    /// The sum of the two amounts, where the decimal arithmetic gives it
    /// exactly; `None` where it overflows or would be rounded. Two amounts
    /// that add without any rescaling always have a sum.
    pub fn checked_add(&self, other: &Amount) -> (r: Option<Amount>)
        ensures
            match exact_sum(*self, *other) {
                Some((mantissa, scale)) => r matches Some(sum) && sum.spec_mantissa() == mantissa
                    && sum.spec_scale() == scale,
                None => r is None,
            },
            r matches Some(sum) ==> sum@ == self@ + other@,
            self.adds_plainly(*other) ==> exact_sum(*self, *other) == Some(
                ((self.spec_mantissa() + other.spec_mantissa()) as i128, self.spec_scale()),
            ),
    {
        proof {
            use_type_invariant(self);
            use_type_invariant(other);
            if self.adds_plainly(*other) {
                let sum = (self.mantissa + other.mantissa) as i128;
                let x = self.mantissa as int;
                let y = other.mantissa as int;
                let p = pow10((MAX_SCALE - self.scale) as nat) as int;
                assert((x + y) * p == x * p + y * p) by (nonlinear_arith);
                assert(is_exact_sum(
                    self.mantissa,
                    self.scale,
                    other.mantissa,
                    other.scale,
                    sum,
                    self.scale,
                ));
            }
        }
        match decimal_checked_add(self.mantissa, self.scale, other.mantissa, other.scale) {
            Some((mantissa, scale)) => {
                if confirms_sum(self, other, mantissa, scale) {
                    Some(Amount { mantissa, scale })
                } else {
                    None
                }
            },
            None => None,
        }
    }
}

/// `10^n` is positive.
pub proof fn lemma_pow10_positive(n: nat)
    ensures
        pow10(n) >= 1,
    decreases n,
{
    if n > 0 {
        lemma_pow10_positive((n - 1) as nat);
    }
}

/// `10^(a + b) == 10^a * 10^b`.
pub proof fn lemma_pow10_adds(a: nat, b: nat)
    ensures
        pow10(a + b) == pow10(a) * pow10(b),
    decreases a,
{
    if a > 0 {
        lemma_pow10_adds((a - 1) as nat, b);
        assert(pow10(a + b) == 10 * pow10((a - 1 + b) as nat));
        assert(10 * (pow10((a - 1) as nat) * pow10(b)) == (10 * pow10((a - 1) as nat)) * pow10(b))
            by (nonlinear_arith);
    } else {
        assert(pow10(a) * pow10(b) == pow10(b)) by (nonlinear_arith)
            requires
                pow10(a) == 1,
        ;
    }
}

/// `10^n` grows with `n`.
pub proof fn lemma_pow10_monotonic(a: nat, b: nat)
    requires
        a <= b,
    ensures
        pow10(a) <= pow10(b),
{
    lemma_pow10_adds(a, (b - a) as nat);
    lemma_pow10_positive(a);
    lemma_pow10_positive((b - a) as nat);
    let x = pow10(a);
    let y = pow10((b - a) as nat);
    assert(x <= x * y) by (nonlinear_arith)
        requires
            x >= 1,
            y >= 1,
    ;
}

/// A mantissa written with `digits` more digits after the decimal point.
pub open spec fn scaled(mantissa: i128, digits: nat) -> int {
    mantissa * pow10(digits)
}

/// Whether `v` is an `i128`.
pub open spec fn fits_i128(v: int) -> bool {
    i128::MIN <= v <= i128::MAX
}

/// Whether `mantissa / 10^scale` is a decimal and is exactly the sum of
/// `am / 10^a_scale` and `bm / 10^b_scale`.
pub open spec fn is_exact_sum(
    am: i128,
    a_scale: u32,
    bm: i128,
    b_scale: u32,
    mantissa: i128,
    scale: u32,
) -> bool {
    in_range(mantissa, scale) && value_of(mantissa, scale) == value_of(am, a_scale) + value_of(
        bm,
        b_scale,
    )
}

/// A mantissa scaled further lies further from zero.
pub proof fn lemma_scaled_grows(mantissa: i128, less: nat, more: nat)
    requires
        less <= more,
    ensures
        mantissa >= 0 ==> scaled(mantissa, more) >= scaled(mantissa, less),
        mantissa <= 0 ==> scaled(mantissa, more) <= scaled(mantissa, less),
{
    lemma_pow10_monotonic(less, more);
    let m = mantissa as int;
    let x = pow10(less) as int;
    let y = pow10(more) as int;
    assert(m >= 0 ==> m * y >= m * x) by (nonlinear_arith)
        requires
            x <= y,
    ;
    assert(m <= 0 ==> m * y <= m * x) by (nonlinear_arith)
        requires
            x <= y,
    ;
}

/// `mantissa * 10^digits`, where that is an `i128`.
pub fn scale_up(mantissa: i128, digits: u32) -> (r: Option<i128>)
    ensures
        fits_i128(scaled(mantissa, digits as nat)) ==> r == Some(
            scaled(mantissa, digits as nat) as i128,
        ),
        !fits_i128(scaled(mantissa, digits as nat)) ==> r is None,
{
    let mut acc: i128 = mantissa;
    let mut done: u32 = 0;
    assert(scaled(mantissa, 0) == mantissa) by (nonlinear_arith)
        requires
            pow10(0) == 1,
    ;
    while done < digits
        invariant
            done <= digits,
            acc == scaled(mantissa, done as nat),
        decreases digits - done,
    {
        proof {
            let m = mantissa as int;
            let p = pow10(done as nat) as int;
            assert(pow10((done + 1) as nat) == 10 * pow10(done as nat));
            assert(m * (10 * p) == (m * p) * 10) by (nonlinear_arith);
            lemma_scaled_grows(mantissa, (done + 1) as nat, digits as nat);
            lemma_value_sign_scaled(mantissa, (done + 1) as nat);
        }
        match acc.checked_mul(10) {
            Some(next) => {
                acc = next;
            },
            None => {
                return None;
            },
        }
        done = done + 1;
    }
    Some(acc)
}

/// A scaled mantissa has the sign of the mantissa.
pub proof fn lemma_value_sign_scaled(mantissa: i128, digits: nat)
    ensures
        mantissa >= 0 ==> scaled(mantissa, digits) >= 0,
        mantissa <= 0 ==> scaled(mantissa, digits) <= 0,
{
    lemma_pow10_positive(digits);
    let m = mantissa as int;
    let p = pow10(digits) as int;
    assert(m >= 0 ==> m * p >= 0) by (nonlinear_arith)
        requires
            p >= 1,
    ;
    assert(m <= 0 ==> m * p <= 0) by (nonlinear_arith)
        requires
            p >= 1,
    ;
}

/// `10^28`, written out.
pub proof fn lemma_pow10_of_max_scale()
    ensures
        pow10(28) == 10000000000000000000000000000int,
{
    reveal_with_fuel(pow10, 29);
}

/// `10^digits` is an `i128` for every number of digits that a scale allows.
pub proof fn lemma_pow10_fits(digits: nat)
    requires
        digits <= MAX_SCALE,
    ensures
        1 <= pow10(digits) <= 10000000000000000000000000000int,
{
    lemma_pow10_positive(digits);
    lemma_pow10_monotonic(digits, 28);
    lemma_pow10_of_max_scale();
}

/// The sum of three decimals whose scales do not fall, written at the middle
/// scale: the first is scaled up to it, and the last stands `10^(zs - ys)`
/// times too large.
pub proof fn lemma_sum_at_middle_scale(x: i128, xs: u32, y: i128, ys: u32, z: i128, zs: u32)
    requires
        xs <= ys <= zs <= MAX_SCALE,
    ensures
        value_of(x, xs) + value_of(y, ys) + value_of(z, zs) == ((scaled(x, (ys - xs) as nat) + y)
            * pow10((zs - ys) as nat) + z) * pow10((MAX_SCALE - zs) as nat),
{
    let e = (ys - xs) as nat;
    let d = (zs - ys) as nat;
    let rest = (MAX_SCALE - zs) as nat;
    lemma_pow10_adds(d, rest);
    lemma_pow10_adds(e, d + rest);
    assert(e + (d + rest) == (MAX_SCALE - xs) as nat);
    assert(d + rest == (MAX_SCALE - ys) as nat);
    let big_e = pow10(e) as int;
    let big_p = pow10(d) as int;
    let big_r = pow10(rest) as int;
    let xi = x as int;
    let yi = y as int;
    let zi = z as int;
    assert(xi * (big_e * (big_p * big_r)) + yi * (big_p * big_r) + zi * big_r == ((xi * big_e + yi)
        * big_p + zi) * big_r) by (nonlinear_arith);
}

/// Whether three decimals whose scales do not fall add up to zero.
fn sum_is_zero(x: i128, xs: u32, y: i128, ys: u32, z: i128, zs: u32) -> (r: bool)
    requires
        in_range(x, xs),
        in_range(y, ys),
        in_range(z, zs),
        xs <= ys,
        ys <= zs,
    ensures
        r == (value_of(x, xs) + value_of(y, ys) + value_of(z, zs) == 0),
{
    let up: u32 = ys - xs;
    let down: u32 = zs - ys;
    let ghost wide = scaled(x, up as nat);
    let ghost big_p = pow10(down as nat) as int;
    let ghost big_r = pow10((MAX_SCALE - zs) as nat) as int;
    let ghost inner = (wide + y) * big_p + z;
    proof {
        lemma_sum_at_middle_scale(x, xs, y, ys, z, zs);
        lemma_pow10_fits(down as nat);
        lemma_pow10_fits((MAX_SCALE - zs) as nat);
        assert(scaled(1, down as nat) == big_p) by (nonlinear_arith)
            requires
                scaled(1, down as nat) == 1 * big_p,
        ;
        assert((inner * big_r == 0) == (inner == 0)) by (nonlinear_arith)
            requires
                big_r >= 1,
        ;
    }
    let power: i128 = match scale_up(1, down) {
        Some(power) => power,
        None => {
            return false;
        },
    };
    let size: i128 = if z < 0 {
        -z
    } else {
        z
    };
    proof {
        vstd::arithmetic::div_mod::lemma_fundamental_div_mod(size as int, big_p);
        vstd::arithmetic::div_mod::lemma_mod_pos_bound(size as int, big_p);
    }
    if size % power != 0 {
        proof {
            if inner == 0 {
                let k = if z < 0 {
                    wide + y
                } else {
                    -(wide + y)
                };
                assert(size == k * big_p) by (nonlinear_arith)
                    requires
                        (wide + y) * big_p + z == 0,
                        size == if z < 0 {
                            -z
                        } else {
                            z as int
                        },
                        k == if z < 0 {
                            wide + y
                        } else {
                            -(wide + y)
                        },
                ;
                vstd::arithmetic::div_mod::lemma_mod_multiples_basic(k, big_p);
            }
        }
        return false;
    }
    let part: i128 = size / power;
    let ghost quotient = (size as int) / big_p;
    proof {
        assert(0 <= quotient <= size) by (nonlinear_arith)
            requires
                size == big_p * quotient,
                big_p >= 1,
                size >= 0,
        ;
    }
    let last: i128 = if z < 0 {
        -part
    } else {
        part
    };
    proof {
        assert(z == last * big_p) by (nonlinear_arith)
            requires
                size == big_p * quotient,
                last == if z < 0 {
                    -quotient
                } else {
                    quotient
                },
                size == if z < 0 {
                    -z
                } else {
                    z as int
                },
        ;
        assert(inner == (wide + y + last) * big_p) by (nonlinear_arith)
            requires
                inner == (wide + y) * big_p + z,
                z == last * big_p,
        ;
        assert(((wide + y + last) * big_p == 0) == (wide + y + last == 0)) by (nonlinear_arith)
            requires
                big_p >= 1,
        ;
    }
    let first: i128 = match scale_up(x, up) {
        Some(first) => first,
        None => {
            return false;
        },
    };
    let two: i128 = match first.checked_add(y) {
        Some(two) => two,
        None => {
            return false;
        },
    };
    match two.checked_add(last) {
        Some(all) => all == 0,
        None => false,
    }
}

/// Whether `mantissa / 10^scale` is a decimal and is exactly the sum of `a`
/// and `b`.
pub fn confirms_sum(a: &Amount, b: &Amount, mantissa: i128, scale: u32) -> (r: bool)
    ensures
        r == is_exact_sum(
            a.spec_mantissa(),
            a.spec_scale(),
            b.spec_mantissa(),
            b.spec_scale(),
            mantissa,
            scale,
        ),
        r ==> value_of(mantissa, scale) == a@ + b@,
{
    proof {
        use_type_invariant(a);
        use_type_invariant(b);
    }
    if !(scale <= MAX_SCALE && -MAX_MANTISSA <= mantissa && mantissa <= MAX_MANTISSA) {
        return false;
    }
    let less: i128 = -mantissa;
    proof {
        let m = mantissa as int;
        let p = pow10((MAX_SCALE - scale) as nat) as int;
        assert((-m) * p == -(m * p)) by (nonlinear_arith);
    }
    if a.scale <= b.scale {
        if b.scale <= scale {
            sum_is_zero(a.mantissa, a.scale, b.mantissa, b.scale, less, scale)
        } else if a.scale <= scale {
            sum_is_zero(a.mantissa, a.scale, less, scale, b.mantissa, b.scale)
        } else {
            sum_is_zero(less, scale, a.mantissa, a.scale, b.mantissa, b.scale)
        }
    } else {
        if a.scale <= scale {
            sum_is_zero(b.mantissa, b.scale, a.mantissa, a.scale, less, scale)
        } else if b.scale <= scale {
            sum_is_zero(b.mantissa, b.scale, less, scale, a.mantissa, a.scale)
        } else {
            sum_is_zero(less, scale, b.mantissa, b.scale, a.mantissa, a.scale)
        }
    }
}

/// The sum of two amounts where `rust_decimal` gives one and it is exact
/// (`is_exact_sum`): its mantissa and its scale. There is none where the
/// decimal arithmetic overflows or rounds.
pub open spec fn exact_sum(a: Amount, b: Amount) -> Option<(i128, u32)> {
    match decimal_sum(a.spec_mantissa(), a.spec_scale(), b.spec_mantissa(), b.spec_scale()) {
        Some((mantissa, scale)) => if is_exact_sum(
            a.spec_mantissa(),
            a.spec_scale(),
            b.spec_mantissa(),
            b.spec_scale(),
            mantissa,
            scale,
        ) {
            Some((mantissa, scale))
        } else {
            None
        },
        None => None,
    }
}

/// The value of an amount has the sign of its mantissa.
pub proof fn lemma_value_sign(mantissa: i128, scale: u32)
    requires
        scale <= MAX_SCALE,
    ensures
        mantissa == 0 <==> value_of(mantissa, scale) == 0,
        mantissa < 0 <==> value_of(mantissa, scale) < 0,
        mantissa > 0 <==> value_of(mantissa, scale) > 0,
{
    let p = pow10((MAX_SCALE - scale) as nat);
    lemma_pow10_positive((MAX_SCALE - scale) as nat);
    assert(mantissa == 0 <==> mantissa * p == 0) by (nonlinear_arith)
        requires
            p >= 1,
    ;
    assert(mantissa < 0 <==> mantissa * p < 0) by (nonlinear_arith)
        requires
            p >= 1,
    ;
    assert(mantissa > 0 <==> mantissa * p > 0) by (nonlinear_arith)
        requires
            p >= 1,
    ;
}

} // verus!
