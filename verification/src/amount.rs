//! Exact decimal amounts: an integer mantissa and a count of fractional
//! digits, within the limits of `rust_decimal::Decimal`.

use rust_decimal::Decimal;
use vstd::prelude::*;

verus! {

/// The largest number of fractional digits an amount can carry.
pub const MAX_SCALE: u32 = 28;

/// The largest magnitude of a mantissa: `2^96 - 1`.
pub const MAX_MANTISSA: i128 = 79_228_162_514_264_337_593_543_950_335;

/// Ten to the power `n`.
pub open spec fn pow10(n: nat) -> int
    decreases n,
{
    if n == 0 {
        1
    } else {
        10 * pow10((n - 1) as nat)
    }
}

/// Whether `m` can be the mantissa of an amount.
pub open spec fn fits_mantissa(m: int) -> bool {
    -MAX_MANTISSA <= m <= MAX_MANTISSA
}

/// The decimal number `mantissa / 10^scale`.
#[derive(Debug, Clone, Copy)]
pub struct Amount {
    pub mantissa: i128,
    pub scale: u32,
}

impl View for Amount {
    type V = int;

    /// The amount counted in units of `10^-28`, the finest step any amount
    /// can resolve: two amounts denote the same number exactly when their
    /// views are equal.
    open spec fn view(&self) -> int {
        self.mantissa * pow10((MAX_SCALE - self.scale) as nat)
    }
}

impl Amount {
    /// The mantissa and the scale are within the limits of a decimal.
    pub open spec fn wf(self) -> bool {
        fits_mantissa(self.mantissa as int) && self.scale <= MAX_SCALE
    }

    /// Zero, with no fractional digits.
    pub open spec fn spec_zero() -> Amount {
        Amount { mantissa: 0, scale: 0 }
    }

    /// Zero, with no fractional digits.
    pub fn zero() -> (r: Amount)
        ensures
            r == Amount::spec_zero(),
            r.wf(),
            r@ == 0,
    {
        Amount { mantissa: 0, scale: 0 }
    }

    /// Tells whether the mantissa and the scale are within a decimal's
    /// limits.
    pub fn is_valid(self) -> (r: bool)
        ensures
            r == self.wf(),
    {
        self.scale <= MAX_SCALE && -MAX_MANTISSA <= self.mantissa && self.mantissa <= MAX_MANTISSA
    }

    /// The amount `mantissa / 10^scale`, where a decimal can hold it.
    pub fn new(mantissa: i128, scale: u32) -> (r: Option<Amount>)
        ensures
            r is Some <==> fits_mantissa(mantissa as int) && scale <= MAX_SCALE,
            r is Some ==> r == Some(Amount { mantissa, scale }),
    {
        if scale <= MAX_SCALE && -MAX_MANTISSA <= mantissa && mantissa <= MAX_MANTISSA {
            Some(Amount { mantissa, scale })
        } else {
            None
        }
    }
}

impl Amount {
    /// The number of fractional digits that a sum or difference of two
    /// non-zero amounts carries: the larger of the two scales.
    pub open spec fn common_scale(self, other: Amount) -> u32 {
        if self.scale >= other.scale {
            self.scale
        } else {
            other.scale
        }
    }

    /// The mantissa of this amount written with `s` fractional digits, for
    /// an `s` not below its own scale.
    pub open spec fn aligned(self, s: u32) -> int {
        self.mantissa * pow10((s - self.scale) as nat)
    }

    /// Whether a decimal holds `self + other` without rounding. A zero
    /// operand hands the other one back; otherwise both are written with
    /// the larger scale and the sum of the mantissas has to fit.
    pub open spec fn sum_exact(self, other: Amount) -> bool {
        let s = self.common_scale(other);
        self.mantissa == 0 || other.mantissa == 0 || fits_mantissa(
            self.aligned(s) + other.aligned(s),
        )
    }

    /// Whether a decimal holds `self - other` without rounding.
    pub open spec fn diff_exact(self, other: Amount) -> bool {
        let s = self.common_scale(other);
        self.mantissa == 0 || other.mantissa == 0 || fits_mantissa(
            self.aligned(s) - other.aligned(s),
        )
    }

    /// `self + other`, where `sum_exact` holds.
    pub open spec fn spec_add(self, other: Amount) -> Amount {
        let s = self.common_scale(other);
        if self.mantissa == 0 {
            other
        } else if other.mantissa == 0 {
            self
        } else {
            Amount { mantissa: (self.aligned(s) + other.aligned(s)) as i128, scale: s }
        }
    }

    /// `self - other`, where `diff_exact` holds.
    pub open spec fn spec_sub(self, other: Amount) -> Amount {
        let s = self.common_scale(other);
        if self.mantissa == 0 {
            Amount { mantissa: (-other.mantissa) as i128, scale: other.scale }
        } else if other.mantissa == 0 {
            self
        } else {
            Amount { mantissa: (self.aligned(s) - other.aligned(s)) as i128, scale: s }
        }
    }
}

/// Powers of ten are positive.
pub proof fn lemma_pow10_positive(n: nat)
    ensures
        pow10(n) >= 1,
    decreases n,
{
    if n > 0 {
        lemma_pow10_positive((n - 1) as nat);
    }
}

/// Ten to a sum of exponents is the product of the two powers.
pub proof fn lemma_pow10_adds(a: nat, b: nat)
    ensures
        pow10(a + b) == pow10(a) * pow10(b),
    decreases a,
{
    if a == 0 {
        assert(pow10(0 + b) == 1 * pow10(b));
    } else {
        lemma_pow10_adds((a - 1) as nat, b);
        assert((a + b - 1) as nat == (a - 1) as nat + b);
        assert(pow10(a + b) == 10 * pow10((a + b - 1) as nat));
        assert(10 * (pow10((a - 1) as nat) * pow10(b)) == (10 * pow10((a - 1) as nat)) * pow10(b))
            by (nonlinear_arith);
    }
}

/// Writing an amount with `s` digits and then with the remaining ones
/// gives its view.
pub proof fn lemma_aligned_view(a: Amount, s: u32)
    requires
        a.scale <= s <= MAX_SCALE,
    ensures
        a.aligned(s) * pow10((MAX_SCALE - s) as nat) == a@,
{
    let x = (s - a.scale) as nat;
    let y = (MAX_SCALE - s) as nat;
    lemma_pow10_adds(x, y);
    assert(x + y == (MAX_SCALE - a.scale) as nat);
    assert((a.mantissa * pow10(x)) * pow10(y) == a.mantissa * (pow10(x) * pow10(y)))
        by (nonlinear_arith);
}

/// An exact sum is a valid amount, and denotes the sum of the two numbers.
pub proof fn lemma_add_exact(a: Amount, b: Amount)
    requires
        a.wf(),
        b.wf(),
        a.sum_exact(b),
    ensures
        a.spec_add(b).wf(),
        a.spec_add(b)@ == a@ + b@,
{
    if a.mantissa == 0 {
        assert(a@ == 0) by (nonlinear_arith)
            requires
                a.mantissa == 0,
                a@ == a.mantissa * pow10((MAX_SCALE - a.scale) as nat),
        ;
    } else if b.mantissa == 0 {
        assert(b@ == 0) by (nonlinear_arith)
            requires
                b.mantissa == 0,
                b@ == b.mantissa * pow10((MAX_SCALE - b.scale) as nat),
        ;
    } else {
        let s = a.common_scale(b);
        let p = pow10((MAX_SCALE - s) as nat);
        lemma_aligned_view(a, s);
        lemma_aligned_view(b, s);
        assert((a.aligned(s) + b.aligned(s)) * p == a.aligned(s) * p + b.aligned(s) * p)
            by (nonlinear_arith);
    }
}

/// An exact difference is a valid amount, and denotes the difference of
/// the two numbers.
pub proof fn lemma_sub_exact(a: Amount, b: Amount)
    requires
        a.wf(),
        b.wf(),
        a.diff_exact(b),
    ensures
        a.spec_sub(b).wf(),
        a.spec_sub(b)@ == a@ - b@,
{
    if a.mantissa == 0 {
        let p = pow10((MAX_SCALE - b.scale) as nat);
        assert(a@ == 0) by (nonlinear_arith)
            requires
                a.mantissa == 0,
                a@ == a.mantissa * pow10((MAX_SCALE - a.scale) as nat),
        ;
        assert((-b.mantissa) * p == -(b.mantissa * p)) by (nonlinear_arith);
    } else if b.mantissa == 0 {
        assert(b@ == 0) by (nonlinear_arith)
            requires
                b.mantissa == 0,
                b@ == b.mantissa * pow10((MAX_SCALE - b.scale) as nat),
        ;
    } else {
        let s = a.common_scale(b);
        let p = pow10((MAX_SCALE - s) as nat);
        lemma_aligned_view(a, s);
        lemma_aligned_view(b, s);
        assert((a.aligned(s) - b.aligned(s)) * p == a.aligned(s) * p - b.aligned(s) * p)
            by (nonlinear_arith);
    }
}

/// `m * 10^k`, where its magnitude stays within `bound`.
fn scale_up(m: i128, k: u32, bound: i128) -> (r: Option<i128>)
    requires
        k <= MAX_SCALE,
        0 <= bound <= 4 * MAX_MANTISSA,
    ensures
        r == if -bound <= m * pow10(k as nat) <= bound {
            Some((m * pow10(k as nat)) as i128)
        } else {
            None
        },
{
    if m > bound || m < -bound {
        proof {
            lemma_pow10_positive(k as nat);
            let p = pow10(k as nat);
            assert(m * p > bound || m * p < -bound) by (nonlinear_arith)
                requires
                    p >= 1,
                    bound >= 0,
                    m > bound || m < -bound,
            ;
        }
        return None;
    }
    let mut x: i128 = m;
    let mut i: u32 = 0;
    while i < k
        invariant
            i <= k <= MAX_SCALE,
            0 <= bound <= 4 * MAX_MANTISSA,
            x == m * pow10(i as nat),
            -bound <= x <= bound,
        decreases k - i,
    {
        if x > bound / 10 || x < -(bound / 10) {
            proof {
                let rest = (k - i - 1) as nat;
                lemma_pow10_adds((i + 1) as nat, rest);
                lemma_pow10_positive(rest);
                assert((i + 1) as nat + rest == k as nat);
                let q = pow10(rest);
                let full = m * pow10(k as nat);
                assert(full == (x * 10) * q) by (nonlinear_arith)
                    requires
                        full == m * (pow10((i + 1) as nat) * q),
                        pow10((i + 1) as nat) == 10 * pow10(i as nat),
                        x == m * pow10(i as nat),
                ;
                assert(full > bound || full < -bound) by (nonlinear_arith)
                    requires
                        full == (x * 10) * q,
                        q >= 1,
                        bound >= 0,
                        x > bound / 10 || x < -(bound / 10),
                ;
            }
            return None;
        }
        proof {
            assert(-bound <= x * 10 <= bound) by (nonlinear_arith)
                requires
                    bound >= 0,
                    -(bound / 10) <= x <= bound / 10,
            ;
            assert(x * 10 == m * pow10((i + 1) as nat)) by (nonlinear_arith)
                requires
                    x == m * pow10(i as nat),
                    pow10((i + 1) as nat) == 10 * pow10(i as nat),
            ;
        }
        x = x * 10;
        i = i + 1;
    }
    Some(x)
}

impl Amount {
    /// Both mantissas written with the larger of the two scales, where
    /// each stays within twice the largest mantissa.
    fn align(self, other: Amount) -> (r: Option<(i128, i128)>)
        requires
            self.wf(),
            other.wf(),
        ensures
            ({
                let s = self.common_scale(other);
                let x = self.aligned(s);
                let y = other.aligned(s);
                let lim = 2 * MAX_MANTISSA;
                r == if -lim <= x <= lim && -lim <= y <= lim {
                    Some((x as i128, y as i128))
                } else {
                    None
                }
            }),
            r is None ==> !fits_mantissa(
                self.aligned(self.common_scale(other)) + other.aligned(self.common_scale(other)),
            ) && !fits_mantissa(
                self.aligned(self.common_scale(other)) - other.aligned(self.common_scale(other)),
            ),
    {
        let s: u32 = if self.scale >= other.scale {
            self.scale
        } else {
            other.scale
        };
        proof {
            assert(pow10(0) == 1);
            assert(self.scale == s ==> self.aligned(s) == self.mantissa) by (nonlinear_arith)
                requires
                    self.scale == s ==> self.aligned(s) == self.mantissa * 1,
            ;
            assert(other.scale == s ==> other.aligned(s) == other.mantissa) by (nonlinear_arith)
                requires
                    other.scale == s ==> other.aligned(s) == other.mantissa * 1,
            ;
        }
        let x = scale_up(self.mantissa, s - self.scale, 2 * MAX_MANTISSA);
        let y = scale_up(other.mantissa, s - other.scale, 2 * MAX_MANTISSA);
        match (x, y) {
            (Some(x), Some(y)) => Some((x, y)),
            _ => None,
        }
    }

    /// Tells whether `self + other` is exact.
    pub fn sum_is_exact(self, other: Amount) -> (r: bool)
        requires
            self.wf(),
            other.wf(),
        ensures
            r == self.sum_exact(other),
    {
        if self.mantissa == 0 || other.mantissa == 0 {
            return true;
        }
        match self.align(other) {
            Some((x, y)) => {
                let t: i128 = x + y;
                -MAX_MANTISSA <= t && t <= MAX_MANTISSA
            },
            None => false,
        }
    }

    /// Tells whether `self - other` is exact.
    pub fn diff_is_exact(self, other: Amount) -> (r: bool)
        requires
            self.wf(),
            other.wf(),
        ensures
            r == self.diff_exact(other),
    {
        if self.mantissa == 0 || other.mantissa == 0 {
            return true;
        }
        match self.align(other) {
            Some((x, y)) => {
                let t: i128 = x - y;
                -MAX_MANTISSA <= t && t <= MAX_MANTISSA
            },
            None => false,
        }
    }
}

/// `rust_decimal`'s `Decimal + Decimal`, on two amounts rebuilt as decimals
/// with `Decimal::from_i128_with_scale` and read back with `mantissa` and
/// `scale`. Trusted: where the sum is exact the decimal that comes back is
/// `spec_add`. That is the other operand, untouched, beside a zero, and
/// otherwise the sum of the mantissas at the larger scale. The `requires`
/// keeps out the sums that the crate would round or refuse.
#[verifier::external_body]
pub(crate) fn decimal_sum(a: Amount, b: Amount) -> (r: Amount)
    requires
        a.wf(),
        b.wf(),
        a.sum_exact(b),
    ensures
        r == a.spec_add(b),
{
    let x = Decimal::from_i128_with_scale(a.mantissa, a.scale);
    let y = Decimal::from_i128_with_scale(b.mantissa, b.scale);
    let z = x + y;
    Amount { mantissa: z.mantissa(), scale: z.scale() }
}

/// `rust_decimal`'s `Decimal - Decimal`, on two amounts rebuilt as decimals
/// with `Decimal::from_i128_with_scale` and read back with `mantissa` and
/// `scale`. Trusted: where the difference is exact the decimal that comes
/// back is `spec_sub`. That is the negated right operand beside a zero on
/// the left, the left operand untouched beside a zero on the right, and
/// otherwise the difference of the mantissas at the larger scale. The
/// `requires` keeps out the differences that the crate would round or
/// refuse.
#[verifier::external_body]
pub(crate) fn decimal_difference(a: Amount, b: Amount) -> (r: Amount)
    requires
        a.wf(),
        b.wf(),
        a.diff_exact(b),
    ensures
        r == a.spec_sub(b),
{
    let x = Decimal::from_i128_with_scale(a.mantissa, a.scale);
    let y = Decimal::from_i128_with_scale(b.mantissa, b.scale);
    let z = x - y;
    Amount { mantissa: z.mantissa(), scale: z.scale() }
}

/// `rust_decimal`'s `Decimal >= Decimal`, on two amounts rebuilt as
/// decimals with `Decimal::from_i128_with_scale`. Trusted: decimals are
/// ordered by the numbers they denote, whatever their scales.
#[verifier::external_body]
pub(crate) fn decimal_at_least(a: Amount, b: Amount) -> (r: bool)
    requires
        a.wf(),
        b.wf(),
    ensures
        r == (a@ >= b@),
{
    let x = Decimal::from_i128_with_scale(a.mantissa, a.scale);
    let y = Decimal::from_i128_with_scale(b.mantissa, b.scale);
    x >= y
}

} // verus!
