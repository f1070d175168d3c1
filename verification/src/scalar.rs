//! Fixed-point real numbers.
//!
//! A [`Scalar`] stands for the rational number `raw / 2^32`. Arithmetic rounds
//! toward zero. Sums and differences saturate at the two ends of the range;
//! in products and quotients the two ends are positive and negative infinity.
//! Every operation is total.

use vstd::prelude::*;

verus! {

/// The raw value of the number one: `2^32`.
pub const RAW_ONE: i64 = 0x1_0000_0000;

/// The largest raw value; it doubles as positive infinity.
pub const RAW_MAX: i64 = 0x7fff_ffff_ffff_ffff;

/// A signed fixed-point number with 32 fractional bits.
#[derive(Clone, Copy, Debug, PartialEq, Eq, Structural)]
pub struct Scalar {
    pub raw: i64,
}

/// Clamps an integer into the symmetric raw range `[-RAW_MAX, RAW_MAX]`.
pub open spec fn saturate(v: int) -> i64 {
    if v > RAW_MAX {
        RAW_MAX
    } else if v < -RAW_MAX {
        (-RAW_MAX) as i64
    } else {
        v as i64
    }
}

/// The absolute value of an integer.
pub open spec fn magnitude(v: int) -> int {
    if v < 0 {
        -v
    } else {
        v
    }
}

/// An integer times `2^32`: the raw value of a whole number.
pub open spec fn scaled_up(v: int) -> int {
    v * 0x1_0000_0000
}

/// An integer over `2^32`, rounded toward zero.
pub open spec fn scaled_down(v: int) -> int {
    if v < 0 {
        -((-v) / 0x1_0000_0000)
    } else {
        v / 0x1_0000_0000
    }
}

/// Integer division that rounds toward zero; zero when the divisor is zero.
pub open spec fn quotient_toward_zero(n: int, d: int) -> int {
    if d == 0 {
        0
    } else if d > 0 {
        if n >= 0 {
            n / d
        } else {
            -((-n) / d)
        }
    } else {
        if n >= 0 {
            -(n / (-d))
        } else {
            (-n) / (-d)
        }
    }
}

/// Whether `r` is the integer square root of `n`: the largest integer whose
/// square does not exceed `n`.
pub open spec fn is_integer_sqrt(n: int, r: int) -> bool {
    0 <= r && r * r <= n < (r + 1) * (r + 1)
}

/// The integer square root of `n`, zero for negative `n`.
pub open spec fn integer_sqrt(n: int) -> int {
    if n < 0 {
        0
    } else {
        choose|r: int| is_integer_sqrt(n, r)
    }
}

/// Two integer square roots of the same number coincide.
pub proof fn lemma_integer_sqrt_unique(n: int, r: int, s: int)
    requires
        is_integer_sqrt(n, r),
        is_integer_sqrt(n, s),
    ensures
        r == s,
{
    if r < s {
        assert((r + 1) * (r + 1) <= s * s) by (nonlinear_arith)
            requires
                0 <= r,
                r + 1 <= s,
        ;
    } else if s < r {
        assert((s + 1) * (s + 1) <= r * r) by (nonlinear_arith)
            requires
                0 <= s,
                s + 1 <= r,
        ;
    }
}

/// The product of two numbers between zero and one lies between zero and
/// the smaller of the two.
pub proof fn lemma_mul_unit_interval(a: Scalar, b: Scalar)
    requires
        0 <= a.raw <= RAW_ONE,
        0 <= b.raw <= RAW_ONE,
    ensures
        0 <= a.mul_spec(b).raw <= a.raw,
        a.mul_spec(b).raw <= b.raw,
{
    let p = a.raw * b.raw;
    assert(0 <= p / 0x1_0000_0000 <= a.raw && p / 0x1_0000_0000 <= b.raw) by (nonlinear_arith)
        requires
            p == a.raw * b.raw,
            0 <= a.raw <= 0x1_0000_0000,
            0 <= b.raw <= 0x1_0000_0000,
    ;
}

/// The square of a number between minus one and one lies between zero and
/// one.
pub proof fn lemma_square_unit_interval(a: Scalar)
    requires
        -RAW_ONE <= a.raw <= RAW_ONE,
    ensures
        0 <= a.mul_spec(a).raw <= RAW_ONE,
{
    let p = a.raw * a.raw;
    assert(0 <= p && p / 0x1_0000_0000 <= 0x1_0000_0000) by (nonlinear_arith)
        requires
            p == a.raw * a.raw,
            -0x1_0000_0000 <= a.raw <= 0x1_0000_0000,
    ;
}

/// A quotient whose dividend is no larger in size than its positive divisor
/// lies between minus one and one.
pub proof fn lemma_div_unit_interval(n: Scalar, d: Scalar)
    requires
        0 < d.raw,
        -d.raw <= n.raw <= d.raw,
    ensures
        -RAW_ONE <= n.div_spec(d).raw <= RAW_ONE,
{
    let m = magnitude(scaled_up(n.raw as int));
    assert(0 <= m / (d.raw as int) <= 0x1_0000_0000) by (nonlinear_arith)
        requires
            0 < d.raw,
            0 <= m <= d.raw * 0x1_0000_0000,
    ;
}

/// Rounding toward zero keeps the order of the dividends, for a positive
/// divisor.
pub proof fn lemma_quotient_monotone(n1: int, n2: int, d: int)
    requires
        n1 <= n2,
        0 < d,
    ensures
        quotient_toward_zero(n1, d) <= quotient_toward_zero(n2, d),
{
    if n1 >= 0 {
        vstd::arithmetic::div_mod::lemma_div_is_ordered(n1, n2, d);
    } else if n2 < 0 {
        vstd::arithmetic::div_mod::lemma_div_is_ordered(-n2, -n1, d);
    } else {
        vstd::arithmetic::div_mod::lemma_div_pos_is_pos(-n1, d);
        vstd::arithmetic::div_mod::lemma_div_pos_is_pos(n2, d);
    }
}

/// Division by a number that is not negative keeps the order.
pub proof fn lemma_div_monotone(x: Scalar, y: Scalar, a: Scalar)
    requires
        x.raw <= y.raw,
        0 <= a.raw,
    ensures
        x.div_spec(a).raw <= y.div_spec(a).raw,
{
    if a.raw > 0 {
        lemma_quotient_monotone(scaled_up(x.raw as int), scaled_up(y.raw as int), a.raw as int);
    }
}

/// The rounded product of two raw values keeps the order of the first, for a
/// second that is not negative.
proof fn lemma_rounded_product_monotone(x: int, y: int, c: int)
    requires
        x <= y,
        0 <= c,
    ensures
        saturate(scaled_down(x * c)) <= saturate(scaled_down(y * c)),
{
    vstd::arithmetic::mul::lemma_mul_inequality(x, y, c);
    lemma_quotient_monotone(x * c, y * c, 0x1_0000_0000);
}

/// Multiplication by a number that is not negative keeps the order, and by
/// one that is not positive turns it round.
pub proof fn lemma_mul_monotone(x: Scalar, y: Scalar, c: Scalar)
    requires
        x.raw <= y.raw,
    ensures
        0 <= c.raw ==> x.mul_spec(c).raw <= y.mul_spec(c).raw,
        c.raw <= 0 ==> y.mul_spec(c).raw <= x.mul_spec(c).raw,
{
    let finite = !c.is_infinite_spec() && !x.is_infinite_spec() && !y.is_infinite_spec();
    if c.raw != 0 && finite {
        let px = saturate(scaled_down(x.raw * c.raw));
        let py = saturate(scaled_down(y.raw * c.raw));
        assert(x.raw == 0 ==> x.raw * c.raw == 0) by (nonlinear_arith);
        assert(y.raw == 0 ==> y.raw * c.raw == 0) by (nonlinear_arith);
        assert(x.mul_spec(c).raw == px);
        assert(y.mul_spec(c).raw == py);
        if 0 < c.raw {
            lemma_rounded_product_monotone(x.raw as int, y.raw as int, c.raw as int);
        } else {
            lemma_rounded_product_monotone(x.raw as int, y.raw as int, -c.raw as int);
            assert(x.raw * (-c.raw) == -(x.raw * c.raw)) by (nonlinear_arith);
            assert(y.raw * (-c.raw) == -(y.raw * c.raw)) by (nonlinear_arith);
            assert(scaled_down(-(x.raw * c.raw)) == -scaled_down(x.raw * c.raw));
            assert(scaled_down(-(y.raw * c.raw)) == -scaled_down(y.raw * c.raw));
        }
    }
}

/// A square is not negative.
pub proof fn lemma_square_not_negative(a: Scalar)
    ensures
        0 <= a.mul_spec(a).raw,
{
    assert(0 <= a.raw * a.raw) by (nonlinear_arith);
    vstd::arithmetic::div_mod::lemma_div_pos_is_pos(a.raw * a.raw, 0x1_0000_0000);
}

/// Every number that is not negative has an integer square root.
pub proof fn lemma_integer_sqrt_exists(n: int)
    requires
        0 <= n,
    ensures
        is_integer_sqrt(n, integer_sqrt(n)),
    decreases n,
{
    if n == 0 {
        assert(is_integer_sqrt(0, 0));
    } else {
        lemma_integer_sqrt_exists(n - 1);
        let r = integer_sqrt(n - 1);
        if (r + 1) * (r + 1) <= n {
            assert((r + 2) * (r + 2) > n) by (nonlinear_arith)
                requires
                    0 <= r,
                    n - 1 < (r + 1) * (r + 1),
            ;
            assert(is_integer_sqrt(n, r + 1));
        } else {
            assert(is_integer_sqrt(n, r));
        }
    }
}

/// The square root of a number is not negative, and it is the integer square
/// root of the raw value scaled by one.
pub proof fn lemma_sqrt_not_negative(a: Scalar)
    ensures
        0 <= a.sqrt_spec().raw < 0x1_0000_0000_0000,
        0 <= a.raw ==> is_integer_sqrt(scaled_up(a.raw as int), a.sqrt_spec().raw as int),
{
    if 0 <= a.raw {
        let n = scaled_up(a.raw as int);
        lemma_integer_sqrt_exists(n);
        let r = integer_sqrt(n);
        assert(r < 0x1_0000_0000_0000) by (nonlinear_arith)
            requires
                0 <= r,
                r * r <= n,
                n < 0x1_0000_0000_0000_0000_0000_0000,
        ;
    }
}

fn saturate_wide(v: i128) -> (r: i64)
    ensures
        r == saturate(v as int),
{
    if v > RAW_MAX as i128 {
        RAW_MAX
    } else if v < -(RAW_MAX as i128) {
        -RAW_MAX
    } else {
        v as i64
    }
}

fn divide_toward_zero(n: i128, d: i128) -> (q: i128)
    requires
        d != 0,
        -0x4000_0000_0000_0000_0000_0000_0000_0000 <= n <= 0x4000_0000_0000_0000_0000_0000_0000_0000,
        -0x4000_0000_0000_0000_0000_0000_0000_0000 <= d <= 0x4000_0000_0000_0000_0000_0000_0000_0000,
    ensures
        q == quotient_toward_zero(n as int, d as int),
        magnitude(q as int) <= magnitude(n as int),
{
    let an: i128 = if n < 0 { -n } else { n };
    let ad: i128 = if d < 0 { -d } else { d };
    let aq: i128 = an / ad;
    assert(0 <= aq <= an) by (nonlinear_arith)
        requires
            aq == an / ad,
            0 <= an,
            0 < ad,
    ;
    if (n < 0) == (d < 0) {
        aq
    } else {
        -aq
    }
}

/// Finds the integer square root of `n` by bisection.
fn integer_sqrt_of(n: u128) -> (r: u128)
    requires
        n < 0x1_0000_0000_0000_0000_0000_0000,
    ensures
        is_integer_sqrt(n as int, r as int),
        r == integer_sqrt(n as int),
        r < 0x1_0000_0000_0000,
{
    let mut lo: u128 = 0;
    let mut hi: u128 = 0x1_0000_0000_0000;
    assert(n < hi * hi) by (nonlinear_arith)
        requires
            hi == 0x1_0000_0000_0000,
            n < 0x1_0000_0000_0000_0000_0000_0000,
    ;
    while hi - lo > 1
        invariant
            lo < hi <= 0x1_0000_0000_0000,
            lo * lo <= n < hi * hi,
        decreases hi - lo,
    {
        let mid: u128 = lo + (hi - lo) / 2;
        assert(mid * mid < 0x1_0000_0000_0000_0000_0000_0000) by (nonlinear_arith)
            requires
                mid < 0x1_0000_0000_0000,
        ;
        if mid * mid <= n {
            lo = mid;
        } else {
            hi = mid;
        }
    }
    proof {
        assert(hi == lo + 1);
        assert(is_integer_sqrt(n as int, lo as int));
        let c = integer_sqrt(n as int);
        assert(is_integer_sqrt(n as int, c));
        lemma_integer_sqrt_unique(n as int, lo as int, c);
    }
    lo
}

impl Scalar {
    /// The number zero.
    pub open spec fn zero_spec() -> Scalar {
        Scalar { raw: 0 }
    }

    /// The number one.
    pub open spec fn one_spec() -> Scalar {
        Scalar { raw: RAW_ONE }
    }

    /// Positive infinity: the top of the range.
    pub open spec fn infinity_spec() -> Scalar {
        Scalar { raw: RAW_MAX }
    }

    /// Negative infinity: the bottom of the symmetric range.
    pub open spec fn neg_infinity_spec() -> Scalar {
        Scalar { raw: (-RAW_MAX) as i64 }
    }

    /// The whole number `n`.
    pub open spec fn from_int_spec(n: i32) -> Scalar {
        Scalar { raw: scaled_up(n as int) as i64 }
    }

    /// The fraction `num / den`, rounded toward zero and saturated.
    pub open spec fn from_ratio_spec(num: i64, den: i64) -> Scalar {
        if den == 0 {
            if num > 0 {
                Self::infinity_spec()
            } else if num < 0 {
                Self::neg_infinity_spec()
            } else {
                Self::zero_spec()
            }
        } else {
            Scalar { raw: saturate(quotient_toward_zero(scaled_up(num as int), den as int)) }
        }
    }

    pub open spec fn add_spec(self, rhs: Scalar) -> Scalar {
        Scalar { raw: saturate(self.raw + rhs.raw) }
    }

    pub open spec fn sub_spec(self, rhs: Scalar) -> Scalar {
        Scalar { raw: saturate(self.raw - rhs.raw) }
    }

    pub open spec fn neg_spec(self) -> Scalar {
        Scalar { raw: saturate(-self.raw) }
    }

    pub open spec fn abs_spec(self) -> Scalar {
        Scalar { raw: saturate(magnitude(self.raw as int)) }
    }

    /// Whether the number is infinite: at an end of the range.
    pub open spec fn is_infinite_spec(self) -> bool {
        self.raw >= RAW_MAX || self.raw <= -RAW_MAX
    }

    /// The infinity of the given sign.
    pub open spec fn signed_infinity(negative: bool) -> Scalar {
        if negative {
            Self::neg_infinity_spec()
        } else {
            Self::infinity_spec()
        }
    }

    /// The product, rounded toward zero and saturated. Zero times anything is
    /// zero, and infinity times anything else is infinite.
    pub open spec fn mul_spec(self, rhs: Scalar) -> Scalar {
        if self.raw == 0 || rhs.raw == 0 {
            Self::zero_spec()
        } else if self.is_infinite_spec() || rhs.is_infinite_spec() {
            Self::signed_infinity((self.raw < 0) != (rhs.raw < 0))
        } else {
            Scalar { raw: saturate(scaled_down(self.raw * rhs.raw)) }
        }
    }

    /// The quotient, rounded toward zero and saturated. Dividing by zero gives
    /// the infinity of the dividend's sign, and zero for a zero dividend;
    /// infinity over a finite number is infinite, and a finite number over
    /// infinity is zero.
    pub open spec fn div_spec(self, rhs: Scalar) -> Scalar {
        if rhs.raw == 0 {
            if self.raw > 0 {
                Self::infinity_spec()
            } else if self.raw < 0 {
                Self::neg_infinity_spec()
            } else {
                Self::zero_spec()
            }
        } else if self.is_infinite_spec() && !rhs.is_infinite_spec() {
            Self::signed_infinity((self.raw < 0) != (rhs.raw < 0))
        } else if rhs.is_infinite_spec() && !self.is_infinite_spec() {
            Self::zero_spec()
        } else {
            Scalar { raw: saturate(quotient_toward_zero(scaled_up(self.raw as int), rhs.raw as int)) }
        }
    }

    /// The square root rounded down; zero for a negative number.
    pub open spec fn sqrt_spec(self) -> Scalar {
        Scalar { raw: integer_sqrt(scaled_up(self.raw as int)) as i64 }
    }

    /// The largest whole number not above `self`, as an integer.
    pub open spec fn floor_int_spec(self) -> i64 {
        (self.raw as int / 0x1_0000_0000) as i64
    }

    /// The largest whole number not above `self`.
    pub open spec fn floor_spec(self) -> Scalar {
        Scalar { raw: scaled_up(self.raw as int / 0x1_0000_0000) as i64 }
    }

    pub open spec fn min_spec(self, rhs: Scalar) -> Scalar {
        if rhs.raw < self.raw {
            rhs
        } else {
            self
        }
    }

    pub open spec fn max_spec(self, rhs: Scalar) -> Scalar {
        if rhs.raw > self.raw {
            rhs
        } else {
            self
        }
    }

    pub open spec fn lt_spec(self, rhs: Scalar) -> bool {
        self.raw < rhs.raw
    }

    pub open spec fn le_spec(self, rhs: Scalar) -> bool {
        self.raw <= rhs.raw
    }

    pub open spec fn gt_spec(self, rhs: Scalar) -> bool {
        self.raw > rhs.raw
    }

    pub open spec fn ge_spec(self, rhs: Scalar) -> bool {
        self.raw >= rhs.raw
    }

    /// `self` limited to the interval from `lo` to `hi`: first capped at `hi`,
    /// then raised to `lo`.
    pub open spec fn clamp_spec(self, lo: Scalar, hi: Scalar) -> Scalar {
        self.min_spec(hi).max_spec(lo)
    }

    /// The fifth power, by repeated rounding multiplication.
    pub open spec fn pow5_spec(self) -> Scalar {
        let sq = self.mul_spec(self);
        sq.mul_spec(sq).mul_spec(self)
    }

    #[verifier::when_used_as_spec(zero_spec)]
    pub fn zero() -> (r: Scalar)
        ensures
            r == Self::zero_spec(),
    {
        Scalar { raw: 0 }
    }

    #[verifier::when_used_as_spec(one_spec)]
    pub fn one() -> (r: Scalar)
        ensures
            r == Self::one_spec(),
    {
        Scalar { raw: RAW_ONE }
    }

    #[verifier::when_used_as_spec(infinity_spec)]
    pub fn infinity() -> (r: Scalar)
        ensures
            r == Self::infinity_spec(),
    {
        Scalar { raw: RAW_MAX }
    }

    #[verifier::when_used_as_spec(neg_infinity_spec)]
    pub fn neg_infinity() -> (r: Scalar)
        ensures
            r == Self::neg_infinity_spec(),
    {
        Scalar { raw: -RAW_MAX }
    }

    #[verifier::when_used_as_spec(from_int_spec)]
    pub fn from_int(n: i32) -> (r: Scalar)
        ensures
            r == Self::from_int_spec(n),
    {
        Scalar { raw: (n as i64) * 0x1_0000_0000 }
    }

    #[verifier::when_used_as_spec(from_ratio_spec)]
    pub fn from_ratio(num: i64, den: i64) -> (r: Scalar)
        ensures
            r == Self::from_ratio_spec(num, den),
    {
        if den == 0 {
            if num > 0 {
                Self::infinity()
            } else if num < 0 {
                Self::neg_infinity()
            } else {
                Self::zero()
            }
        } else {
            let n: i128 = (num as i128) * 0x1_0000_0000i128;
            Scalar { raw: saturate_wide(divide_toward_zero(n, den as i128)) }
        }
    }

    #[verifier::when_used_as_spec(add_spec)]
    pub fn add(self, rhs: Scalar) -> (r: Scalar)
        ensures
            r == self.add_spec(rhs),
    {
        Scalar { raw: saturate_wide(self.raw as i128 + rhs.raw as i128) }
    }

    #[verifier::when_used_as_spec(sub_spec)]
    pub fn sub(self, rhs: Scalar) -> (r: Scalar)
        ensures
            r == self.sub_spec(rhs),
    {
        Scalar { raw: saturate_wide(self.raw as i128 - rhs.raw as i128) }
    }

    #[verifier::when_used_as_spec(neg_spec)]
    pub fn neg(self) -> (r: Scalar)
        ensures
            r == self.neg_spec(),
    {
        Scalar { raw: saturate_wide(-(self.raw as i128)) }
    }

    #[verifier::when_used_as_spec(abs_spec)]
    pub fn abs(self) -> (r: Scalar)
        ensures
            r == self.abs_spec(),
    {
        let wide: i128 = self.raw as i128;
        Scalar { raw: saturate_wide(if wide < 0 { -wide } else { wide }) }
    }

    #[verifier::when_used_as_spec(mul_spec)]
    pub fn mul(self, rhs: Scalar) -> (r: Scalar)
        ensures
            r == self.mul_spec(rhs),
    {
        if self.raw == 0 || rhs.raw == 0 {
            return Self::zero();
        }
        if self.is_infinite() || rhs.is_infinite() {
            return if (self.raw < 0) != (rhs.raw < 0) {
                Self::neg_infinity()
            } else {
                Self::infinity()
            };
        }
        assert(-0x4000_0000_0000_0000_0000_0000_0000_0000 <= self.raw * rhs.raw
            <= 0x4000_0000_0000_0000_0000_0000_0000_0000) by (nonlinear_arith)
            requires
                -0x8000_0000_0000_0000 <= self.raw <= 0x7fff_ffff_ffff_ffff,
                -0x8000_0000_0000_0000 <= rhs.raw <= 0x7fff_ffff_ffff_ffff,
        ;
        let p: i128 = (self.raw as i128) * (rhs.raw as i128);
        Scalar { raw: saturate_wide(divide_toward_zero(p, 0x1_0000_0000i128)) }
    }

    #[verifier::when_used_as_spec(div_spec)]
    pub fn div(self, rhs: Scalar) -> (r: Scalar)
        ensures
            r == self.div_spec(rhs),
    {
        if rhs.raw == 0 {
            if self.raw > 0 {
                Self::infinity()
            } else if self.raw < 0 {
                Self::neg_infinity()
            } else {
                Self::zero()
            }
        } else if self.is_infinite() && !rhs.is_infinite() {
            if (self.raw < 0) != (rhs.raw < 0) {
                Self::neg_infinity()
            } else {
                Self::infinity()
            }
        } else if rhs.is_infinite() && !self.is_infinite() {
            Self::zero()
        } else {
            let n: i128 = (self.raw as i128) * 0x1_0000_0000i128;
            Scalar { raw: saturate_wide(divide_toward_zero(n, rhs.raw as i128)) }
        }
    }

    #[verifier::when_used_as_spec(is_infinite_spec)]
    pub fn is_infinite(self) -> (r: bool)
        ensures
            r == self.is_infinite_spec(),
    {
        self.raw >= RAW_MAX || self.raw <= -RAW_MAX
    }

    #[verifier::when_used_as_spec(sqrt_spec)]
    pub fn sqrt(self) -> (r: Scalar)
        ensures
            r == self.sqrt_spec(),
            self.raw >= 0 ==> is_integer_sqrt(scaled_up(self.raw as int), r.raw as int),
            self.raw < 0 ==> r.raw == 0,
    {
        if self.raw < 0 {
            Scalar { raw: 0 }
        } else {
            let n: u128 = (self.raw as u128) * 0x1_0000_0000u128;
            let root: u128 = integer_sqrt_of(n);
            Scalar { raw: root as i64 }
        }
    }

    #[verifier::when_used_as_spec(floor_int_spec)]
    pub fn floor_int(self) -> (r: i64)
        ensures
            r == self.floor_int_spec(),
    {
        let q: i64 = self.raw / 0x1_0000_0000;
        let m: i64 = self.raw % 0x1_0000_0000;
        if m < 0 {
            q - 1
        } else {
            q
        }
    }

    #[verifier::when_used_as_spec(floor_spec)]
    pub fn floor(self) -> (r: Scalar)
        ensures
            r == self.floor_spec(),
    {
        Scalar { raw: self.floor_int() * 0x1_0000_0000 }
    }

    #[verifier::when_used_as_spec(min_spec)]
    pub fn min(self, rhs: Scalar) -> (r: Scalar)
        ensures
            r == self.min_spec(rhs),
    {
        if rhs.raw < self.raw {
            rhs
        } else {
            self
        }
    }

    #[verifier::when_used_as_spec(max_spec)]
    pub fn max(self, rhs: Scalar) -> (r: Scalar)
        ensures
            r == self.max_spec(rhs),
    {
        if rhs.raw > self.raw {
            rhs
        } else {
            self
        }
    }

    #[verifier::when_used_as_spec(lt_spec)]
    pub fn lt(self, rhs: Scalar) -> (r: bool)
        ensures
            r == self.lt_spec(rhs),
    {
        self.raw < rhs.raw
    }

    #[verifier::when_used_as_spec(le_spec)]
    pub fn le(self, rhs: Scalar) -> (r: bool)
        ensures
            r == self.le_spec(rhs),
    {
        self.raw <= rhs.raw
    }

    #[verifier::when_used_as_spec(gt_spec)]
    pub fn gt(self, rhs: Scalar) -> (r: bool)
        ensures
            r == self.gt_spec(rhs),
    {
        self.raw > rhs.raw
    }

    #[verifier::when_used_as_spec(ge_spec)]
    pub fn ge(self, rhs: Scalar) -> (r: bool)
        ensures
            r == self.ge_spec(rhs),
    {
        self.raw >= rhs.raw
    }

    #[verifier::when_used_as_spec(clamp_spec)]
    pub fn clamp(self, lo: Scalar, hi: Scalar) -> (r: Scalar)
        ensures
            r == self.clamp_spec(lo, hi),
    {
        self.min(hi).max(lo)
    }

    #[verifier::when_used_as_spec(pow5_spec)]
    pub fn pow5(self) -> (r: Scalar)
        ensures
            r == self.pow5_spec(),
    {
        let sq = self.mul(self);
        sq.mul(sq).mul(self)
    }
}

} // verus!
