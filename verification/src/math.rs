//! Elementary functions on fixed-point numbers.
//!
//! Sine and cosine reduce the angle to a quarter turn and sum a power series;
//! the arc tangent folds its argument below `tan(pi / 8)` first; the logarithm
//! splits off the power of two. Each function is defined by the series it
//! sums, to the number of terms given here.

use vstd::prelude::*;

use crate::scalar::{Scalar, RAW_ONE};

verus! {

/// The raw value of an eighth of a turn, `pi / 4`.
pub const RAW_QUARTER_PI: i64 = 3_373_259_426;

/// The raw value of a quarter turn, `pi / 2`.
pub const RAW_HALF_PI: i64 = 6_746_518_852;

/// The raw value of a half turn, `pi`.
pub const RAW_PI: i64 = 13_493_037_704;

/// The raw value of a full turn, `2 pi`.
pub const RAW_TWO_PI: i64 = 26_986_075_408;

/// The raw value of the natural logarithm of two.
pub const RAW_LN_2: i64 = 2_977_044_472;

/// The raw value of `tan(pi / 8)`, which is `sqrt(2) - 1`.
pub const RAW_TAN_PI_8: i64 = 1_779_033_704;

/// The number of terms summed for sine and cosine.
pub const TRIG_TERMS: u32 = 8;

/// The number of terms summed for the arc tangent.
pub const ATAN_TERMS: u32 = 13;

/// The number of terms summed for the logarithm.
pub const LN_TERMS: u32 = 11;

/// The nested series `1 - x/(k(k+1)) * (1 - x/((k+2)(k+3)) * (...))` with
/// `terms` factors: with `x` the square of an angle, it is the cosine for
/// `k = 1`, and the sine over the angle for `k = 2`.
pub open spec fn alternating_series(x: Scalar, k: u32, terms: u32) -> Scalar
    decreases terms,
{
    if terms == 0 || k >= 1000 {
        Scalar::one()
    } else {
        Scalar::one().sub(
            x.mul(alternating_series(x, (k + 2) as u32, (terms - 1) as u32)).div(
                Scalar::from_int((k * (k + 1)) as i32),
            ),
        )
    }
}

/// The series `1/k - x * (1/(k+2) - x * (...))` with `terms` summands: with
/// `x` the square of `z` and `k = 1`, it is the arc tangent of `z` over `z`.
pub open spec fn odd_series(x: Scalar, k: u32, terms: u32) -> Scalar
    decreases terms,
{
    if terms == 0 || k >= 1000 {
        Scalar::zero()
    } else {
        Scalar::one().div(Scalar::from_int(k as i32)).sub(
            x.mul(odd_series(x, (k + 2) as u32, (terms - 1) as u32)),
        )
    }
}

/// The series `1/k + x * (1/(k+2) + x * (...))` with `terms` summands: with
/// `x` the square of `s` and `k = 1`, it is the inverse hyperbolic tangent of
/// `s` over `s`.
pub open spec fn even_series(x: Scalar, k: u32, terms: u32) -> Scalar
    decreases terms,
{
    if terms == 0 || k >= 1000 {
        Scalar::zero()
    } else {
        Scalar::one().div(Scalar::from_int(k as i32)).add(
            x.mul(even_series(x, (k + 2) as u32, (terms - 1) as u32)),
        )
    }
}

/// The sine of an angle in the first quarter turn.
pub open spec fn quarter_sin(r: Scalar) -> Scalar {
    r.mul(alternating_series(r.mul(r), 2, TRIG_TERMS))
}

/// The cosine of an angle in the first quarter turn.
pub open spec fn quarter_cos(r: Scalar) -> Scalar {
    alternating_series(r.mul(r), 1, TRIG_TERMS)
}

/// The sine of the angle that lies `quarters` quarter turns and then `r`
/// further round the circle.
pub open spec fn sin_from_quarter(quarters: int, r: Scalar) -> Scalar {
    let q = quarters % 4;
    if q == 0 {
        quarter_sin(r)
    } else if q == 1 {
        quarter_cos(r)
    } else if q == 2 {
        quarter_sin(r).neg()
    } else {
        quarter_cos(r).neg()
    }
}

/// The arc tangent of a number between zero and one.
pub open spec fn unit_atan(t: Scalar) -> Scalar {
    if t.raw > RAW_TAN_PI_8 {
        let z = t.sub(Scalar::one()).div(t.add(Scalar::one()));
        Scalar { raw: RAW_QUARTER_PI }.add(z.mul(odd_series(z.mul(z), 1, ATAN_TERMS)))
    } else {
        t.mul(odd_series(t.mul(t), 1, ATAN_TERMS))
    }
}

/// The arc tangent of a number that is not negative.
pub open spec fn positive_atan(t: Scalar) -> Scalar {
    if t.raw > RAW_ONE {
        Scalar { raw: RAW_HALF_PI }.sub(unit_atan(Scalar::one().div(t)))
    } else {
        unit_atan(t)
    }
}

/// The logarithm of a positive raw value `m` that has been doubled `shift`
/// times less than needed to bring it into `[1, 2)`; `steps` bounds the
/// doublings and halvings still to be made.
pub open spec fn ln_normalized(m: int, shift: int, steps: nat) -> Scalar
    decreases steps,
{
    if steps > 0 && 0 < m < RAW_ONE {
        ln_normalized(2 * m, shift - 1, (steps - 1) as nat)
    } else if steps > 0 && m >= 2 * RAW_ONE {
        ln_normalized(m / 2, shift + 1, (steps - 1) as nat)
    } else {
        let v = Scalar { raw: m as i64 };
        let s = v.sub(Scalar::one()).div(v.add(Scalar::one()));
        let series = Scalar::from_int(2).mul(s.mul(even_series(s.mul(s), 1, LN_TERMS)));
        Scalar { raw: (shift * RAW_LN_2) as i64 }.add(series)
    }
}

/// Splits an angle, taken modulo a full turn, into whole quarter turns and
/// the rest.
fn split_turn(raw: i64) -> (r: (i64, i64))
    ensures
        r.0 == (raw as int % RAW_TWO_PI as int) / RAW_HALF_PI as int,
        r.1 == (raw as int % RAW_TWO_PI as int) % RAW_HALF_PI as int,
        0 <= r.0 <= 3,
        0 <= r.1 < RAW_HALF_PI,
{
    let m: i64 = raw % 26_986_075_408;
    let turn: i64 = if m < 0 {
        m + 26_986_075_408
    } else {
        m
    };
    assert(turn == raw as int % 26_986_075_408);
    let quarters: i64 = turn / 6_746_518_852;
    let rest: i64 = turn % 6_746_518_852;
    (quarters, rest)
}

fn alternating_series_of(x: Scalar, k: u32, terms: u32) -> (r: Scalar)
    requires
        k + 2 * terms <= 1000,
    ensures
        r == alternating_series(x, k, terms),
    decreases terms,
{
    if terms == 0 || k >= 1000 {
        Scalar::one()
    } else {
        let rest = alternating_series_of(x, k + 2, terms - 1);
        assert(k * (k + 1) <= 999_000) by (nonlinear_arith)
            requires
                0 <= k <= 999,
        ;
        Scalar::one().sub(x.mul(rest).div(Scalar::from_int((k * (k + 1)) as i32)))
    }
}

fn odd_series_of(x: Scalar, k: u32, terms: u32) -> (r: Scalar)
    requires
        k + 2 * terms <= 1000,
    ensures
        r == odd_series(x, k, terms),
    decreases terms,
{
    if terms == 0 || k >= 1000 {
        Scalar::zero()
    } else {
        let rest = odd_series_of(x, k + 2, terms - 1);
        Scalar::one().div(Scalar::from_int(k as i32)).sub(x.mul(rest))
    }
}

fn even_series_of(x: Scalar, k: u32, terms: u32) -> (r: Scalar)
    requires
        k + 2 * terms <= 1000,
    ensures
        r == even_series(x, k, terms),
    decreases terms,
{
    if terms == 0 || k >= 1000 {
        Scalar::zero()
    } else {
        let rest = even_series_of(x, k + 2, terms - 1);
        Scalar::one().div(Scalar::from_int(k as i32)).add(x.mul(rest))
    }
}

fn sin_from_quarter_of(quarters: i64, r: Scalar) -> (s: Scalar)
    requires
        0 <= quarters,
    ensures
        s == sin_from_quarter(quarters as int, r),
{
    let q: i64 = quarters % 4;
    if q == 0 {
        r.mul(alternating_series_of(r.mul(r), 2, TRIG_TERMS))
    } else if q == 1 {
        alternating_series_of(r.mul(r), 1, TRIG_TERMS)
    } else if q == 2 {
        r.mul(alternating_series_of(r.mul(r), 2, TRIG_TERMS)).neg()
    } else {
        alternating_series_of(r.mul(r), 1, TRIG_TERMS).neg()
    }
}

fn unit_atan_of(t: Scalar) -> (r: Scalar)
    ensures
        r == unit_atan(t),
{
    if t.raw > RAW_TAN_PI_8 {
        let z = t.sub(Scalar::one()).div(t.add(Scalar::one()));
        Scalar { raw: RAW_QUARTER_PI }.add(z.mul(odd_series_of(z.mul(z), 1, ATAN_TERMS)))
    } else {
        t.mul(odd_series_of(t.mul(t), 1, ATAN_TERMS))
    }
}

fn positive_atan_of(t: Scalar) -> (r: Scalar)
    ensures
        r == positive_atan(t),
{
    if t.raw > RAW_ONE {
        Scalar { raw: RAW_HALF_PI }.sub(unit_atan_of(Scalar::one().div(t)))
    } else {
        unit_atan_of(t)
    }
}

fn ln_normalized_of(m: i64, shift: i64, steps: u32) -> (r: Scalar)
    requires
        0 < m,
        steps <= 64,
        -64 <= shift - steps,
        shift + steps <= 64,
    ensures
        r == ln_normalized(m as int, shift as int, steps as nat),
    decreases steps,
{
    if steps > 0 && m < RAW_ONE {
        ln_normalized_of(2 * m, shift - 1, steps - 1)
    } else if steps > 0 && m >= 2 * RAW_ONE {
        ln_normalized_of(m / 2, shift + 1, steps - 1)
    } else {
        let v = Scalar { raw: m };
        let s = v.sub(Scalar::one()).div(v.add(Scalar::one()));
        let series = Scalar::from_int(2).mul(s.mul(even_series_of(s.mul(s), 1, LN_TERMS)));
        Scalar { raw: shift * RAW_LN_2 }.add(series)
    }
}

impl Scalar {
    /// The constant `pi`.
    pub open spec fn pi_spec() -> Scalar {
        Scalar { raw: RAW_PI }
    }

    /// The sine: the angle is reduced modulo a full turn, and the series of
    /// its quarter is summed.
    pub open spec fn sin_spec(self) -> Scalar {
        let turn = self.raw as int % RAW_TWO_PI as int;
        sin_from_quarter(turn / RAW_HALF_PI as int, Scalar { raw: (turn % RAW_HALF_PI as int) as i64 })
    }

    /// The cosine: the sine a quarter turn further on.
    pub open spec fn cos_spec(self) -> Scalar {
        let turn = self.raw as int % RAW_TWO_PI as int;
        sin_from_quarter(
            turn / RAW_HALF_PI as int + 1,
            Scalar { raw: (turn % RAW_HALF_PI as int) as i64 },
        )
    }

    /// The tangent: sine over cosine.
    pub open spec fn tan_spec(self) -> Scalar {
        self.sin_spec().div(self.cos_spec())
    }

    /// The angle of the point `(x, self)` seen from the origin, in
    /// `(-pi, pi]`; zero at the origin itself.
    pub open spec fn atan2_spec(self, x: Scalar) -> Scalar {
        if x.raw > 0 {
            if self.raw >= 0 {
                positive_atan(self.div(x))
            } else {
                positive_atan(self.neg().div(x)).neg()
            }
        } else if x.raw < 0 {
            if self.raw >= 0 {
                Self::pi_spec().sub(positive_atan(self.div(x.neg())))
            } else {
                positive_atan(self.neg().div(x.neg())).sub(Self::pi_spec())
            }
        } else if self.raw > 0 {
            Scalar { raw: RAW_HALF_PI }
        } else if self.raw < 0 {
            Scalar { raw: (-RAW_HALF_PI) as i64 }
        } else {
            Scalar::zero()
        }
    }

    /// The arc cosine: the angle of the point `(self, sqrt(1 - self^2))`.
    pub open spec fn acos_spec(self) -> Scalar {
        Scalar::one().sub(self.mul(self)).sqrt().atan2_spec(self)
    }

    /// The natural logarithm; negative infinity for zero and below.
    pub open spec fn ln_spec(self) -> Scalar {
        if self.raw <= 0 {
            Scalar::neg_infinity()
        } else {
            ln_normalized(self.raw as int, 0, 64)
        }
    }

    #[verifier::when_used_as_spec(pi_spec)]
    pub fn pi() -> (r: Scalar)
        ensures
            r == Self::pi_spec(),
    {
        Scalar { raw: RAW_PI }
    }

    #[verifier::when_used_as_spec(sin_spec)]
    pub fn sin(self) -> (r: Scalar)
        ensures
            r == self.sin_spec(),
    {
        let (quarters, rest) = split_turn(self.raw);
        sin_from_quarter_of(quarters, Scalar { raw: rest })
    }

    #[verifier::when_used_as_spec(cos_spec)]
    pub fn cos(self) -> (r: Scalar)
        ensures
            r == self.cos_spec(),
    {
        let (quarters, rest) = split_turn(self.raw);
        sin_from_quarter_of(quarters + 1, Scalar { raw: rest })
    }

    #[verifier::when_used_as_spec(tan_spec)]
    pub fn tan(self) -> (r: Scalar)
        ensures
            r == self.tan_spec(),
    {
        self.sin().div(self.cos())
    }

    #[verifier::when_used_as_spec(atan2_spec)]
    pub fn atan2(self, x: Scalar) -> (r: Scalar)
        ensures
            r == self.atan2_spec(x),
    {
        if x.raw > 0 {
            if self.raw >= 0 {
                positive_atan_of(self.div(x))
            } else {
                positive_atan_of(self.neg().div(x)).neg()
            }
        } else if x.raw < 0 {
            if self.raw >= 0 {
                Self::pi().sub(positive_atan_of(self.div(x.neg())))
            } else {
                positive_atan_of(self.neg().div(x.neg())).sub(Self::pi())
            }
        } else if self.raw > 0 {
            Scalar { raw: RAW_HALF_PI }
        } else if self.raw < 0 {
            Scalar { raw: -RAW_HALF_PI }
        } else {
            Scalar::zero()
        }
    }

    #[verifier::when_used_as_spec(acos_spec)]
    pub fn acos(self) -> (r: Scalar)
        ensures
            r == self.acos_spec(),
    {
        Scalar::one().sub(self.mul(self)).sqrt().atan2(self)
    }

    #[verifier::when_used_as_spec(ln_spec)]
    pub fn ln(self) -> (r: Scalar)
        ensures
            r == self.ln_spec(),
    {
        if self.raw <= 0 {
            Scalar::neg_infinity()
        } else {
            ln_normalized_of(self.raw, 0, 64)
        }
    }
}

} // verus!
