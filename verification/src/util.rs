//! Numeric helpers and the random source.

use rand::Rng;
use std::rc::Rc;
use vstd::prelude::*;

use crate::scalar::{Scalar, RAW_ONE};

verus! {

/// Draws an integer from the thread-local generator of `rand`, through
/// `Rng::gen_range` on the inclusive range from `low` to `high`. The generator
/// returns a value inside the range it is given, and refuses an empty range,
/// which the precondition leaves out.
#[verifier::external_body]
fn uniform_int(low: i64, high: i64) -> (r: i64)
    requires
        low <= high,
    ensures
        low <= r <= high,
{
    rand::thread_rng().gen_range(low..=high)
}

/// A second handle on a shared value, through `Rc::clone`, which hands back a
/// pointer to the same allocation: the value behind it is the one behind `rc`.
#[verifier::external_body]
pub(crate) fn share<T>(rc: &Rc<T>) -> (r: Rc<T>)
    ensures
        r == *rc,
{
    Rc::clone(rc)
}

/// `x` limited to the interval from `min` to `max`.
pub fn clamp(x: Scalar, min: Scalar, max: Scalar) -> (r: Scalar)
    ensures
        r == x.clamp(min, max),
{
    x.min(max).max(min)
}

/// A random number in `[0, 1)`.
pub fn random_f64() -> (r: Scalar)
    ensures
        0 <= r.raw < RAW_ONE,
{
    Scalar { raw: uniform_int(0, RAW_ONE - 1) }
}

/// A random number in `[min, max)`.
pub fn random_f64_range(min: Scalar, max: Scalar) -> (r: Scalar)
    requires
        min.raw < max.raw,
    ensures
        min.raw <= r.raw < max.raw,
{
    Scalar { raw: uniform_int(min.raw, max.raw - 1) }
}

/// The angle in radians of an angle given in degrees.
pub open spec fn degrees_to_radians_spec(degrees: Scalar) -> Scalar {
    degrees.mul(Scalar::pi()).div(Scalar::from_int(180))
}

#[verifier::when_used_as_spec(degrees_to_radians_spec)]
pub fn degrees_to_radians(degrees: Scalar) -> (r: Scalar)
    ensures
        r == degrees_to_radians_spec(degrees),
{
    degrees.mul(Scalar::pi()).div(Scalar::from_int(180))
}

/// A random integer between `min` and `max`, both included.
pub fn random_i32_in_range(min: i32, max: i32) -> (r: i32)
    requires
        min <= max,
    ensures
        min <= r <= max,
{
    uniform_int(min as i64, max as i64) as i32
}

} // verus!
