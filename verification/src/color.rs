//! From a sum of light to the three numbers of a pixel.

use vstd::prelude::*;

use crate::scalar::{lemma_mul_monotone, Scalar};
use crate::util::clamp;
use crate::vec3::Color;

verus! {

/// One channel of a pixel: the mean of the samples, its square root taken for
/// the eye, limited to `[0, 0.999]` and scaled to the whole numbers from 0 to
/// 255.
pub open spec fn channel_value(sum: Scalar, samples_per_pixel: i32) -> int {
    let scale = Scalar::from_ratio(1, samples_per_pixel as i64);
    let level = clamp_level(scale.mul(sum).sqrt());
    Scalar::from_ratio(25599, 100).mul(level).floor_int() as int
}

/// A level of light limited to `[0, 0.999]`.
pub open spec fn clamp_level(level: Scalar) -> Scalar {
    level.clamp(Scalar::zero(), Scalar::from_ratio(999, 1000))
}

/// The decimal digits of a number from 0 to 255, as text.
pub open spec fn decimal_text(n: int) -> Seq<u8> {
    if n < 10 {
        seq![(48 + n) as u8]
    } else if n < 100 {
        seq![(48 + n / 10) as u8, (48 + n % 10) as u8]
    } else {
        seq![(48 + n / 100) as u8, (48 + n / 10 % 10) as u8, (48 + n % 10) as u8]
    }
}

/// The line of a pixel: its three channel values in decimal, a space between
/// them and a line feed at the end.
pub open spec fn pixel_line(pixel_color: &Color, samples_per_pixel: i32) -> Seq<u8> {
    decimal_text(channel_value(pixel_color.x, samples_per_pixel)) + seq![32u8] + decimal_text(
        channel_value(pixel_color.y, samples_per_pixel),
    ) + seq![32u8] + decimal_text(channel_value(pixel_color.z, samples_per_pixel)) + seq![10u8]
}

/// The value of one channel.
pub fn channel(sum: Scalar, samples_per_pixel: i32) -> (value: u8)
    ensures
        value == channel_value(sum, samples_per_pixel),
{
    let scale = Scalar::from_ratio(1, samples_per_pixel as i64);
    let level = clamp(scale.mul(sum).sqrt(), Scalar::zero(), Scalar::from_ratio(999, 1000));
    let top = Scalar::from_ratio(25599, 100);
    proof {
        crate::scalar::lemma_sqrt_not_negative(scale.mul(sum));
    }
    let limit = Scalar::from_ratio(999, 1000);
    proof {
        assert(top.raw == 1099468678103);
        assert(limit.raw == 4290672328);
        assert(top.mul(limit).raw == 1098369209244);
        assert(top.mul(Scalar::zero()).raw == 0);
        lemma_mul_monotone(level, limit, top);
        lemma_mul_monotone(Scalar::zero(), level, top);
    }
    let scaled = top.mul(level);
    let whole = scaled.floor_int();
    assert(0 <= whole <= 255);
    whole as u8
}

fn push_decimal(out: &mut Vec<u8>, n: u8)
    ensures
        final(out)@ == old(out)@ + decimal_text(n as int),
{
    if n < 10 {
        out.push(48 + n);
    } else if n < 100 {
        out.push(48 + n / 10);
        out.push(48 + n % 10);
    } else {
        out.push(48 + n / 100);
        out.push(48 + n / 10 % 10);
        out.push(48 + n % 10);
    }
    assert(out@ == old(out)@ + decimal_text(n as int));
}

/// Appends the line of a pixel, whose colour is the sum of
/// `samples_per_pixel` samples, to the text of the picture.
pub fn write_color(out: &mut Vec<u8>, pixel_color: &Color, samples_per_pixel: i32)
    ensures
        final(out)@ == old(out)@ + pixel_line(pixel_color, samples_per_pixel),
{
    push_decimal(out, channel(pixel_color.x(), samples_per_pixel));
    out.push(32);
    push_decimal(out, channel(pixel_color.y(), samples_per_pixel));
    out.push(32);
    push_decimal(out, channel(pixel_color.z(), samples_per_pixel));
    out.push(10);
    assert(out@ == old(out)@ + pixel_line(pixel_color, samples_per_pixel));
}

} // verus!
