//! Textures: colour as a function of surface coordinates and position.

use std::rc::Rc;
use vstd::prelude::*;

use crate::perlin::{all_lattice_directions, is_permutation, Perlin, POINT_COUNT};
use crate::scalar::{Scalar, RAW_ONE};
use crate::util::clamp;
use crate::vec3::{Color, Point3, Vec3};

verus! {

/// The bytes that one pixel of an image takes: red, green, blue.
pub const BYTES_PER_PIXEL: usize = 3;

/// The same colour everywhere.
#[derive(Clone, Copy, Debug, PartialEq, Eq, Structural)]
pub struct SolidColor {
    pub color_value: Color,
}

/// Two textures that alternate in a three-dimensional checker pattern.
pub struct CheckerTexture {
    pub even: Rc<Texture>,
    pub odd: Rc<Texture>,
}

/// Marble-like bands, bent by turbulence.
pub struct NoiseTexture {
    pub noise: Perlin,
    pub scale: Scalar,
}

/// A picture wrapped onto the surface.
pub struct ImageTexture {
    data: Option<Vec<u8>>,
    width: usize,
    height: usize,
    bytes_per_scanline: usize,
}

/// Any of the textures.
pub enum Texture {
    SolidColor(SolidColor),
    Checker(CheckerTexture),
    Noise(NoiseTexture),
    Image(ImageTexture),
}

/// The pixel column or row that the coordinate `c`, between zero and one,
/// falls into when `count` of them lie side by side: `c * count` rounded down,
/// and the last one for `c = 1`.
pub open spec fn pixel_index(c: Scalar, count: usize) -> int {
    let i = (c.raw * count) / (RAW_ONE as int);
    if i >= count {
        count - 1
    } else {
        i
    }
}

/// The colour of a pixel given by its three bytes: each byte over 255.
pub open spec fn pixel_color(red: u8, green: u8, blue: u8) -> Color {
    Vec3 {
        x: Scalar::from_ratio(red as i64, 255),
        y: Scalar::from_ratio(green as i64, 255),
        z: Scalar::from_ratio(blue as i64, 255),
    }
}

/// The colour that stands for a picture that could not be had: cyan.
pub open spec fn missing_image_color() -> Color {
    Vec3 { x: Scalar::zero(), y: Scalar::one(), z: Scalar::one() }
}

fn pixel_index_of(c: Scalar, count: usize) -> (i: usize)
    requires
        0 <= c.raw <= RAW_ONE,
        0 < count,
    ensures
        i == pixel_index(c, count),
        i < count,
{
    assert(0 <= c.raw * count <= 0x1_0000_0000 * 0xffff_ffff_ffff_ffff) by (nonlinear_arith)
        requires
            0 <= c.raw <= 0x1_0000_0000,
            0 < count <= 0xffff_ffff_ffff_ffff,
    ;
    let wide: u128 = (c.raw as u128) * (count as u128) / 0x1_0000_0000u128;
    if wide >= count as u128 {
        count - 1
    } else {
        wide as usize
    }
}

impl SolidColor {
    pub open spec fn new_spec(red: Scalar, green: Scalar, blue: Scalar) -> SolidColor {
        SolidColor { color_value: Vec3 { x: red, y: green, z: blue } }
    }

    pub open spec fn from_spec(color: Color) -> SolidColor {
        SolidColor { color_value: color }
    }

    pub open spec fn value_spec(&self, u: Scalar, v: Scalar, p: &Point3) -> Color {
        self.color_value
    }

    #[verifier::when_used_as_spec(new_spec)]
    pub fn new(red: Scalar, green: Scalar, blue: Scalar) -> (r: SolidColor)
        ensures
            r == Self::new_spec(red, green, blue),
    {
        SolidColor { color_value: Color::new(red, green, blue) }
    }

    #[verifier::when_used_as_spec(from_spec)]
    pub fn from(color: Color) -> (r: SolidColor)
        ensures
            r == Self::from_spec(color),
    {
        SolidColor { color_value: color }
    }

    #[verifier::when_used_as_spec(value_spec)]
    pub fn value(&self, u: Scalar, v: Scalar, p: &Point3) -> (c: Color)
        ensures
            c == self.value_spec(u, v, p),
    {
        self.color_value
    }
}

impl Default for SolidColor {
    /// Black.
    fn default() -> (r: SolidColor)
        ensures
            r == SolidColor::from(Vec3::zero()),
    {
        SolidColor { color_value: Vec3::zero() }
    }
}

impl CheckerTexture {
    /// Whether `p` lies in a cell of the odd texture: where the product of the
    /// sines of ten times each coordinate is negative.
    pub open spec fn is_odd_cell(p: &Point3) -> bool {
        let ten = Scalar::from_int(10);
        ten.mul(p.x).sin().mul(ten.mul(p.y).sin()).mul(ten.mul(p.z).sin()).lt(Scalar::zero())
    }

    pub open spec fn value_spec(&self, u: Scalar, v: Scalar, p: &Point3) -> Color
        decreases self,
    {
        if Self::is_odd_cell(p) {
            self.odd.value_spec(u, v, p)
        } else {
            self.even.value_spec(u, v, p)
        }
    }

    /// A checker pattern of two plain colours.
    pub fn new(even: Color, odd: Color) -> (r: CheckerTexture)
        ensures
            *r.even == Texture::SolidColor(SolidColor::from(even)),
            *r.odd == Texture::SolidColor(SolidColor::from(odd)),
    {
        CheckerTexture {
            even: Rc::new(Texture::SolidColor(SolidColor::from(even))),
            odd: Rc::new(Texture::SolidColor(SolidColor::from(odd))),
        }
    }

    #[verifier::when_used_as_spec(value_spec)]
    pub fn value(&self, u: Scalar, v: Scalar, p: &Point3) -> (c: Color)
        ensures
            c == self.value_spec(u, v, p),
        decreases self,
    {
        let ten = Scalar::from_int(10);
        let sines = ten.mul(p.x()).sin().mul(ten.mul(p.y()).sin()).mul(ten.mul(p.z()).sin());
        if sines.lt(Scalar::zero()) {
            self.odd.value(u, v, p)
        } else {
            self.even.value(u, v, p)
        }
    }
}

impl NoiseTexture {
    /// Grey bands along z: half of one plus the sine of the scaled z
    /// coordinate, shifted by ten times the turbulence of seven octaves.
    pub open spec fn value_spec(&self, u: Scalar, v: Scalar, p: &Point3) -> Color {
        let one = Scalar::one();
        let phase = self.scale.mul(p.z).add(Scalar::from_int(10).mul(self.noise.turb(p, 7)));
        Vec3 { x: one, y: one, z: one }.scale(Scalar::from_ratio(1, 2)).scale(one.add(phase.sin()))
    }

    /// A noise texture of the given frequency over a fresh random noise table.
    pub fn new(scale: Scalar) -> (r: NoiseTexture)
        ensures
            r.scale == scale,
            r.noise.directions().len() == POINT_COUNT,
            all_lattice_directions(r.noise.directions()),
            is_permutation(r.noise.permutations().0),
            is_permutation(r.noise.permutations().1),
            is_permutation(r.noise.permutations().2),
    {
        NoiseTexture { noise: Perlin::new(), scale }
    }

    #[verifier::when_used_as_spec(value_spec)]
    pub fn value(&self, u: Scalar, v: Scalar, p: &Point3) -> (c: Color)
        ensures
            c == self.value_spec(u, v, p),
    {
        let one = Scalar::one();
        let phase = self.scale.mul(p.z()).add(Scalar::from_int(10).mul(self.noise.turb(p, 7)));
        Color::new(one, one, one).scale(Scalar::from_ratio(1, 2)).scale(one.add(phase.sin()))
    }
}

impl ImageTexture {
    #[verifier::type_invariant]
    pub closed spec fn well_formed(&self) -> bool {
        &&& self.bytes_per_scanline == BYTES_PER_PIXEL * self.width
        &&& self.data matches Some(bytes) ==> {
            &&& 0 < self.width
            &&& 0 < self.height
            &&& bytes@.len() == self.height * self.bytes_per_scanline
        }
    }

    /// The bytes of the picture, row by row from the top, three to a pixel;
    /// `None` where there is no picture.
    pub closed spec fn pixels(&self) -> Option<Seq<u8>> {
        match self.data {
            Some(bytes) => Some(bytes@),
            None => None,
        }
    }

    /// The number of pixels in a row.
    pub closed spec fn columns(&self) -> usize {
        self.width
    }

    /// The number of rows.
    pub closed spec fn rows(&self) -> usize {
        self.height
    }

    /// The colour at `(u, v)`: both coordinates are limited to `[0, 1]`, v is
    /// turned upside down, and the pixel they fall into is looked up. Cyan
    /// where there is no picture.
    pub open spec fn value_spec(&self, u: Scalar, v: Scalar, p: &Point3) -> Color {
        match self.pixels() {
            None => missing_image_color(),
            Some(bytes) => {
                let i = pixel_index(u.clamp(Scalar::zero(), Scalar::one()), self.columns());
                let j = pixel_index(
                    Scalar::one().sub(v.clamp(Scalar::zero(), Scalar::one())),
                    self.rows(),
                );
                let index = j * (BYTES_PER_PIXEL * self.columns()) + i * BYTES_PER_PIXEL;
                pixel_color(bytes[index], bytes[index + 1], bytes[index + 2])
            },
        }
    }

    /// A texture over a decoded picture of `width` by `height` pixels, given
    /// as its bytes. Without bytes, or where their number does not fit the two
    /// sizes, or a size is zero, the texture has no picture.
    pub fn new(data: Option<Vec<u8>>, width: usize, height: usize) -> (r: ImageTexture)
        ensures
            r.pixels() == (match data {
                Some(bytes) => if 0 < width && 0 < height && bytes@.len() == height * (
                BYTES_PER_PIXEL * width) {
                    Some(bytes@)
                } else {
                    None
                },
                None => None,
            }),
            r.pixels() is Some ==> r.columns() == width && r.rows() == height,
    {
        let missing = ImageTexture { data: None, width: 0, height: 0, bytes_per_scanline: 0 };
        match data {
            None => missing,
            Some(bytes) => {
                if width == 0 || height == 0 {
                    return missing;
                }
                let len = bytes.len();
                let ghost row_len: int = 3 * (width as int);
                proof {
                    Self::total_dominates(height as int, row_len);
                    assert(BYTES_PER_PIXEL * width == row_len);
                    assert(height * (BYTES_PER_PIXEL * width) == height * row_len);
                }
                let row = match BYTES_PER_PIXEL.checked_mul(width) {
                    Some(row) => row,
                    None => {
                        return missing;
                    },
                };
                let total = match height.checked_mul(row) {
                    Some(total) => total,
                    None => {
                        return missing;
                    },
                };
                if len != total {
                    return missing;
                }
                ImageTexture { data: Some(bytes), width, height, bytes_per_scanline: row }
            },
        }
    }

    proof fn total_dominates(height: int, row: int)
        requires
            0 < height,
            0 <= row,
        ensures
            height * row >= row,
    {
        assert(height * row >= row) by (nonlinear_arith)
            requires
                0 < height,
                0 <= row,
        ;
    }

    proof fn index_in_bounds(i: int, j: int, width: int, height: int)
        requires
            0 <= i < width,
            0 <= j < height,
        ensures
            0 <= j * (3 * width) + i * 3,
            j * (3 * width) + i * 3 + 3 <= height * (3 * width),
    {
        assert(j * (3 * width) + 3 * width <= height * (3 * width)) by (nonlinear_arith)
            requires
                0 <= j,
                j + 1 <= height,
                0 <= width,
        ;
        assert(0 <= j * (3 * width)) by (nonlinear_arith)
            requires
                0 <= j,
                0 <= width,
        ;
    }

    #[verifier::when_used_as_spec(value_spec)]
    pub fn value(&self, u: Scalar, v: Scalar, p: &Point3) -> (c: Color)
        ensures
            c == self.value_spec(u, v, p),
    {
        proof {
            use_type_invariant(self);
        }
        match &self.data {
            None => Color::new(Scalar::zero(), Scalar::one(), Scalar::one()),
            Some(data) => {
                let u = clamp(u, Scalar::zero(), Scalar::one());
                let v = Scalar::one().sub(clamp(v, Scalar::zero(), Scalar::one()));
                let i = pixel_index_of(u, self.width);
                let j = pixel_index_of(v, self.height);
                proof {
                    Self::index_in_bounds(i as int, j as int, self.width as int, self.height as int);
                    assert(self.bytes_per_scanline == 3 * self.width);
                    assert(BYTES_PER_PIXEL * self.columns() == 3 * self.width);
                    assert(j * self.bytes_per_scanline == j * (3 * self.width));
                    assert(self.height * self.bytes_per_scanline == self.height * (3 * self.width));
                }
                let len = data.len();
                let index = j * self.bytes_per_scanline + i * BYTES_PER_PIXEL;
                Color::new(
                    Scalar::from_ratio(data[index] as i64, 255),
                    Scalar::from_ratio(data[index + 1] as i64, 255),
                    Scalar::from_ratio(data[index + 2] as i64, 255),
                )
            },
        }
    }
}

impl Texture {
    /// The colour of the texture at surface coordinates `(u, v)` and point `p`.
    pub open spec fn value_spec(&self, u: Scalar, v: Scalar, p: &Point3) -> Color
        decreases self,
    {
        match self {
            Texture::SolidColor(t) => t.value_spec(u, v, p),
            Texture::Checker(t) => t.value_spec(u, v, p),
            Texture::Noise(t) => t.value_spec(u, v, p),
            Texture::Image(t) => t.value_spec(u, v, p),
        }
    }

    #[verifier::when_used_as_spec(value_spec)]
    pub fn value(&self, u: Scalar, v: Scalar, p: &Point3) -> (c: Color)
        ensures
            c == self.value_spec(u, v, p),
        decreases self,
    {
        match self {
            Texture::SolidColor(t) => t.value(u, v, p),
            Texture::Checker(t) => t.value(u, v, p),
            Texture::Noise(t) => t.value(u, v, p),
            Texture::Image(t) => t.value(u, v, p),
        }
    }
}

} // verus!
