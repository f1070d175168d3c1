//! Axis-aligned bounding boxes and the slab test.

use vstd::prelude::*;

use crate::ray::Ray;
use crate::scalar::{lemma_mul_monotone, Scalar, RAW_MAX};
use crate::vec3::{Point3, Vec3};

verus! {

/// An axis-aligned box, given by its two extreme corners.
#[derive(Clone, Copy, Debug, PartialEq, Eq, Structural)]
pub struct AABB {
    pub minimum: Point3,
    pub maximum: Point3,
}

/// The componentwise smaller of two points.
pub open spec fn lower_corner(a: Point3, b: Point3) -> Point3 {
    Vec3 { x: a.x.min(b.x), y: a.y.min(b.y), z: a.z.min(b.z) }
}

/// The componentwise larger of two points.
pub open spec fn upper_corner(a: Point3, b: Point3) -> Point3 {
    Vec3 { x: a.x.max(b.x), y: a.y.max(b.y), z: a.z.max(b.z) }
}

/// Whether `a` is componentwise at most `b`.
pub open spec fn corner_le(a: Point3, b: Point3) -> bool {
    a.x.raw <= b.x.raw && a.y.raw <= b.y.raw && a.z.raw <= b.z.raw
}

/// The interval of ray parameters that is left of `(t_min, t_max)` after it is
/// cut down to the stretch in which the ray is between the two planes `lo` and
/// `hi` of one axis. `origin` and `direction` are the ray's components on that
/// axis. A zero direction divides to infinity, so that a ray parallel to the
/// planes is cut to nothing or not at all.
pub open spec fn slab_interval(
    lo: Scalar,
    hi: Scalar,
    origin: Scalar,
    direction: Scalar,
    t_min: Scalar,
    t_max: Scalar,
) -> (Scalar, Scalar) {
    let inv_d = Scalar::one().div(direction);
    let near = lo.sub(origin).mul(inv_d);
    let far = hi.sub(origin).mul(inv_d);
    let t0 = if inv_d.lt(Scalar::zero()) { far } else { near };
    let t1 = if inv_d.lt(Scalar::zero()) { near } else { far };
    (t0.max(t_min), t1.min(t_max))
}

/// Whether an interval of ray parameters holds nothing.
pub open spec fn interval_empty(i: (Scalar, Scalar)) -> bool {
    i.1.raw <= i.0.raw
}

impl AABB {
    /// The box spanned by two corners, whichever way round they are given.
    pub open spec fn new_spec(a: Point3, b: Point3) -> AABB {
        AABB { minimum: lower_corner(a, b), maximum: upper_corner(a, b) }
    }

    /// Whether the minimum corner is componentwise at most the maximum corner.
    pub open spec fn canonical(&self) -> bool {
        corner_le(self.minimum, self.maximum)
    }

    /// Whether `inner` lies within this box.
    pub open spec fn contains(&self, inner: &AABB) -> bool {
        corner_le(self.minimum, inner.minimum) && corner_le(inner.maximum, self.maximum)
    }

    /// The parameter interval left after the slab of one axis has been applied.
    pub open spec fn narrow(&self, r: &Ray, axis: usize, i: (Scalar, Scalar)) -> (Scalar, Scalar) {
        slab_interval(
            self.minimum.index(axis),
            self.maximum.index(axis),
            r.orig.index(axis),
            r.dir.index(axis),
            i.0,
            i.1,
        )
    }

    /// The slab test: the interval `(t_min, t_max)` is narrowed by the x, y and
    /// z slabs in turn, and the ray hits when no step leaves it empty.
    pub open spec fn hit_spec(&self, r: &Ray, t_min: Scalar, t_max: Scalar) -> bool {
        let ix = self.narrow(r, 0, (t_min, t_max));
        let iy = self.narrow(r, 1, ix);
        let iz = self.narrow(r, 2, iy);
        !interval_empty(ix) && !interval_empty(iy) && !interval_empty(iz)
    }

    #[verifier::when_used_as_spec(new_spec)]
    pub fn new(a: Point3, b: Point3) -> (r: AABB)
        ensures
            r == Self::new_spec(a, b),
            r.canonical(),
            corner_le(a, b) ==> r.minimum == a && r.maximum == b,
    {
        AABB {
            minimum: Vec3::new(a.x.min(b.x), a.y.min(b.y), a.z.min(b.z)),
            maximum: Vec3::new(a.x.max(b.x), a.y.max(b.y), a.z.max(b.z)),
        }
    }

    pub fn min(&self) -> (r: Point3)
        ensures
            r == self.minimum,
    {
        self.minimum
    }

    pub fn max(&self) -> (r: Point3)
        ensures
            r == self.maximum,
    {
        self.maximum
    }

    #[verifier::when_used_as_spec(hit_spec)]
    pub fn hit(&self, r: &Ray, t_min: Scalar, t_max: Scalar) -> (hit: bool)
        ensures
            hit == self.hit_spec(r, t_min, t_max),
    {
        let mut lo = t_min;
        let mut hi = t_max;
        let mut a: usize = 0;
        while a < 3
            invariant
                a <= 3,
                a == 0 ==> (lo, hi) == (t_min, t_max),
                a == 1 ==> (lo, hi) == self.narrow(r, 0, (t_min, t_max)),
                a == 2 ==> (lo, hi) == self.narrow(r, 1, self.narrow(r, 0, (t_min, t_max))),
                a == 3 ==> (lo, hi) == self.narrow(
                    r,
                    2,
                    self.narrow(r, 1, self.narrow(r, 0, (t_min, t_max))),
                ),
                a >= 1 ==> !interval_empty(self.narrow(r, 0, (t_min, t_max))),
                a >= 2 ==> !interval_empty(self.narrow(r, 1, self.narrow(r, 0, (t_min, t_max)))),
                a >= 3 ==> !interval_empty((lo, hi)),
            decreases 3 - a,
        {
            let inv_d = Scalar::one().div(r.direction().index(a));
            let mut t0 = self.min().index(a).sub(r.origin().index(a)).mul(inv_d);
            let mut t1 = self.max().index(a).sub(r.origin().index(a)).mul(inv_d);
            if inv_d.lt(Scalar::zero()) {
                let near = t0;
                t0 = t1;
                t1 = near;
            }
            lo = if t0.gt(lo) { t0 } else { lo };
            hi = if t1.lt(hi) { t1 } else { hi };
            if hi.le(lo) {
                return false;
            }
            a += 1;
        }
        true
    }
}

impl Default for AABB {
    /// The box that holds the origin alone.
    fn default() -> (r: AABB)
        ensures
            r == AABB::new(Vec3::zero(), Vec3::zero()),
    {
        AABB { minimum: Vec3::zero(), maximum: Vec3::zero() }
    }
}

/// The smallest box that holds both `box0` and `box1`.
pub open spec fn surrounding_box_spec(box0: AABB, box1: AABB) -> AABB {
    AABB {
        minimum: lower_corner(box0.minimum, box1.minimum),
        maximum: upper_corner(box0.maximum, box1.maximum),
    }
}

#[verifier::when_used_as_spec(surrounding_box_spec)]
pub fn surrounding_box(box0: AABB, box1: AABB) -> (r: AABB)
    ensures
        r == surrounding_box_spec(box0, box1),
        r.contains(&box0),
        r.contains(&box1),
        box0.canonical() || box1.canonical() ==> r.canonical(),
{
    let small = Point3::new(
        box0.min().x().min(box1.min().x()),
        box0.min().y().min(box1.min().y()),
        box0.min().z().min(box1.min().z()),
    );
    let big = Point3::new(
        box0.max().x().max(box1.max().x()),
        box0.max().y().max(box1.max().y()),
        box0.max().z().max(box1.max().z()),
    );
    AABB { minimum: small, maximum: big }
}

/// A box labelled either way round is the same box, so the slab test cannot
/// tell the two apart.
pub proof fn lemma_hit_ignores_corner_order(a: Point3, b: Point3, r: Ray, t_min: Scalar, t_max: Scalar)
    ensures
        AABB::new(a, b) == AABB::new(b, a),
        AABB::new(a, b).hit(&r, t_min, t_max) == AABB::new(b, a).hit(&r, t_min, t_max),
{
}

/// A ray that runs along the planes of a slab is not cut by it where it runs
/// between them, and is cut to nothing where it runs outside: its direction
/// across the planes is zero, the quotients are infinite, and no case needs
/// to be told apart.
pub proof fn lemma_parallel_ray(lo: Scalar, hi: Scalar, origin: Scalar, t_min: Scalar, t_max: Scalar)
    requires
        lo.raw <= hi.raw,
        -RAW_MAX <= t_min.raw,
    ensures
        lo.raw < origin.raw < hi.raw ==> slab_interval(lo, hi, origin, Scalar::zero(), t_min, t_max)
            == (t_min, t_max),
        origin.raw < lo.raw || hi.raw < origin.raw ==> interval_empty(
            slab_interval(lo, hi, origin, Scalar::zero(), t_min, t_max),
        ),
{
    let inv_d = Scalar::one().div(Scalar::zero());
    assert(inv_d == Scalar::infinity());
}

/// A wider slab leaves more of a wider interval: where the planes `lo1` and
/// `hi1` lie outside the planes `lo2` and `hi2`, and the interval `i1` holds
/// the interval `i2`, what the first slab leaves of `i1` holds what the second
/// leaves of `i2`.
pub proof fn lemma_slab_monotone(
    lo1: Scalar,
    hi1: Scalar,
    lo2: Scalar,
    hi2: Scalar,
    origin: Scalar,
    direction: Scalar,
    i1: (Scalar, Scalar),
    i2: (Scalar, Scalar),
)
    requires
        lo1.raw <= lo2.raw,
        hi2.raw <= hi1.raw,
        i1.0.raw <= i2.0.raw,
        i2.1.raw <= i1.1.raw,
    ensures
        slab_interval(lo1, hi1, origin, direction, i1.0, i1.1).0.raw <= slab_interval(
            lo2,
            hi2,
            origin,
            direction,
            i2.0,
            i2.1,
        ).0.raw,
        slab_interval(lo2, hi2, origin, direction, i2.0, i2.1).1.raw <= slab_interval(
            lo1,
            hi1,
            origin,
            direction,
            i1.0,
            i1.1,
        ).1.raw,
{
    let inv_d = Scalar::one().div(direction);
    lemma_mul_monotone(lo1.sub(origin), lo2.sub(origin), inv_d);
    lemma_mul_monotone(hi2.sub(origin), hi1.sub(origin), inv_d);
}

/// A box is hit wherever a box inside it is hit.
pub proof fn lemma_hit_monotone(outer: AABB, inner: AABB, r: Ray, t_min: Scalar, t_max: Scalar)
    requires
        outer.contains(&inner),
        inner.hit(&r, t_min, t_max),
    ensures
        outer.hit(&r, t_min, t_max),
{
    let start = (t_min, t_max);
    let ox = outer.narrow(&r, 0, start);
    let ix = inner.narrow(&r, 0, start);
    lemma_slab_monotone(
        outer.minimum.x,
        outer.maximum.x,
        inner.minimum.x,
        inner.maximum.x,
        r.orig.x,
        r.dir.x,
        start,
        start,
    );
    let oy = outer.narrow(&r, 1, ox);
    let iy = inner.narrow(&r, 1, ix);
    lemma_slab_monotone(
        outer.minimum.y,
        outer.maximum.y,
        inner.minimum.y,
        inner.maximum.y,
        r.orig.y,
        r.dir.y,
        ox,
        ix,
    );
    lemma_slab_monotone(
        outer.minimum.z,
        outer.maximum.z,
        inner.minimum.z,
        inner.maximum.z,
        r.orig.z,
        r.dir.z,
        oy,
        iy,
    );
}

/// Holding is passed on: a box holds what a box inside it holds.
pub proof fn lemma_contains_transitive(a: AABB, b: AABB, c: AABB)
    requires
        a.contains(&b),
        b.contains(&c),
    ensures
        a.contains(&c),
{
}

} // verus!
