//! Lists of objects, scanned one by one.

use std::rc::Rc;
use vstd::prelude::*;

use crate::aabb::{surrounding_box, AABB};
use crate::hittable::{HitRecord, Hittable};
use crate::ray::Ray;
use crate::scalar::Scalar;

verus! {

/// A list of objects that is hit where any of them is hit.
pub struct HittableList {
    pub objects: Vec<Rc<Hittable>>,
}

/// The limit that a scan has reached: the parameter of the hit found so far,
/// or `t_max` without one.
pub open spec fn closest_so_far(found: Option<HitRecord>, t_max: Scalar) -> Scalar {
    match found {
        Some(rec) => rec.t,
        None => t_max,
    }
}

/// The hit that a scan of the first `n` objects ends with: each object is
/// tried up to the parameter of the hit found before it, and a hit takes the
/// place of the one before.
pub open spec fn scan_spec(
    objects: Seq<Rc<Hittable>>,
    n: nat,
    r: &Ray,
    t_min: Scalar,
    t_max: Scalar,
    log_u: Scalar,
) -> Option<HitRecord>
    decreases objects, n,
{
    if n == 0 || n > objects.len() {
        None
    } else {
        let before = scan_spec(objects, (n - 1) as nat, r, t_min, t_max, log_u);
        match objects[n - 1].hit_with_spec(r, t_min, closest_so_far(before, t_max), log_u) {
            Some(rec) => Some(rec),
            None => before,
        }
    }
}

/// The box round the first `n` objects; `None` for no object, and where one of
/// them has no box.
pub open spec fn union_box_spec(objects: Seq<Rc<Hittable>>, n: nat, time0: Scalar, time1: Scalar) -> Option<
    AABB,
>
    decreases objects, n,
{
    if n == 0 || n > objects.len() {
        None
    } else if n == 1 {
        objects[0].bounding_box_spec(time0, time1)
    } else {
        match (
            union_box_spec(objects, (n - 1) as nat, time0, time1),
            objects[n - 1].bounding_box_spec(time0, time1),
        ) {
            (Some(before), Some(b)) => Some(surrounding_box(before, b)),
            _ => None,
        }
    }
}

impl HittableList {
    /// The nearest hit among the objects.
    pub open spec fn hit_spec(&self, r: &Ray, t_min: Scalar, t_max: Scalar, log_u: Scalar) -> Option<
        HitRecord,
    >
        decreases self,
    {
        scan_spec(self.objects@, self.objects@.len(), r, t_min, t_max, log_u)
    }

    /// The box round all the objects.
    pub open spec fn bounding_box_spec(&self, time0: Scalar, time1: Scalar) -> Option<AABB>
        decreases self,
    {
        union_box_spec(self.objects@, self.objects@.len(), time0, time1)
    }

    /// A list of one object.
    pub fn new(object: Rc<Hittable>) -> (l: HittableList)
        ensures
            l.objects@ == seq![object],
    {
        let mut objects = Vec::new();
        objects.push(object);
        HittableList { objects }
    }

    pub fn clear(&mut self)
        ensures
            final(self).objects@ == Seq::<Rc<Hittable>>::empty(),
    {
        self.objects.clear();
    }

    pub fn add(&mut self, object: Rc<Hittable>)
        ensures
            final(self).objects@ == old(self).objects@.push(object),
    {
        self.objects.push(object);
    }

    #[verifier::when_used_as_spec(hit_spec)]
    pub fn hit(&self, r: &Ray, t_min: Scalar, t_max: Scalar, log_u: Scalar) -> (hit: Option<
        HitRecord,
    >)
        ensures
            hit == self.hit_spec(r, t_min, t_max, log_u),
        decreases self,
    {
        let mut temp_rec: Option<HitRecord> = None;
        let mut closest = t_max;
        let mut i: usize = 0;
        while i < self.objects.len()
            invariant
                i <= self.objects@.len(),
                temp_rec == scan_spec(self.objects@, i as nat, r, t_min, t_max, log_u),
                closest == closest_so_far(temp_rec, t_max),
            decreases self.objects@.len() - i,
        {
            proof {
                assert(decreases_to!(self.objects => self.objects[i as int]));
            }
            match self.objects[i].hit_with(r, t_min, closest, log_u) {
                Some(rec) => {
                    closest = rec.t;
                    temp_rec = Some(rec);
                },
                None => {},
            }
            i += 1;
        }
        temp_rec
    }

    #[verifier::when_used_as_spec(bounding_box_spec)]
    pub fn bounding_box(&self, time0: Scalar, time1: Scalar) -> (b: Option<AABB>)
        ensures
            b == self.bounding_box_spec(time0, time1),
        decreases self,
    {
        if self.objects.len() == 0 {
            return None;
        }
        proof {
            assert(decreases_to!(self.objects => self.objects[0]));
        }
        let mut output_box = match self.objects[0].bounding_box(time0, time1) {
            Some(b) => b,
            None => {
                proof {
                    Self::lemma_no_box_spreads(self.objects@, 1, self.objects@.len(), time0, time1);
                }
                return None;
            },
        };
        let mut i: usize = 1;
        while i < self.objects.len()
            invariant
                1 <= i <= self.objects@.len(),
                Some(output_box) == union_box_spec(self.objects@, i as nat, time0, time1),
            decreases self.objects@.len() - i,
        {
            proof {
                assert(decreases_to!(self.objects => self.objects[i as int]));
            }
            match self.objects[i].bounding_box(time0, time1) {
                Some(temp_box) => {
                    output_box = surrounding_box(output_box, temp_box);
                },
                None => {
                    proof {
                        Self::lemma_no_box_spreads(
                            self.objects@,
                            (i + 1) as nat,
                            self.objects@.len(),
                            time0,
                            time1,
                        );
                    }
                    return None;
                },
            }
            i += 1;
        }
        Some(output_box)
    }

    /// Once the first objects have no box between them, no longer stretch of
    /// the list has one.
    proof fn lemma_no_box_spreads(
        objects: Seq<Rc<Hittable>>,
        n: nat,
        m: nat,
        time0: Scalar,
        time1: Scalar,
    )
        requires
            1 <= n <= m <= objects.len(),
            union_box_spec(objects, n, time0, time1) is None,
        ensures
            union_box_spec(objects, m, time0, time1) is None,
        decreases m,
    {
        if n < m {
            Self::lemma_no_box_spreads(objects, n, (m - 1) as nat, time0, time1);
        }
    }
}

impl Default for HittableList {
    /// A list of no object.
    fn default() -> (l: HittableList)
        ensures
            l.objects@ == Seq::<Rc<Hittable>>::empty(),
    {
        HittableList { objects: Vec::new() }
    }
}

} // verus!
