//! The hierarchy finds what a scan of the objects finds.
//!
//! A scan tries every object; a hierarchy leaves out what lies in boxes that
//! the ray misses. Both end at the same parameter, as long as each object
//! answers steadily: a lower limit cuts off its hit and changes nothing else,
//! and its box is hit on every interval on which the object is.

use std::rc::Rc;
use vstd::prelude::*;

use crate::aabb::{lemma_contains_transitive, lemma_hit_monotone, AABB};
use crate::aarect::rect_hit_spec;
use crate::bvh::BVHNode;
use crate::hittable::{HitRecord, Hittable};
use crate::hittable_list::{closest_so_far, scan_spec};
use crate::ray::Ray;
use crate::scalar::Scalar;
use crate::sphere::{first_root_in_range, lemma_roots_in_order, sphere_roots};
use crate::vec3::Point3;

verus! {

/// The parameter of a hit, if there is one.
pub open spec fn parameter_of(hit: Option<HitRecord>) -> Option<Scalar> {
    match hit {
        Some(rec) => Some(rec.t),
        None => None,
    }
}

/// The parameter at which the object is hit on the interval from `t_min` to
/// `limit`.
#[verifier::opaque]
pub open spec fn hit_parameter(
    o: &Hittable,
    r: &Ray,
    t_min: Scalar,
    limit: Scalar,
    log_u: Scalar,
) -> Option<Scalar> {
    parameter_of(o.hit_with_spec(r, t_min, limit, log_u))
}

/// Whether the object's box, over the given times, is hit on the interval
/// from `t_min` to `limit`.
#[verifier::opaque]
pub open spec fn box_is_hit(
    o: &Hittable,
    r: &Ray,
    t_min: Scalar,
    limit: Scalar,
    time0: Scalar,
    time1: Scalar,
) -> bool {
    o.bounding_box_spec(time0, time1) matches Some(b) && b.hit(r, t_min, limit)
}

/// A parameter cut off at a limit: it stays if it is not above the limit.
pub open spec fn capped(t: Option<Scalar>, limit: Scalar) -> Option<Scalar> {
    match t {
        Some(t) => if t.raw <= limit.raw {
            Some(t)
        } else {
            None
        },
        None => None,
    }
}

/// Whether the object answers the ray steadily up to `t_max`: on every
/// interval that ends at or before `t_max` it is hit where it is hit on the
/// whole interval, if that lies within; and where it is hit, the ray does not
/// merely graze its box, but hits that too.
pub open spec fn steady(
    o: &Hittable,
    r: &Ray,
    t_min: Scalar,
    t_max: Scalar,
    log_u: Scalar,
    time0: Scalar,
    time1: Scalar,
) -> bool {
    forall|limit: Scalar|
        limit.raw <= t_max.raw ==> {
            &&& #[trigger] hit_parameter(o, r, t_min, limit, log_u) == capped(
                hit_parameter(o, r, t_min, t_max, log_u),
                limit,
            )
            &&& hit_parameter(o, r, t_min, limit, log_u) is Some ==> box_is_hit(
                o,
                r,
                t_min,
                limit,
                time0,
                time1,
            )
        }
}

/// Whether every object of the sequence is steady.
pub open spec fn all_steady(
    objects: Seq<Rc<Hittable>>,
    r: &Ray,
    t_min: Scalar,
    t_max: Scalar,
    log_u: Scalar,
    time0: Scalar,
    time1: Scalar,
) -> bool {
    forall|i: int|
        0 <= i < objects.len() ==> steady(&#[trigger] objects[i], r, t_min, t_max, log_u, time0, time1)
}

/// Whether `best` is the smallest parameter at which any of the objects is
/// hit on the interval from `t_min` to `limit`; `None` where none is hit.
pub open spec fn nearest_among(
    objects: Seq<Rc<Hittable>>,
    r: &Ray,
    t_min: Scalar,
    limit: Scalar,
    log_u: Scalar,
    best: Option<Scalar>,
) -> bool {
    match best {
        None => forall|i: int|
            0 <= i < objects.len() ==> #[trigger] hit_parameter(
                &objects[i],
                r,
                t_min,
                limit,
                log_u,
            ) is None,
        Some(m) => {
            &&& exists|i: int|
                0 <= i < objects.len() && #[trigger] hit_parameter(
                    &objects[i],
                    r,
                    t_min,
                    limit,
                    log_u,
                ) == Some(m)
            &&& forall|i: int|
                0 <= i < objects.len() ==> (#[trigger] hit_parameter(
                    &objects[i],
                    r,
                    t_min,
                    limit,
                    log_u,
                ) matches Some(t) ==> m.raw <= t.raw)
        },
    }
}

/// What a node answers when its box is hit, from what its children answer:
/// the right child's hit where it has one, else the left child's.
pub open spec fn joined(left: Option<Scalar>, right: Option<Scalar>) -> Option<Scalar> {
    match left {
        Some(hl) => match right {
            Some(hr) => Some(hr),
            None => Some(hl),
        },
        None => right,
    }
}

/// The limit up to which the right child is tried: the left child's hit, or
/// the limit of the node without one.
pub open spec fn right_limit(left: Option<Scalar>, limit: Scalar) -> Scalar {
    match left {
        Some(hl) => hl,
        None => limit,
    }
}

/// A steady object is not hit above the limit.
pub proof fn lemma_steady_hit_within(
    o: &Hittable,
    r: &Ray,
    t_min: Scalar,
    t_max: Scalar,
    limit: Scalar,
    log_u: Scalar,
    time0: Scalar,
    time1: Scalar,
)
    requires
        steady(o, r, t_min, t_max, log_u, time0, time1),
        limit.raw <= t_max.raw,
    ensures
        hit_parameter(o, r, t_min, limit, log_u) matches Some(t) ==> t.raw <= limit.raw
            && hit_parameter(o, r, t_min, t_max, log_u) == Some(t),
        hit_parameter(o, r, t_min, limit, log_u) == capped(
            hit_parameter(o, r, t_min, t_max, log_u),
            limit,
        ),
{
    assert(hit_parameter(o, r, t_min, limit, log_u) == capped(
        hit_parameter(o, r, t_min, t_max, log_u),
        limit,
    ));
}

/// A scan of steady objects ends at the smallest parameter at which any of
/// them is hit.
pub proof fn lemma_scan_finds_nearest(
    objects: Seq<Rc<Hittable>>,
    n: nat,
    r: &Ray,
    t_min: Scalar,
    t_max: Scalar,
    log_u: Scalar,
    time0: Scalar,
    time1: Scalar,
)
    requires
        n <= objects.len(),
        all_steady(objects, r, t_min, t_max, log_u, time0, time1),
    ensures
        nearest_among(
            objects.take(n as int),
            r,
            t_min,
            t_max,
            log_u,
            parameter_of(scan_spec(objects, n, r, t_min, t_max, log_u)),
        ),
    decreases n,
{
    let seen = objects.take(n as int);
    if n > 0 {
        lemma_scan_finds_nearest(objects, (n - 1) as nat, r, t_min, t_max, log_u, time0, time1);
        let earlier = objects.take(n - 1);
        let before = scan_spec(objects, (n - 1) as nat, r, t_min, t_max, log_u);
        let best_before = parameter_of(before);
        let closest = closest_so_far(before, t_max);
        let o = objects[n - 1];
        let found = hit_parameter(&o, r, t_min, closest, log_u);
        let best = parameter_of(scan_spec(objects, n, r, t_min, t_max, log_u));
        assert(found == parameter_of(o.hit_with_spec(r, t_min, closest, log_u))) by {
            reveal(hit_parameter);
        }
        assert(best == (match found {
            Some(t) => Some(t),
            None => best_before,
        }));
        assert(steady(&o, r, t_min, t_max, log_u, time0, time1));
        assert forall|i: int| 0 <= i < earlier.len() implies earlier[i] == seen[i] by {}
        assert(seen[n - 1] == o);
        if let Some(m) = best_before {
            let j = choose|j: int|
                0 <= j < earlier.len() && #[trigger] hit_parameter(
                    &earlier[j],
                    r,
                    t_min,
                    t_max,
                    log_u,
                ) == Some(m);
            assert(steady(&objects[j], r, t_min, t_max, log_u, time0, time1));
            lemma_steady_hit_within(&objects[j], r, t_min, t_max, t_max, log_u, time0, time1);
            assert(closest == m);
            assert(hit_parameter(&seen[j], r, t_min, t_max, log_u) == Some(m));
        }
        lemma_steady_hit_within(&o, r, t_min, t_max, closest, log_u, time0, time1);
        lemma_steady_hit_within(&o, r, t_min, t_max, t_max, log_u, time0, time1);
        match best {
            None => {
                assert forall|i: int| 0 <= i < seen.len() implies #[trigger] hit_parameter(
                    &seen[i],
                    r,
                    t_min,
                    t_max,
                    log_u,
                ) is None by {
                    if i < n - 1 {
                        assert(hit_parameter(&earlier[i], r, t_min, t_max, log_u) is None);
                    }
                }
            },
            Some(m) => {
                assert forall|i: int| 0 <= i < seen.len() implies (#[trigger] hit_parameter(
                    &seen[i],
                    r,
                    t_min,
                    t_max,
                    log_u,
                ) matches Some(t) ==> m.raw <= t.raw) by {
                    if i < n - 1 {
                        let hp = hit_parameter(&earlier[i], r, t_min, t_max, log_u);
                        assert(hp == hit_parameter(&seen[i], r, t_min, t_max, log_u));
                    }
                }
                if found is Some {
                    assert(hit_parameter(&seen[n - 1], r, t_min, t_max, log_u) == Some(m));
                }
            },
        }
    }
}

/// Two sequences with the same entries have the same nearest hit.
pub proof fn lemma_nearest_is_unique(
    a: Seq<Rc<Hittable>>,
    b: Seq<Rc<Hittable>>,
    r: &Ray,
    t_min: Scalar,
    limit: Scalar,
    log_u: Scalar,
    best_a: Option<Scalar>,
    best_b: Option<Scalar>,
)
    requires
        a.to_multiset() == b.to_multiset(),
        nearest_among(a, r, t_min, limit, log_u, best_a),
        nearest_among(b, r, t_min, limit, log_u, best_b),
    ensures
        best_a == best_b,
{
    broadcast use vstd::seq_lib::group_to_multiset_ensures;

    if let Some(m) = best_a {
        let i = choose|i: int|
            0 <= i < a.len() && #[trigger] hit_parameter(&a[i], r, t_min, limit, log_u) == Some(m);
        assert(a.contains(a[i]));
        assert(b.to_multiset().count(a[i]) > 0);
        assert(b.contains(a[i]));
        let k = choose|k: int| 0 <= k < b.len() && b[k] == a[i];
        assert(hit_parameter(&b[k], r, t_min, limit, log_u) == Some(m));
    }
    if let Some(m) = best_b {
        let i = choose|i: int|
            0 <= i < b.len() && #[trigger] hit_parameter(&b[i], r, t_min, limit, log_u) == Some(m);
        assert(b.contains(b[i]));
        assert(a.to_multiset().count(b[i]) > 0);
        assert(a.contains(b[i]));
        let k = choose|k: int| 0 <= k < a.len() && a[k] == b[i];
        assert(hit_parameter(&a[k], r, t_min, limit, log_u) == Some(m));
    }
}

/// The nearest hit among one object is that object's hit.
pub proof fn lemma_nearest_of_one(
    o: Rc<Hittable>,
    r: &Ray,
    t_min: Scalar,
    limit: Scalar,
    log_u: Scalar,
)
    ensures
        nearest_among(seq![o], r, t_min, limit, log_u, hit_parameter(&o, r, t_min, limit, log_u)),
{
    let s = seq![o];
    assert(s[0] == o);
    assert forall|i: int| 0 <= i < s.len() implies s[i] == o by {}
}

/// Whether the box holds the object's box over the given times.
#[verifier::opaque]
pub open spec fn holds_box_of(outer: AABB, o: &Hittable, time0: Scalar, time1: Scalar) -> bool {
    o.bounding_box_spec(time0, time1) matches Some(b) && outer.contains(&b)
}

/// Whether the box holds the box of every one of the objects, over the given
/// times.
pub open spec fn holds_boxes_of(
    outer: AABB,
    objects: Seq<Rc<Hittable>>,
    time0: Scalar,
    time1: Scalar,
) -> bool {
    forall|i: int| 0 <= i < objects.len() ==> holds_box_of(outer, &#[trigger] objects[i], time0, time1)
}

/// The box of a node holds the boxes of its two children.
pub proof fn lemma_node_holds_children(node: BVHNode, n: nat, time0: Scalar, time1: Scalar)
    requires
        node.well_built(n, time0, time1),
    ensures
        n >= 1,
        n == 1 ==> node.left == node.right,
        holds_box_of(node.aabb, &node.left, time0, time1),
        holds_box_of(node.aabb, &node.right, time0, time1),
        n >= 3 ==> node.children_are_nodes() && node.left_node().well_built(n / 2, time0, time1)
            && node.right_node().well_built((n - n / 2) as nat, time0, time1)
            && node.aabb.contains(&node.left_node().aabb) && node.aabb.contains(
            &node.right_node().aabb,
        ),
{
    reveal(holds_box_of);
    reveal(BVHNode::well_built);
}

/// A box that holds a box holds the boxes that this one holds.
pub proof fn lemma_holding_passes_on(
    outer: AABB,
    inner: AABB,
    o: &Hittable,
    time0: Scalar,
    time1: Scalar,
)
    requires
        outer.contains(&inner),
        holds_box_of(inner, o, time0, time1),
    ensures
        holds_box_of(outer, o, time0, time1),
{
    reveal(holds_box_of);
    lemma_contains_transitive(outer, inner, o.bounding_box_spec(time0, time1).unwrap());
}

/// A box is hit where the box of an object that it holds is hit.
pub proof fn lemma_hit_spreads(
    outer: AABB,
    o: &Hittable,
    r: &Ray,
    t_min: Scalar,
    limit: Scalar,
    time0: Scalar,
    time1: Scalar,
)
    requires
        holds_box_of(outer, o, time0, time1),
        box_is_hit(o, r, t_min, limit, time0, time1),
    ensures
        outer.hit(r, t_min, limit),
{
    reveal(holds_box_of);
    reveal(box_is_hit);
    lemma_hit_monotone(outer, o.bounding_box_spec(time0, time1).unwrap(), *r, t_min, limit);
}

/// In a hierarchy, the box of the top node holds the box of every object at
/// the bottom.
pub proof fn lemma_box_holds_leaves(node: BVHNode, n: nat, time0: Scalar, time1: Scalar)
    requires
        node.well_built(n, time0, time1),
    ensures
        holds_boxes_of(node.aabb, node.leaves(n), time0, time1),
        node.leaves(n).len() == n,
        n >= 2 ==> node.leaves(n) == node.left_leaves(n) + node.right_leaves(n),
        n == 1 ==> node.leaves(n) == node.left_leaves(n),
    decreases n,
{
    let leaves = node.leaves(n);
    lemma_node_holds_children(node, n, time0, time1);
    if n >= 3 {
        let l = node.left_node();
        let rn = node.right_node();
        lemma_box_holds_leaves(l, n / 2, time0, time1);
        lemma_box_holds_leaves(rn, (n - n / 2) as nat, time0, time1);
        let ll = l.leaves(n / 2);
        let rl = rn.leaves((n - n / 2) as nat);
        assert(leaves == ll + rl);
        assert forall|i: int| 0 <= i < leaves.len() implies holds_box_of(
            node.aabb,
            &#[trigger] leaves[i],
            time0,
            time1,
        ) by {
            if i < ll.len() {
                assert(leaves[i] == ll[i]);
                lemma_holding_passes_on(node.aabb, l.aabb, &ll[i], time0, time1);
            } else {
                assert(leaves[i] == rl[i - ll.len()]);
                lemma_holding_passes_on(node.aabb, rn.aabb, &rl[i - ll.len()], time0, time1);
            }
        }
    } else if n == 2 {
        assert(leaves == seq![node.left, node.right]);
        assert(leaves[0] == node.left);
        assert(leaves[1] == node.right);
        assert(leaves == seq![node.left] + seq![node.right]);
    } else {
        assert(leaves == seq![node.left]);
        assert(leaves[0] == node.left);
    }
}

/// A ray that misses a box hits none of the steady objects whose boxes the
/// box holds.
pub proof fn lemma_miss_rules_out(
    outer: AABB,
    objects: Seq<Rc<Hittable>>,
    r: &Ray,
    t_min: Scalar,
    t_max: Scalar,
    limit: Scalar,
    log_u: Scalar,
    time0: Scalar,
    time1: Scalar,
)
    requires
        holds_boxes_of(outer, objects, time0, time1),
        all_steady(objects, r, t_min, t_max, log_u, time0, time1),
        limit.raw <= t_max.raw,
        !outer.hit(r, t_min, limit),
    ensures
        nearest_among(objects, r, t_min, limit, log_u, None),
{
    assert forall|i: int| 0 <= i < objects.len() implies #[trigger] hit_parameter(
        &objects[i],
        r,
        t_min,
        limit,
        log_u,
    ) is None by {
        let o = objects[i];
        assert(steady(&o, r, t_min, t_max, log_u, time0, time1));
        if hit_parameter(&o, r, t_min, limit, log_u) is Some {
            assert(box_is_hit(&o, r, t_min, limit, time0, time1));
            lemma_hit_spreads(outer, &o, r, t_min, limit, time0, time1);
        }
    }
}

/// The nearest hit among two groups of steady objects, from the nearest hit
/// of the left group and the nearest hit of the right group up to that.
pub proof fn lemma_nearest_of_both(
    left: Seq<Rc<Hittable>>,
    right: Seq<Rc<Hittable>>,
    r: &Ray,
    t_min: Scalar,
    t_max: Scalar,
    limit: Scalar,
    log_u: Scalar,
    time0: Scalar,
    time1: Scalar,
    best_left: Option<Scalar>,
    best_right: Option<Scalar>,
)
    requires
        limit.raw <= t_max.raw,
        all_steady(left, r, t_min, t_max, log_u, time0, time1),
        all_steady(right, r, t_min, t_max, log_u, time0, time1),
        nearest_among(left, r, t_min, limit, log_u, best_left),
        nearest_among(right, r, t_min, right_limit(best_left, limit), log_u, best_right),
    ensures
        nearest_among(left + right, r, t_min, limit, log_u, joined(best_left, best_right)),
{
    let both = left + right;
    let inner = right_limit(best_left, limit);
    assert forall|i: int| 0 <= i < left.len() implies both[i] == left[i] by {}
    assert forall|i: int| 0 <= i < right.len() implies both[left.len() + i] == right[i] by {}
    if let Some(hl) = best_left {
        let w = choose|w: int|
            0 <= w < left.len() && #[trigger] hit_parameter(&left[w], r, t_min, limit, log_u)
                == Some(hl);
        assert(steady(&left[w], r, t_min, t_max, log_u, time0, time1));
        lemma_steady_hit_within(&left[w], r, t_min, t_max, limit, log_u, time0, time1);
        assert(hl.raw <= limit.raw);
        assert(hit_parameter(&both[w], r, t_min, limit, log_u) == Some(hl));
    }
    assert(inner.raw <= limit.raw);
    assert forall|j: int| 0 <= j < right.len() implies hit_parameter(
        &right[j],
        r,
        t_min,
        inner,
        log_u,
    ) == capped(#[trigger] hit_parameter(&right[j], r, t_min, limit, log_u), inner) by {
        assert(steady(&right[j], r, t_min, t_max, log_u, time0, time1));
        lemma_steady_hit_within(&right[j], r, t_min, t_max, limit, log_u, time0, time1);
        lemma_steady_hit_within(&right[j], r, t_min, t_max, inner, log_u, time0, time1);
    }
    let best = joined(best_left, best_right);
    if let Some(hr) = best_right {
        let w = choose|w: int|
            0 <= w < right.len() && #[trigger] hit_parameter(&right[w], r, t_min, inner, log_u)
                == Some(hr);
        let at_limit = hit_parameter(&right[w], r, t_min, limit, log_u);
        assert(capped(at_limit, inner) == Some(hr));
        assert(hit_parameter(&both[left.len() + w], r, t_min, limit, log_u) == Some(hr));
    }
    match best {
        None => {
            assert forall|i: int| 0 <= i < both.len() implies #[trigger] hit_parameter(
                &both[i],
                r,
                t_min,
                limit,
                log_u,
            ) is None by {
                if i < left.len() {
                    assert(hit_parameter(&left[i], r, t_min, limit, log_u) is None);
                } else {
                    let j = i - left.len();
                    assert(both[i] == right[j]);
                    assert(hit_parameter(&right[j], r, t_min, inner, log_u) is None);
                    let at_limit = hit_parameter(&right[j], r, t_min, limit, log_u);
                    assert(capped(at_limit, inner) is None);
                }
            }
        },
        Some(m) => {
            assert forall|i: int| 0 <= i < both.len() implies (#[trigger] hit_parameter(
                &both[i],
                r,
                t_min,
                limit,
                log_u,
            ) matches Some(t) ==> m.raw <= t.raw) by {
                if i < left.len() {
                    let at_limit = hit_parameter(&left[i], r, t_min, limit, log_u);
                    assert(at_limit == hit_parameter(&both[i], r, t_min, limit, log_u));
                } else {
                    let j = i - left.len();
                    assert(both[i] == right[j]);
                    let at_limit = hit_parameter(&right[j], r, t_min, limit, log_u);
                    let at_inner = hit_parameter(&right[j], r, t_min, inner, log_u);
                    assert(at_inner == capped(at_limit, inner));
                }
            }
        },
    }
}

/// The nearest hit among a group is the nearest hit among the group taken
/// twice.
pub proof fn lemma_nearest_of_twice(
    objects: Seq<Rc<Hittable>>,
    r: &Ray,
    t_min: Scalar,
    limit: Scalar,
    log_u: Scalar,
    best: Option<Scalar>,
)
    requires
        nearest_among(objects + objects, r, t_min, limit, log_u, best),
    ensures
        nearest_among(objects, r, t_min, limit, log_u, best),
{
    let twice = objects + objects;
    assert forall|i: int| 0 <= i < objects.len() implies twice[i] == objects[i] && twice[objects.len()
        + i] == objects[i] by {}
    match best {
        None => {
            assert forall|i: int| 0 <= i < objects.len() implies #[trigger] hit_parameter(
                &objects[i],
                r,
                t_min,
                limit,
                log_u,
            ) is None by {
                assert(hit_parameter(&twice[i], r, t_min, limit, log_u) is None);
            }
        },
        Some(m) => {
            let w = choose|w: int|
                0 <= w < twice.len() && #[trigger] hit_parameter(&twice[w], r, t_min, limit, log_u)
                    == Some(m);
            let k = if w < objects.len() {
                w
            } else {
                w - objects.len()
            };
            assert(twice[w] == objects[k]);
            assert(hit_parameter(&objects[k], r, t_min, limit, log_u) == Some(m));
            assert forall|i: int| 0 <= i < objects.len() implies (#[trigger] hit_parameter(
                &objects[i],
                r,
                t_min,
                limit,
                log_u,
            ) matches Some(t) ==> m.raw <= t.raw) by {
                let hp = hit_parameter(&twice[i], r, t_min, limit, log_u);
                assert(hp == hit_parameter(&objects[i], r, t_min, limit, log_u));
            }
        },
    }
}

/// What a node answers, from what its children answer: nothing where the ray
/// misses its box, and else the right child's hit up to the left child's, or
/// the left child's.
pub proof fn lemma_node_answer(node: BVHNode, r: &Ray, t_min: Scalar, limit: Scalar, log_u: Scalar)
    ensures
        parameter_of(node.hit_spec(r, t_min, limit, log_u)) == (if !node.aabb.hit(r, t_min, limit) {
            None
        } else {
            joined(
                hit_parameter(&node.left, r, t_min, limit, log_u),
                hit_parameter(
                    &node.right,
                    r,
                    t_min,
                    right_limit(hit_parameter(&node.left, r, t_min, limit, log_u), limit),
                    log_u,
                ),
            )
        }),
{
    reveal(hit_parameter);
}

/// A child that is a node answers as that node does.
pub proof fn lemma_child_node_answer(
    child: &Hittable,
    r: &Ray,
    t_min: Scalar,
    limit: Scalar,
    log_u: Scalar,
)
    requires
        child is BVHNode,
    ensures
        hit_parameter(child, r, t_min, limit, log_u) == parameter_of(
            child->BVHNode_0.hit_spec(r, t_min, limit, log_u),
        ),
{
    reveal(hit_parameter);
}

/// A hierarchy over steady objects answers with the smallest parameter at
/// which any of them is hit.
pub proof fn lemma_hierarchy_finds_nearest(
    node: BVHNode,
    n: nat,
    r: &Ray,
    t_min: Scalar,
    t_max: Scalar,
    limit: Scalar,
    log_u: Scalar,
    time0: Scalar,
    time1: Scalar,
)
    requires
        node.well_built(n, time0, time1),
        limit.raw <= t_max.raw,
        all_steady(node.leaves(n), r, t_min, t_max, log_u, time0, time1),
    ensures
        nearest_among(
            node.leaves(n),
            r,
            t_min,
            limit,
            log_u,
            parameter_of(node.hit_spec(r, t_min, limit, log_u)),
        ),
    decreases n, 1nat,
{
    let leaves = node.leaves(n);
    let ll = node.left_leaves(n);
    let rl = node.right_leaves(n);
    lemma_box_holds_leaves(node, n, time0, time1);
    lemma_node_holds_children(node, n, time0, time1);
    lemma_halves_are_steady(node, n, r, t_min, t_max, log_u, time0, time1);
    if !node.aabb.hit(r, t_min, limit) {
        lemma_node_answer(node, r, t_min, limit, log_u);
        lemma_miss_rules_out(node.aabb, leaves, r, t_min, t_max, limit, log_u, time0, time1);
    } else {
        let best_left = hit_parameter(&node.left, r, t_min, limit, log_u);
        lemma_child_finds_nearest(node, n, true, r, t_min, t_max, limit, log_u, time0, time1);
        if let Some(hl) = best_left {
            let w = choose|w: int|
                0 <= w < ll.len() && #[trigger] hit_parameter(&ll[w], r, t_min, limit, log_u)
                    == Some(hl);
            assert(steady(&ll[w], r, t_min, t_max, log_u, time0, time1));
            lemma_steady_hit_within(&ll[w], r, t_min, t_max, limit, log_u, time0, time1);
        }
        let inner = right_limit(best_left, limit);
        let best_right = hit_parameter(&node.right, r, t_min, inner, log_u);
        lemma_child_finds_nearest(node, n, false, r, t_min, t_max, inner, log_u, time0, time1);
        lemma_nearest_of_both(
            ll,
            rl,
            r,
            t_min,
            t_max,
            limit,
            log_u,
            time0,
            time1,
            best_left,
            best_right,
        );
        lemma_node_answer(node, r, t_min, limit, log_u);
        if n == 1 {
            assert(ll == rl);
            lemma_nearest_of_twice(ll, r, t_min, limit, log_u, joined(best_left, best_right));
        }
    }
}

/// The objects below either child of a hierarchy over steady objects are
/// steady.
pub proof fn lemma_halves_are_steady(
    node: BVHNode,
    n: nat,
    r: &Ray,
    t_min: Scalar,
    t_max: Scalar,
    log_u: Scalar,
    time0: Scalar,
    time1: Scalar,
)
    requires
        node.well_built(n, time0, time1),
        all_steady(node.leaves(n), r, t_min, t_max, log_u, time0, time1),
    ensures
        all_steady(node.left_leaves(n), r, t_min, t_max, log_u, time0, time1),
        all_steady(node.right_leaves(n), r, t_min, t_max, log_u, time0, time1),
{
    let leaves = node.leaves(n);
    let ll = node.left_leaves(n);
    let rl = node.right_leaves(n);
    lemma_box_holds_leaves(node, n, time0, time1);
    lemma_node_holds_children(node, n, time0, time1);
    if n == 1 {
        assert(ll == rl);
    } else {
        assert forall|i: int| 0 <= i < ll.len() implies steady(
            &#[trigger] ll[i],
            r,
            t_min,
            t_max,
            log_u,
            time0,
            time1,
        ) by {
            assert(leaves[i] == ll[i]);
        }
        assert forall|i: int| 0 <= i < rl.len() implies steady(
            &#[trigger] rl[i],
            r,
            t_min,
            t_max,
            log_u,
            time0,
            time1,
        ) by {
            assert(leaves[ll.len() + i] == rl[i]);
        }
    }
}

/// Either child of a hierarchy over steady objects answers with the smallest
/// parameter at which any object below it is hit.
pub proof fn lemma_child_finds_nearest(
    node: BVHNode,
    n: nat,
    left: bool,
    r: &Ray,
    t_min: Scalar,
    t_max: Scalar,
    limit: Scalar,
    log_u: Scalar,
    time0: Scalar,
    time1: Scalar,
)
    requires
        node.well_built(n, time0, time1),
        limit.raw <= t_max.raw,
        all_steady(node.left_leaves(n), r, t_min, t_max, log_u, time0, time1),
        all_steady(node.right_leaves(n), r, t_min, t_max, log_u, time0, time1),
    ensures
        left ==> nearest_among(
            node.left_leaves(n),
            r,
            t_min,
            limit,
            log_u,
            hit_parameter(&node.left, r, t_min, limit, log_u),
        ),
        !left ==> nearest_among(
            node.right_leaves(n),
            r,
            t_min,
            limit,
            log_u,
            hit_parameter(&node.right, r, t_min, limit, log_u),
        ),
    decreases n, 0nat,
{
    lemma_node_holds_children(node, n, time0, time1);
    if n <= 2 {
        if left {
            lemma_nearest_of_one(node.left, r, t_min, limit, log_u);
        } else {
            lemma_nearest_of_one(node.right, r, t_min, limit, log_u);
        }
    } else {
        if node.children_are_nodes() {
            {
                let l = node.left_node();
                let rn = node.right_node();
                if left {
                    lemma_hierarchy_finds_nearest(
                        l,
                        n / 2,
                        r,
                        t_min,
                        t_max,
                        limit,
                        log_u,
                        time0,
                        time1,
                    );
                    lemma_child_node_answer(&node.left, r, t_min, limit, log_u);
                } else {
                    lemma_hierarchy_finds_nearest(
                        rn,
                        (n - n / 2) as nat,
                        r,
                        t_min,
                        t_max,
                        limit,
                        log_u,
                        time0,
                        time1,
                    );
                    lemma_child_node_answer(&node.right, r, t_min, limit, log_u);
                }
            }
        }
    }
}

/// The hierarchy and the scan agree: for a hierarchy built over objects that
/// answer the ray steadily, the nearest hit that the hierarchy reports lies
/// at the parameter of the nearest hit that a scan of the objects reports, and
/// one reports a hit exactly where the other does.
pub proof fn lemma_hierarchy_agrees_with_scan(
    node: BVHNode,
    objects: Seq<Rc<Hittable>>,
    r: Ray,
    t_min: Scalar,
    t_max: Scalar,
    log_u: Scalar,
    time0: Scalar,
    time1: Scalar,
)
    requires
        node.well_built(objects.len(), time0, time1),
        node.leaves(objects.len()).to_multiset() == objects.to_multiset(),
        all_steady(objects, &r, t_min, t_max, log_u, time0, time1),
    ensures
        parameter_of(node.hit_spec(&r, t_min, t_max, log_u)) == parameter_of(
            scan_spec(objects, objects.len(), &r, t_min, t_max, log_u),
        ),
{
    broadcast use vstd::seq_lib::group_to_multiset_ensures;

    let n = objects.len();
    let leaves = node.leaves(n);
    assert forall|i: int| 0 <= i < leaves.len() implies steady(
        &#[trigger] leaves[i],
        &r,
        t_min,
        t_max,
        log_u,
        time0,
        time1,
    ) by {
        assert(leaves.contains(leaves[i]));
        assert(objects.to_multiset().count(leaves[i]) > 0);
        assert(objects.contains(leaves[i]));
        let k = choose|k: int| 0 <= k < objects.len() && objects[k] == leaves[i];
        assert(steady(&objects[k], &r, t_min, t_max, log_u, time0, time1));
    }
    lemma_hierarchy_finds_nearest(node, n, &r, t_min, t_max, t_max, log_u, time0, time1);
    lemma_scan_finds_nearest(objects, n, &r, t_min, t_max, log_u, time0, time1);
    assert(objects.take(n as int) == objects);
    lemma_nearest_is_unique(
        leaves,
        objects,
        &r,
        t_min,
        t_max,
        log_u,
        parameter_of(node.hit_spec(&r, t_min, t_max, log_u)),
        parameter_of(scan_spec(objects, n, &r, t_min, t_max, log_u)),
    );
}

/// Whether, in a hierarchy over `n` objects, the box of every node holds the
/// boxes of both its children.
pub open spec fn boxes_hold_children(node: BVHNode, n: nat, time0: Scalar, time1: Scalar) -> bool
    decreases n,
{
    &&& node.left.bounding_box_spec(time0, time1) matches Some(lb) && node.aabb.contains(&lb)
    &&& node.right.bounding_box_spec(time0, time1) matches Some(rb) && node.aabb.contains(&rb)
    &&& n >= 3 ==> (*node.left matches Hittable::BVHNode(l) && boxes_hold_children(
        l,
        n / 2,
        time0,
        time1,
    ))
    &&& n >= 3 ==> (*node.right matches Hittable::BVHNode(rn) && boxes_hold_children(
        rn,
        (n - n / 2) as nat,
        time0,
        time1,
    ))
}

/// In every hierarchy that has been built, whichever way the objects were
/// split, the box of every node holds the boxes of both its children.
pub proof fn lemma_boxes_hold_children(node: BVHNode, n: nat, time0: Scalar, time1: Scalar)
    requires
        node.well_built(n, time0, time1),
    ensures
        boxes_hold_children(node, n, time0, time1),
    decreases n,
{
    reveal(BVHNode::well_built);
    if n >= 3 {
        if node.children_are_nodes() {
            lemma_boxes_hold_children(node.left_node(), n / 2, time0, time1);
            lemma_boxes_hold_children(node.right_node(), (n - n / 2) as nat, time0, time1);
        }
    }
}

/// Whether the object is a sphere, at rest or moving, or a rectangle.
pub open spec fn is_plain_solid(o: &Hittable) -> bool {
    o is Sphere || o is MovingSphere || o is XYRect || o is XZRect || o is YZRect
}

/// Of the two roots of a sphere, a lower limit keeps the hit or loses it: the
/// first root in the shorter interval is the first root in the whole interval,
/// if that is not above the limit.
pub proof fn lemma_roots_under_limit(
    center: Point3,
    radius: Scalar,
    r: &Ray,
    t_min: Scalar,
    t_max: Scalar,
    limit: Scalar,
)
    requires
        limit.raw <= t_max.raw,
    ensures
        first_root_in_range(sphere_roots(center, radius, r), t_min, limit) == capped(
            first_root_in_range(sphere_roots(center, radius, r), t_min, t_max),
            limit,
        ),
{
    lemma_roots_in_order(center, radius, *r);
}

/// Spheres and rectangles keep their hit under a lower limit, or lose it: on
/// an interval that ends earlier they are hit where they are hit on the whole
/// interval, if that is not above the limit. For them, to answer steadily is
/// not to be grazed.
pub proof fn lemma_plain_solids_keep_their_hit(
    o: &Hittable,
    r: &Ray,
    t_min: Scalar,
    t_max: Scalar,
    limit: Scalar,
    log_u: Scalar,
)
    requires
        is_plain_solid(o),
        limit.raw <= t_max.raw,
    ensures
        hit_parameter(o, r, t_min, limit, log_u) == capped(
            hit_parameter(o, r, t_min, t_max, log_u),
            limit,
        ),
{
    reveal(hit_parameter);
    match o {
        Hittable::Sphere(s) => {
            lemma_roots_under_limit(s.center, s.radius, r, t_min, t_max, limit);
        },
        Hittable::MovingSphere(s) => {
            lemma_roots_under_limit(s.center(r.tm), s.radius, r, t_min, t_max, limit);
        },
        Hittable::XYRect(q) => {
            assert(q.hit(r, t_min, limit) == rect_hit_spec(
                0,
                1,
                2,
                q.extent(),
                q.k,
                q.mp,
                r,
                t_min,
                limit,
            ));
        },
        Hittable::XZRect(q) => {
            assert(q.hit(r, t_min, limit) == rect_hit_spec(
                0,
                2,
                1,
                q.extent(),
                q.k,
                q.mp,
                r,
                t_min,
                limit,
            ));
        },
        Hittable::YZRect(q) => {
            assert(q.hit(r, t_min, limit) == rect_hit_spec(
                1,
                2,
                0,
                q.extent(),
                q.k,
                q.mp,
                r,
                t_min,
                limit,
            ));
        },
        _ => {},
    }
}

} // verus!
