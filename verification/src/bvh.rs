//! The bounding volume hierarchy: a binary tree of boxes over the objects.

use std::rc::Rc;
use vstd::prelude::*;

use crate::aabb::{surrounding_box, AABB};
use crate::hittable::{HitRecord, Hittable};
use crate::hittable_list::HittableList;
use crate::ray::Ray;
use crate::scalar::Scalar;
use crate::util::{random_i32_in_range, share};

verus! {

/// A node of the hierarchy: two children and the box round both.
pub struct BVHNode {
    pub left: Rc<Hittable>,
    pub right: Rc<Hittable>,
    pub aabb: AABB,
}

/// Whether the object has a box at time zero, by which it is ordered.
#[verifier::opaque]
pub open spec fn has_sort_box(o: &Hittable) -> bool {
    o.bounding_box_spec(Scalar::zero(), Scalar::zero()) is Some
}

/// Whether the object has a box over the given times.
#[verifier::opaque]
pub open spec fn has_box_over(o: &Hittable, time0: Scalar, time1: Scalar) -> bool {
    o.bounding_box_spec(time0, time1) is Some
}

/// Whether the object has the boxes that building a hierarchy over several
/// objects asks of it: one over the given times, and one at time zero.
#[verifier::opaque]
pub open spec fn has_boxes(o: &Hittable, time0: Scalar, time1: Scalar) -> bool {
    has_box_over(o, time0, time1) && has_sort_box(o)
}

/// The number by which an object is ordered along an axis: the smallest
/// coordinate of its box at time zero.
#[verifier::opaque]
pub open spec fn sort_key(o: &Hittable, axis: usize) -> Scalar {
    match o.bounding_box_spec(Scalar::zero(), Scalar::zero()) {
        Some(b) => b.minimum.index(axis),
        None => Scalar::zero(),
    }
}

/// Whether `a` comes strictly before `b` along the axis.
pub open spec fn box_compare_spec(a: &Hittable, b: &Hittable, axis: usize) -> bool {
    sort_key(a, axis).lt(sort_key(b, axis))
}

/// Whether the objects stand in the order of their keys along the axis.
pub open spec fn ordered_along(objects: Seq<Rc<Hittable>>, axis: usize) -> bool {
    forall|i: int, j: int|
        0 <= i < j < objects.len() ==> (#[trigger] sort_key(&objects[i], axis)).raw <= (
        #[trigger] sort_key(&objects[j], axis)).raw
}

/// Whether no object of `left` comes after one of `right` along the axis.
pub open spec fn separated_along(
    left: Seq<Rc<Hittable>>,
    right: Seq<Rc<Hittable>>,
    axis: usize,
) -> bool {
    forall|i: int, j: int|
        0 <= i < left.len() && 0 <= j < right.len() ==> (#[trigger] sort_key(&left[i], axis)).raw
            <= (#[trigger] sort_key(&right[j], axis)).raw
}

/// Exchanging two entries of a sequence leaves the same entries, each as
/// often as before.
pub proof fn lemma_exchange_keeps_entries<A>(s: Seq<A>, i: int, j: int)
    requires
        0 <= i < s.len(),
        0 <= j < s.len(),
    ensures
        s.update(i, s[j]).update(j, s[i]).to_multiset() == s.to_multiset(),
{
    broadcast use vstd::seq_lib::group_to_multiset_ensures;
    broadcast use vstd::multiset::group_multiset_axioms;

    let mid = s.update(i, s[j]);
    assert(mid.to_multiset() == s.to_multiset().insert(s[j]).remove(s[i]));
    assert(mid.update(j, s[i]).to_multiset() == mid.to_multiset().insert(s[i]).remove(mid[j]));
    assert(mid[j] == s[j]);
    assert(s.to_multiset().count(s[i]) > 0);
    assert(s.to_multiset().count(s[j]) > 0);
    assert(mid.update(j, s[i]).to_multiset() =~= s.to_multiset());
}

/// Objects that are the entries of a sequence of objects with boxes have boxes
/// themselves.
pub proof fn lemma_same_entries_have_boxes(
    a: Seq<Rc<Hittable>>,
    b: Seq<Rc<Hittable>>,
    time0: Scalar,
    time1: Scalar,
)
    requires
        a.to_multiset() == b.to_multiset(),
        forall|i: int| 0 <= i < b.len() ==> has_boxes(&#[trigger] b[i], time0, time1),
    ensures
        a.len() == b.len(),
        forall|i: int| 0 <= i < a.len() ==> has_boxes(&#[trigger] a[i], time0, time1),
        forall|i: int| 0 <= i < a.len() ==> has_sort_box(&#[trigger] a[i]),
{
    broadcast use vstd::seq_lib::group_to_multiset_ensures;

    assert(a.to_multiset().len() == a.len());
    assert(b.to_multiset().len() == b.len());
    assert forall|i: int| 0 <= i < a.len() implies has_boxes(&#[trigger] a[i], time0, time1) by {
        assert(a.contains(a[i]));
        assert(b.to_multiset().count(a[i]) > 0);
        assert(b.contains(a[i]));
        let k = choose|k: int| 0 <= k < b.len() && b[k] == a[i];
        assert(has_boxes(&b[k], time0, time1));
    }
    assert forall|i: int| 0 <= i < a.len() implies has_sort_box(&#[trigger] a[i]) by {
        lemma_boxes_at_hand(&a[i], time0, time1);
    }
}

/// Where objects stand in order along an axis, and `left` holds the entries
/// before `mid` and `right` the entries from `mid` on, no entry of `left`
/// comes after one of `right`, and the two together hold all the objects.
pub proof fn lemma_sorted_halves(
    objects: Seq<Rc<Hittable>>,
    mid: int,
    left: Seq<Rc<Hittable>>,
    right: Seq<Rc<Hittable>>,
    axis: usize,
)
    requires
        0 <= mid <= objects.len(),
        ordered_along(objects, axis),
        left.to_multiset() == objects.subrange(0, mid).to_multiset(),
        right.to_multiset() == objects.subrange(mid, objects.len() as int).to_multiset(),
    ensures
        separated_along(left, right, axis),
        (left + right).to_multiset() == objects.to_multiset(),
{
    broadcast use vstd::seq_lib::group_to_multiset_ensures;

    let lower = objects.subrange(0, mid);
    let upper = objects.subrange(mid, objects.len() as int);
    assert(lower + upper == objects);
    vstd::seq_lib::lemma_multiset_commutative(lower, upper);
    vstd::seq_lib::lemma_multiset_commutative(left, right);
    assert forall|a: int, b: int| 0 <= a < left.len() && 0 <= b < right.len() implies (
    #[trigger] sort_key(&left[a], axis)).raw <= (#[trigger] sort_key(&right[b], axis)).raw by {
        assert(left.contains(left[a]));
        assert(lower.to_multiset().count(left[a]) > 0);
        assert(lower.contains(left[a]));
        let ia = choose|ia: int| 0 <= ia < lower.len() && lower[ia] == left[a];
        assert(right.contains(right[b]));
        assert(upper.to_multiset().count(right[b]) > 0);
        assert(upper.contains(right[b]));
        let ib = choose|ib: int| 0 <= ib < upper.len() && upper[ib] == right[b];
        assert(lower[ia] == objects[ia]);
        assert(upper[ib] == objects[mid + ib]);
    }
}

/// An object with the boxes that building asks of it has each of them.
pub proof fn lemma_boxes_at_hand(o: &Hittable, time0: Scalar, time1: Scalar)
    requires
        has_boxes(o, time0, time1),
    ensures
        o.bounding_box_spec(time0, time1) is Some,
        has_box_over(o, time0, time1),
        has_sort_box(o),
{
    reveal(has_boxes);
    reveal(has_box_over);
}

/// Two objects in the order of their keys are separated.
pub proof fn lemma_pair_separated(left: Rc<Hittable>, right: Rc<Hittable>, axis: usize)
    requires
        sort_key(&left, axis).raw <= sort_key(&right, axis).raw,
    ensures
        separated_along(seq![left], seq![right], axis),
{
    assert forall|i: int, j: int|
        0 <= i < seq![left].len() && 0 <= j < seq![right].len() implies (#[trigger] sort_key(
        &seq![left][i],
        axis,
    )).raw <= (#[trigger] sort_key(&seq![right][j], axis)).raw by {
        assert(seq![left][i] == left);
        assert(seq![right][j] == right);
    }
}

/// Two objects are the same pair in either order.
pub proof fn lemma_pair_entries(a: Rc<Hittable>, b: Rc<Hittable>)
    ensures
        seq![a, b].to_multiset() == seq![b, a].to_multiset(),
{
    let s = seq![a, b];
    lemma_exchange_keeps_entries(s, 0, 1);
    assert(s.update(0, s[1]).update(1, s[0]) == seq![b, a]);
}

/// A copy of the objects from `start` up to `end`.
fn copy_span(src_objects: &Vec<Rc<Hittable>>, start: usize, end: usize) -> (objects: Vec<
    Rc<Hittable>,
>)
    requires
        start <= end <= src_objects@.len(),
    ensures
        objects@ == src_objects@.subrange(start as int, end as int),
{
    let mut objects: Vec<Rc<Hittable>> = Vec::new();
    let mut i: usize = start;
    while i < end
        invariant
            start <= i <= end <= src_objects@.len(),
            objects@ == src_objects@.subrange(start as int, i as int),
        decreases end - i,
    {
        objects.push(share(&src_objects[i]));
        proof {
            assert(src_objects@.subrange(start as int, i as int).push(src_objects@[i as int])
                == src_objects@.subrange(start as int, i + 1));
        }
        i += 1;
    }
    objects
}

#[verifier::when_used_as_spec(box_compare_spec)]
pub fn box_compare(a: &Hittable, b: &Hittable, axis: usize) -> (less: bool)
    requires
        has_sort_box(a),
        has_sort_box(b),
    ensures
        less == box_compare_spec(a, b, axis),
{
    reveal(has_sort_box);
    reveal(sort_key);
    let box_a = a.bounding_box(Scalar::zero(), Scalar::zero()).unwrap();
    let box_b = b.bounding_box(Scalar::zero(), Scalar::zero()).unwrap();
    box_a.min().index(axis).lt(box_b.min().index(axis))
}

/// Whether `a` comes strictly before `b` along x.
pub fn box_x_compare(a: &Hittable, b: &Hittable) -> (less: bool)
    requires
        has_sort_box(a),
        has_sort_box(b),
    ensures
        less == box_compare(a, b, 0),
{
    box_compare(a, b, 0)
}

/// Whether `a` comes strictly before `b` along y.
pub fn box_y_compare(a: &Hittable, b: &Hittable) -> (less: bool)
    requires
        has_sort_box(a),
        has_sort_box(b),
    ensures
        less == box_compare(a, b, 1),
{
    box_compare(a, b, 1)
}

/// Whether `a` comes strictly before `b` along z.
pub fn box_z_compare(a: &Hittable, b: &Hittable) -> (less: bool)
    requires
        has_sort_box(a),
        has_sort_box(b),
    ensures
        less == box_compare(a, b, 2),
{
    box_compare(a, b, 2)
}

/// Orders the objects by their keys along the axis.
pub fn sort_along(objects: &mut Vec<Rc<Hittable>>, axis: usize)
    requires
        forall|i: int| 0 <= i < old(objects)@.len() ==> has_sort_box(&#[trigger] old(objects)@[i]),
    ensures
        final(objects)@.to_multiset() == old(objects)@.to_multiset(),
        final(objects)@.len() == old(objects)@.len(),
        ordered_along(final(objects)@, axis),
{
    let n = objects.len();
    let ghost start = objects@;
    let mut i: usize = 1;
    while i < n
        invariant
            n == objects@.len(),
            n == start.len(),
            1 <= i,
            objects@.to_multiset() == start.to_multiset(),
            forall|a: int| 0 <= a < objects@.len() ==> has_sort_box(&#[trigger] objects@[a]),
            forall|a: int, b: int|
                0 <= a < b < i && b < n ==> (#[trigger] sort_key(&objects@[a], axis)).raw <= (
                #[trigger] sort_key(&objects@[b], axis)).raw,
        decreases n - i,
    {
        let mut j: usize = i;
        let mut moving = true;
        while j > 0 && moving
            invariant
                n == objects@.len(),
                j <= i < n,
                objects@.to_multiset() == start.to_multiset(),
                forall|a: int| 0 <= a < objects@.len() ==> has_sort_box(&#[trigger] objects@[a]),
                forall|a: int, b: int|
                    0 <= a < b <= i && a != j && b != j ==> (#[trigger] sort_key(
                        &objects@[a],
                        axis,
                    )).raw <= (#[trigger] sort_key(&objects@[b], axis)).raw,
                forall|b: int|
                    j < b <= i ==> sort_key(&objects@[j as int], axis).raw <= (#[trigger] sort_key(
                        &objects@[b],
                        axis,
                    )).raw,
                !moving ==> forall|a: int|
                    0 <= a < j ==> (#[trigger] sort_key(&objects@[a], axis)).raw <= sort_key(
                        &objects@[j as int],
                        axis,
                    ).raw,
            decreases j + (if moving { 1int } else { 0int }),
        {
            if box_compare(&objects[j], &objects[j - 1], axis) {
                let ghost before = objects@;
                let lower = share(&objects[j - 1]);
                let upper = share(&objects[j]);
                objects[j - 1] = upper;
                objects[j] = lower;
                proof {
                    lemma_exchange_keeps_entries(before, j - 1, j as int);
                    assert(objects@ == before.update(j - 1, before[j as int]).update(
                        j as int,
                        before[j - 1],
                    ));
                }
                j -= 1;
            } else {
                moving = false;
            }
        }
        i += 1;
    }
}

impl BVHNode {
    /// The objects at the bottom of a hierarchy over `n` objects, from left
    /// to right. A hierarchy over one object holds it twice, over two it
    /// holds them side by side, and over more it holds two hierarchies: one
    /// over the first half, rounded down, and one over the rest.
    pub open spec fn leaves(&self, n: nat) -> Seq<Rc<Hittable>>
        decreases n,
    {
        if n <= 1 {
            seq![self.left]
        } else if n == 2 {
            seq![self.left, self.right]
        } else {
            match (*self.left, *self.right) {
                (Hittable::BVHNode(l), Hittable::BVHNode(r)) => l.leaves(n / 2) + r.leaves(
                    (n - n / 2) as nat,
                ),
                _ => Seq::empty(),
            }
        }
    }

    /// Whether the node is the top of a hierarchy over `n` objects, for the
    /// times from `time0` to `time1`: its box is the box round the boxes of
    /// its two children; along some axis, no object on the left comes after
    /// one on the right; and its children are such hierarchies themselves, as
    /// `leaves` says.
    #[verifier::opaque]
    pub open spec fn well_built(&self, n: nat, time0: Scalar, time1: Scalar) -> bool
        decreases n,
    {
        &&& n >= 1
        &&& self.left.bounding_box_spec(time0, time1) matches Some(lb)
            && self.right.bounding_box_spec(time0, time1) matches Some(rb) && self.aabb
            == surrounding_box(lb, rb)
        &&& n == 1 ==> self.left == self.right
        &&& n >= 2 ==> exists|axis: usize|
            axis < 3 && #[trigger] separated_along(
                self.left_leaves(n),
                self.right_leaves(n),
                axis,
            )
        &&& n >= 3 ==> (*self.left matches Hittable::BVHNode(l) && l.well_built(
            n / 2,
            time0,
            time1,
        ))
        &&& n >= 3 ==> (*self.right matches Hittable::BVHNode(r) && r.well_built(
            (n - n / 2) as nat,
            time0,
            time1,
        ))
    }

    /// Whether both children are nodes themselves.
    pub open spec fn children_are_nodes(&self) -> bool {
        *self.left is BVHNode && *self.right is BVHNode
    }

    /// The left child where it is a node, else the node itself.
    pub open spec fn left_node(&self) -> BVHNode {
        match *self.left {
            Hittable::BVHNode(l) => l,
            _ => *self,
        }
    }

    /// The right child where it is a node, else the node itself.
    pub open spec fn right_node(&self) -> BVHNode {
        match *self.right {
            Hittable::BVHNode(r) => r,
            _ => *self,
        }
    }

    /// The objects below the left child of a hierarchy over `n` objects.
    pub open spec fn left_leaves(&self, n: nat) -> Seq<Rc<Hittable>> {
        if n <= 2 {
            seq![self.left]
        } else {
            match *self.left {
                Hittable::BVHNode(l) => l.leaves(n / 2),
                _ => Seq::empty(),
            }
        }
    }

    /// The objects below the right child of a hierarchy over `n` objects.
    pub open spec fn right_leaves(&self, n: nat) -> Seq<Rc<Hittable>> {
        if n <= 2 {
            seq![self.right]
        } else {
            match *self.right {
                Hittable::BVHNode(r) => r.leaves((n - n / 2) as nat),
                _ => Seq::empty(),
            }
        }
    }

    /// The nearest hit below the node. A ray that misses the node's box hits
    /// nothing. Else the left child is tried; where it is hit, the right child
    /// is tried only up to that hit, and a hit there wins.
    pub open spec fn hit_spec(&self, r: &Ray, t_min: Scalar, t_max: Scalar, log_u: Scalar) -> Option<
        HitRecord,
    >
        decreases self,
    {
        if !self.aabb.hit(r, t_min, t_max) {
            None
        } else {
            match self.left.hit_with_spec(r, t_min, t_max, log_u) {
                Some(hit_left) => match self.right.hit_with_spec(r, t_min, hit_left.t, log_u) {
                    Some(hit_right) => Some(hit_right),
                    None => Some(hit_left),
                },
                None => self.right.hit_with_spec(r, t_min, t_max, log_u),
            }
        }
    }

    /// The node's own box.
    pub open spec fn bounding_box_spec(&self, time0: Scalar, time1: Scalar) -> Option<AABB> {
        Some(self.aabb)
    }

    /// Whether a hierarchy can be built over the objects from `start` up to
    /// `end`: there is at least one, and each has a box over the given times;
    /// where there are more than one, each also has a box at time zero, by
    /// which they are ordered.
    pub open spec fn can_build_spec(
        src_objects: &Vec<Rc<Hittable>>,
        start: usize,
        end: usize,
        time0: Scalar,
        time1: Scalar,
    ) -> bool {
        &&& start < end <= src_objects@.len()
        &&& if end - start == 1 {
            has_box_over(&src_objects@[start as int], time0, time1)
        } else {
            forall|i: int| start <= i < end ==> has_boxes(&#[trigger] src_objects@[i], time0, time1)
        }
    }

    #[verifier::when_used_as_spec(can_build_spec)]
    pub fn can_build(
        src_objects: &Vec<Rc<Hittable>>,
        start: usize,
        end: usize,
        time0: Scalar,
        time1: Scalar,
    ) -> (ok: bool)
        ensures
            ok == Self::can_build_spec(src_objects, start, end, time0, time1),
    {
        if start >= end || end > src_objects.len() {
            return false;
        }
        if end - start == 1 {
            proof {
                reveal(has_box_over);
            }
            return src_objects[start].bounding_box(time0, time1).is_some();
        }
        let mut i: usize = start;
        while i < end
            invariant
                start <= i <= end <= src_objects@.len(),
                end - start >= 2,
                forall|a: int| start <= a < i ==> has_boxes(&#[trigger] src_objects@[a], time0, time1),
            decreases end - i,
        {
            let o = &src_objects[i];
            proof {
                reveal(has_boxes);
                reveal(has_sort_box);
                reveal(has_box_over);
            }
            if o.bounding_box(time0, time1).is_none() || o.bounding_box(
                Scalar::zero(),
                Scalar::zero(),
            ).is_none() {
                return false;
            }
            i += 1;
        }
        true
    }

    /// The hierarchy over all the objects of a list.
    pub fn from_list(list: &HittableList, time0: Scalar, time1: Scalar) -> (node: BVHNode)
        requires
            Self::can_build(&list.objects, 0, list.objects@.len() as usize, time0, time1),
        ensures
            node.well_built(list.objects@.len(), time0, time1),
            node.leaves(list.objects@.len()).to_multiset() == list.objects@.to_multiset(),
    {
        let n = list.objects.len();
        proof {
            assert(list.objects@.subrange(0, n as int) == list.objects@);
        }
        BVHNode::new(&list.objects, 0, n, time0, time1)
    }

    /// The hierarchy over the objects from `start` up to `end`. The objects
    /// are split along an axis chosen at random: one object becomes both
    /// children, two become the children in their order along the axis, and
    /// more are put in that order and halved, each half under a hierarchy of
    /// its own.
    #[verifier::spinoff_prover]
    #[verifier::rlimit(60)]
    pub fn new(
        src_objects: &Vec<Rc<Hittable>>,
        start: usize,
        end: usize,
        time0: Scalar,
        time1: Scalar,
    ) -> (node: BVHNode)
        requires
            Self::can_build(src_objects, start, end, time0, time1),
        ensures
            node.well_built((end - start) as nat, time0, time1),
            node.leaves((end - start) as nat).to_multiset() == src_objects@.subrange(
                start as int,
                end as int,
            ).to_multiset(),
        decreases end - start,
    {
        let axis = random_i32_in_range(0, 2) as usize;
        let object_span = end - start;
        if object_span == 1 {
            Self::over_one(src_objects, start, axis, time0, time1)
        } else if object_span == 2 {
            Self::over_two(src_objects, start, axis, time0, time1)
        } else {
            let ghost span = src_objects@.subrange(start as int, end as int);
            let mut objects = copy_span(src_objects, start, end);
            proof {
                assert forall|i: int| 0 <= i < span.len() implies has_boxes(
                    &#[trigger] span[i],
                    time0,
                    time1,
                ) by {
                    assert(span[i] == src_objects@[start + i]);
                }
                lemma_same_entries_have_boxes(span, span, time0, time1);
            }
            sort_along(&mut objects, axis);
            let mid = object_span / 2;
            proof {
                lemma_same_entries_have_boxes(objects@, span, time0, time1);
                lemma_boxes_at_hand(&objects@[0], time0, time1);
                lemma_boxes_at_hand(&objects@[mid as int], time0, time1);
            }
            let left_node = BVHNode::new(&objects, 0, mid, time0, time1);
            let right_node = BVHNode::new(&objects, mid, object_span, time0, time1);
            proof {
                lemma_sorted_halves(
                    objects@,
                    mid as int,
                    left_node.leaves(mid as nat),
                    right_node.leaves((object_span - mid) as nat),
                    axis,
                );
            }
            let node = Self::join(
                Rc::new(Hittable::BVHNode(left_node)),
                Rc::new(Hittable::BVHNode(right_node)),
                object_span,
                axis,
                time0,
                time1,
            );
            proof {
                assert(node.leaves(object_span as nat) == left_node.leaves(mid as nat)
                    + right_node.leaves((object_span - mid) as nat));
            }
            node
        }
    }

    /// The hierarchy over the one object at `start`.
    fn over_one(
        src_objects: &Vec<Rc<Hittable>>,
        start: usize,
        axis: usize,
        time0: Scalar,
        time1: Scalar,
    ) -> (node: BVHNode)
        requires
            axis < 3,
            start < src_objects@.len(),
            has_box_over(&src_objects@[start as int], time0, time1),
        ensures
            node.well_built(1, time0, time1),
            node.leaves(1).to_multiset() == src_objects@.subrange(
                start as int,
                start + 1,
            ).to_multiset(),
    {
        let left = share(&src_objects[start]);
        let right = share(&left);
        proof {
            assert(left.bounding_box_spec(time0, time1) is Some) by {
                reveal(has_box_over);
            }
            assert(src_objects@.subrange(start as int, start + 1) == seq![left]);
        }
        Self::join(left, right, 1, axis, time0, time1)
    }

    /// The hierarchy over the two objects at `start` and after it.
    #[verifier::spinoff_prover]
    #[verifier::rlimit(60)]
    fn over_two(
        src_objects: &Vec<Rc<Hittable>>,
        start: usize,
        axis: usize,
        time0: Scalar,
        time1: Scalar,
    ) -> (node: BVHNode)
        requires
            axis < 3,
            start + 1 < src_objects@.len(),
            has_boxes(&src_objects@[start as int], time0, time1),
            has_boxes(&src_objects@[start + 1], time0, time1),
        ensures
            node.well_built(2, time0, time1),
            node.leaves(2).to_multiset() == src_objects@.subrange(
                start as int,
                start + 2,
            ).to_multiset(),
    {
        let ghost span = src_objects@.subrange(start as int, start + 2);
        let len = src_objects.len();
        let first = share(&src_objects[start]);
        let second = share(&src_objects[start + 1]);
        proof {
            lemma_boxes_at_hand(&first, time0, time1);
            lemma_boxes_at_hand(&second, time0, time1);
            assert(span == seq![first, second]);
        }
        if box_compare(&first, &second, axis) {
            proof {
                lemma_pair_separated(first, second, axis);
            }
            let node = Self::join(first, second, 2, axis, time0, time1);
            proof {
                assert(node.leaves(2) == seq![first, second]);
            }
            node
        } else {
            proof {
                lemma_pair_separated(second, first, axis);
                lemma_pair_entries(first, second);
            }
            let node = Self::join(second, first, 2, axis, time0, time1);
            proof {
                assert(node.leaves(2) == seq![second, first]);
            }
            node
        }
    }

    /// The node over two children that have been found for a hierarchy over
    /// `n` objects, split along `axis`.
    fn join(
        left: Rc<Hittable>,
        right: Rc<Hittable>,
        n: usize,
        axis: usize,
        time0: Scalar,
        time1: Scalar,
    ) -> (node: BVHNode)
        requires
            n >= 1,
            axis < 3,
            left.bounding_box_spec(time0, time1) is Some,
            right.bounding_box_spec(time0, time1) is Some,
            n == 1 ==> left == right,
            n == 2 ==> separated_along(seq![left], seq![right], axis),
            n >= 3 ==> (*left matches Hittable::BVHNode(l) && l.well_built((n / 2) as nat, time0, time1)),
            n >= 3 ==> (*right matches Hittable::BVHNode(r) && r.well_built(
                (n - n / 2) as nat,
                time0,
                time1,
            )),
            n >= 3 ==> (*left matches Hittable::BVHNode(l) && *right matches Hittable::BVHNode(r)
                && separated_along(l.leaves((n / 2) as nat), r.leaves((n - n / 2) as nat), axis)),
        ensures
            node.left == left,
            node.right == right,
            node.well_built(n as nat, time0, time1),
    {
        let aabb = surrounding_box(
            left.bounding_box(time0, time1).unwrap(),
            right.bounding_box(time0, time1).unwrap(),
        );
        let node = BVHNode { left, right, aabb };
        proof {
            reveal(BVHNode::well_built);
            if n >= 2 {
                assert(separated_along(node.left_leaves(n as nat), node.right_leaves(n as nat), axis));
            }
        }
        node
    }

    #[verifier::when_used_as_spec(hit_spec)]
    pub fn hit(&self, r: &Ray, t_min: Scalar, t_max: Scalar, log_u: Scalar) -> (hit: Option<
        HitRecord,
    >)
        ensures
            hit == self.hit_spec(r, t_min, t_max, log_u),
        decreases self,
    {
        if !self.aabb.hit(r, t_min, t_max) {
            return None;
        }
        match self.left.hit_with(r, t_min, t_max, log_u) {
            Some(hit_left) => match self.right.hit_with(r, t_min, hit_left.t, log_u) {
                Some(hit_right) => Some(hit_right),
                None => Some(hit_left),
            },
            None => self.right.hit_with(r, t_min, t_max, log_u),
        }
    }

    #[verifier::when_used_as_spec(bounding_box_spec)]
    pub fn bounding_box(&self, time0: Scalar, time1: Scalar) -> (b: Option<AABB>)
        ensures
            b == self.bounding_box_spec(time0, time1),
    {
        Some(self.aabb)
    }
}

} // verus!
