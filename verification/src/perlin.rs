//! Coherent gradient noise over a lattice of random directions.

use vstd::prelude::*;

use crate::scalar::Scalar;
use crate::util::random_i32_in_range;
use crate::vec3::{dot, in_cube, unit_vector, Point3, Vec3};

verus! {

/// The number of lattice directions, and the length of each permutation.
pub const POINT_COUNT: usize = 256;

/// Whether `p` lists every index below `POINT_COUNT` exactly once.
pub open spec fn is_permutation(p: Seq<usize>) -> bool {
    &&& p.len() == POINT_COUNT
    &&& forall|i: int| 0 <= i < p.len() ==> #[trigger] p[i] < POINT_COUNT
    &&& forall|i: int, j: int| 0 <= i < j < p.len() ==> #[trigger] p[i] != #[trigger] p[j]
}

/// The position on the lattice of the integer coordinate `c`.
pub open spec fn wrap_index(c: int) -> int {
    c % (POINT_COUNT as int)
}

/// The weight that one lattice corner gets along one axis: `t` toward the far
/// corner, `1 - t` toward the near one.
pub open spec fn corner_weight(far: bool, t: Scalar) -> Scalar {
    if far {
        t
    } else {
        Scalar::one().sub(t)
    }
}

/// The offset from a lattice corner along one axis.
pub open spec fn corner_offset(far: bool, t: Scalar) -> Scalar {
    if far {
        t.sub(Scalar::one())
    } else {
        t
    }
}

/// What one corner of the lattice cell adds to the noise at the point that
/// lies `(u, v, w)` into the cell: the corner's direction, projected on the
/// offset from the corner and weighted trilinearly.
pub open spec fn corner_term(
    c: Vec3,
    far: (bool, bool, bool),
    u: Scalar,
    v: Scalar,
    w: Scalar,
) -> Scalar {
    let weight_v = Vec3 {
        x: corner_offset(far.0, u),
        y: corner_offset(far.1, v),
        z: corner_offset(far.2, w),
    };
    corner_weight(far.0, u).mul(corner_weight(far.1, v)).mul(corner_weight(far.2, w)).mul(
        dot(&c, &weight_v),
    )
}

/// The corner of a cell with the given number, counted with z fastest.
pub open spec fn corner_of(n: int) -> (bool, bool, bool) {
    (n / 4 % 2 == 1, n / 2 % 2 == 1, n % 2 == 1)
}

/// The sum of the first `n` corner terms of a cell whose corner directions are
/// `c`.
pub open spec fn interp_sum(c: Seq<Vec3>, u: Scalar, v: Scalar, w: Scalar, n: nat) -> Scalar
    decreases n,
{
    if n == 0 {
        Scalar::zero()
    } else {
        interp_sum(c, u, v, w, (n - 1) as nat).add(
            corner_term(c[n - 1], corner_of(n - 1), u, v, w),
        )
    }
}

fn wrap_index_of(c: i64) -> (r: usize)
    ensures
        r == wrap_index(c as int),
        r < POINT_COUNT,
{
    let m: i64 = c % 256;
    if m < 0 {
        (m + 256) as usize
    } else {
        m as usize
    }
}

fn corner_term_of(c: Vec3, far: (bool, bool, bool), u: Scalar, v: Scalar, w: Scalar) -> (r: Scalar)
    ensures
        r == corner_term(c, far, u, v, w),
{
    let one = Scalar::one();
    let weight_v = Vec3 {
        x: if far.0 { u.sub(one) } else { u },
        y: if far.1 { v.sub(one) } else { v },
        z: if far.2 { w.sub(one) } else { w },
    };
    let wu = if far.0 { u } else { one.sub(u) };
    let wv = if far.1 { v } else { one.sub(v) };
    let ww = if far.2 { w } else { one.sub(w) };
    wu.mul(wv).mul(ww).mul(dot(&c, &weight_v))
}

/// A table of random directions with three permutations to look them up by
/// lattice position.
pub struct Perlin {
    ranvec: Vec<Vec3>,
    perm_x: Vec<usize>,
    perm_y: Vec<usize>,
    perm_z: Vec<usize>,
}

impl Perlin {
    #[verifier::type_invariant]
    pub closed spec fn well_formed(&self) -> bool {
        &&& self.ranvec@.len() == POINT_COUNT
        &&& is_permutation(self.perm_x@)
        &&& is_permutation(self.perm_y@)
        &&& is_permutation(self.perm_z@)
    }

    /// The direction table.
    pub closed spec fn directions(&self) -> Seq<Vec3> {
        self.ranvec@
    }

    /// The three permutations, for x, y and z.
    pub closed spec fn permutations(&self) -> (Seq<usize>, Seq<usize>, Seq<usize>) {
        (self.perm_x@, self.perm_y@, self.perm_z@)
    }

    /// The direction that belongs to the lattice point `(i, j, k)`: the three
    /// permuted coordinates, combined by exclusive or, index the table.
    pub open spec fn lattice_direction(&self, i: int, j: int, k: int) -> Vec3 {
        let perms = self.permutations();
        self.directions()[(perms.0[wrap_index(i)] ^ perms.1[wrap_index(j)]
            ^ perms.2[wrap_index(k)]) as int]
    }

    /// The eight corner directions of the cell whose near corner is
    /// `(i, j, k)`, counted with z fastest.
    pub open spec fn cell_directions(&self, i: int, j: int, k: int) -> Seq<Vec3> {
        Seq::new(
            8,
            |n: int|
                self.lattice_direction(
                    i + (if corner_of(n).0 { 1int } else { 0int }),
                    j + (if corner_of(n).1 { 1int } else { 0int }),
                    k + (if corner_of(n).2 { 1int } else { 0int }),
                ),
        )
    }

    /// The noise at `p`: the eight corners of the lattice cell around `p`,
    /// interpolated.
    pub open spec fn noise_spec(&self, p: &Point3) -> Scalar {
        interp_sum(
            self.cell_directions(
                p.x.floor_int() as int,
                p.y.floor_int() as int,
                p.z.floor_int() as int,
            ),
            p.x.sub(p.x.floor()),
            p.y.sub(p.y.floor()),
            p.z.sub(p.z.floor()),
            8,
        )
    }

    /// The sum of `depth` octaves of noise, before its sign is dropped: each
    /// octave has half the weight and twice the frequency of the one before.
    pub open spec fn turb_sum(&self, p: Point3, weight: Scalar, depth: int) -> Scalar
        decreases depth,
    {
        if depth <= 0 {
            Scalar::zero()
        } else {
            weight.mul(self.noise_spec(&p)).add(
                self.turb_sum(
                    p.scale(Scalar::from_int(2)),
                    weight.mul(Scalar::from_ratio(1, 2)),
                    depth - 1,
                ),
            )
        }
    }

    /// Turbulence: the size of the sum of `depth` octaves of noise.
    pub open spec fn turb_spec(&self, p: &Point3, depth: i32) -> Scalar {
        self.turb_sum(*p, Scalar::one(), depth as int).abs()
    }

    /// A noise table from given directions and permutations, if there are
    /// `POINT_COUNT` directions and each permutation is one.
    pub fn from_tables(
        ranvec: Vec<Vec3>,
        perm_x: Vec<usize>,
        perm_y: Vec<usize>,
        perm_z: Vec<usize>,
    ) -> (r: Option<Perlin>)
        ensures
            r is Some <==> ranvec@.len() == POINT_COUNT && is_permutation(perm_x@)
                && is_permutation(perm_y@) && is_permutation(perm_z@),
            r matches Some(perlin) ==> perlin.directions() == ranvec@ && perlin.permutations() == (
                perm_x@,
                perm_y@,
                perm_z@,
            ),
    {
        if ranvec.len() == POINT_COUNT && Self::check_permutation(&perm_x)
            && Self::check_permutation(&perm_y) && Self::check_permutation(&perm_z) {
            Some(Perlin { ranvec, perm_x, perm_y, perm_z })
        } else {
            None
        }
    }

    /// A noise table with random directions and random permutations: each
    /// direction is the unit vector of a point drawn from the cube from -1 to
    /// 1, and each permutation a shuffle of the indices in their order.
    pub fn new() -> (r: Perlin)
        ensures
            r.directions().len() == POINT_COUNT,
            all_lattice_directions(r.directions()),
            is_permutation(r.permutations().0),
            is_permutation(r.permutations().1),
            is_permutation(r.permutations().2),
            shuffle_of(indices_in_order(), r.permutations().0, POINT_COUNT as int),
            shuffle_of(indices_in_order(), r.permutations().1, POINT_COUNT as int),
            shuffle_of(indices_in_order(), r.permutations().2, POINT_COUNT as int),
    {
        let mut ranvec: Vec<Vec3> = Vec::new();
        let mut n: usize = 0;
        while n < POINT_COUNT
            invariant
                n <= POINT_COUNT,
                ranvec@.len() == n,
                all_lattice_directions(ranvec@),
            decreases POINT_COUNT - n,
        {
            let v = Vec3::random_range(Scalar::from_int(-1), Scalar::one());
            let direction = unit_vector(&v);
            proof {
                assert(in_cube(v) && direction == unit_vector(&v));
                assert(is_lattice_direction(direction));
            }
            ranvec.push(direction);
            n += 1;
        }
        let perm_x = Self::perlin_generate_perm();
        let perm_y = Self::perlin_generate_perm();
        let perm_z = Self::perlin_generate_perm();
        Perlin { ranvec, perm_x, perm_y, perm_z }
    }

    #[verifier::when_used_as_spec(noise_spec)]
    pub fn noise(&self, p: &Point3) -> (r: Scalar)
        ensures
            r == self.noise_spec(p),
    {
        let u = p.x().sub(p.x().floor());
        let v = p.y().sub(p.y().floor());
        let w = p.z().sub(p.z().floor());
        let i = p.x().floor_int();
        let j = p.y().floor_int();
        let k = p.z().floor_int();
        let ghost cell = self.cell_directions(i as int, j as int, k as int);
        let mut accum = Scalar::zero();
        let mut n: usize = 0;
        while n < 8
            invariant
                n <= 8,
                -0x8000_0000 <= i <= 0x8000_0000,
                -0x8000_0000 <= j <= 0x8000_0000,
                -0x8000_0000 <= k <= 0x8000_0000,
                cell == self.cell_directions(i as int, j as int, k as int),
                accum == interp_sum(cell, u, v, w, n as nat),
            decreases 8 - n,
        {
            let far = (n / 4 % 2 == 1, n / 2 % 2 == 1, n % 2 == 1);
            let c = self.direction_at(
                i + (if far.0 { 1i64 } else { 0i64 }),
                j + (if far.1 { 1i64 } else { 0i64 }),
                k + (if far.2 { 1i64 } else { 0i64 }),
            );
            assert(c == cell[n as int]);
            accum = accum.add(corner_term_of(c, far, u, v, w));
            n += 1;
        }
        accum
    }

    #[verifier::when_used_as_spec(turb_spec)]
    pub fn turb(&self, p: &Point3, depth: i32) -> (r: Scalar)
        ensures
            r == self.turb_spec(p, depth),
    {
        self.turb_from(*p, Scalar::one(), depth).abs()
    }

    fn turb_from(&self, p: Point3, weight: Scalar, depth: i32) -> (r: Scalar)
        ensures
            r == self.turb_sum(p, weight, depth as int),
        decreases depth,
    {
        if depth <= 0 {
            Scalar::zero()
        } else {
            let here = weight.mul(self.noise(&p));
            let rest = self.turb_from(
                p.scale(Scalar::from_int(2)),
                weight.mul(Scalar::from_ratio(1, 2)),
                depth - 1,
            );
            here.add(rest)
        }
    }

    fn direction_at(&self, i: i64, j: i64, k: i64) -> (r: Vec3)
        ensures
            r == self.lattice_direction(i as int, j as int, k as int),
    {
        proof {
            use_type_invariant(self);
        }
        let a: usize = self.perm_x[wrap_index_of(i)];
        let b: usize = self.perm_y[wrap_index_of(j)];
        let c: usize = self.perm_z[wrap_index_of(k)];
        assert((a ^ b ^ c) < 256) by (bit_vector)
            requires
                a < 256,
                b < 256,
                c < 256,
        ;
        self.ranvec[a ^ b ^ c]
    }

    fn check_permutation(p: &Vec<usize>) -> (ok: bool)
        ensures
            ok == is_permutation(p@),
    {
        if p.len() != POINT_COUNT {
            return false;
        }
        let mut seen: Vec<bool> = Vec::new();
        let mut n: usize = 0;
        while n < POINT_COUNT
            invariant
                n <= POINT_COUNT,
                seen@.len() == n,
                forall|i: int| 0 <= i < n ==> !#[trigger] seen@[i],
            decreases POINT_COUNT - n,
        {
            seen.push(false);
            n += 1;
        }
        let mut i: usize = 0;
        while i < POINT_COUNT
            invariant
                i <= POINT_COUNT,
                p@.len() == POINT_COUNT,
                seen@.len() == POINT_COUNT,
                forall|a: int| 0 <= a < i ==> #[trigger] p@[a] < POINT_COUNT,
                forall|a: int, b: int| 0 <= a < b < i ==> #[trigger] p@[a] != #[trigger] p@[b],
                forall|s: int|
                    0 <= s < POINT_COUNT ==> (#[trigger] seen@[s] <==> exists|a: int|
                        0 <= a < i && #[trigger] p@[a] == s),
            decreases POINT_COUNT - i,
        {
            let x = p[i];
            if x >= POINT_COUNT {
                return false;
            }
            if seen[x] {
                let ghost a = choose|a: int| 0 <= a < i && #[trigger] p@[a] == x;
                assert(p@[a] == p@[i as int]);
                return false;
            }
            let ghost before = seen@;
            seen[x] = true;
            assert forall|s: int| 0 <= s < POINT_COUNT implies (#[trigger] seen@[s] <==> exists|
                a: int,
            | 0 <= a < i + 1 && #[trigger] p@[a] == s) by {
                if s == x {
                    assert(p@[i as int] == s);
                } else {
                    assert(seen@[s] == before[s]);
                    if before[s] {
                        let a = choose|a: int| 0 <= a < i && #[trigger] p@[a] == s;
                        assert(0 <= a < i + 1 && p@[a] == s);
                    }
                }
            }
            i += 1;
        }
        true
    }

    /// A random permutation of the indices below `POINT_COUNT`: the indices
    /// in their order, shuffled.
    pub fn perlin_generate_perm() -> (p: Vec<usize>)
        ensures
            is_permutation(p@),
            shuffle_of(indices_in_order(), p@, POINT_COUNT as int),
    {
        let mut p: Vec<usize> = Vec::new();
        let mut i: usize = 0;
        while i < POINT_COUNT
            invariant
                i <= POINT_COUNT,
                p@.len() == i,
                forall|a: int| 0 <= a < i ==> #[trigger] p@[a] == a,
            decreases POINT_COUNT - i,
        {
            p.push(i);
            i += 1;
        }
        proof {
            assert(p@ == indices_in_order());
        }
        Self::permute(&mut p, POINT_COUNT);
        p
    }

    /// Shuffles the first `n` entries of a table: from the last entry down,
    /// each is exchanged with a random entry at or before it. A permutation
    /// stays one.
    pub fn permute(p: &mut Vec<usize>, n: usize)
        requires
            n <= old(p)@.len(),
            n <= 0x7fff_ffff,
        ensures
            shuffle_of(old(p)@, final(p)@, n as int),
            final(p)@.len() == old(p)@.len(),
            forall|a: int| n <= a < old(p)@.len() ==> final(p)@[a] == old(p)@[a],
            is_permutation(old(p)@) ==> is_permutation(final(p)@),
    {
        let mut picks: Vec<usize> = Vec::new();
        let mut i: usize = 0;
        while i < n
            invariant
                i <= n <= 0x7fff_ffff,
                picks@.len() == i,
                forall|a: int| 0 <= a < i ==> #[trigger] picks@[a] <= a,
            decreases n - i,
        {
            let target = if i == 0 {
                0
            } else {
                random_i32_in_range(0, i as i32) as usize
            };
            picks.push(target);
            i += 1;
        }
        Self::permute_with(p, n, &picks);
        proof {
            lemma_shuffled_keeps_tail(old(p)@, n as int, 1, picks@);
            if is_permutation(old(p)@) {
                lemma_shuffled_is_permutation(old(p)@, n as int, 1, picks@);
            }
            assert(valid_picks(picks@, n as int) && p@ == shuffled(old(p)@, n as int, 1, picks@));
        }
    }

    /// Shuffles the first `n` entries by given picks: from the last entry
    /// down to the second, the entry at `i` is exchanged with the entry at
    /// `picks[i]`.
    pub fn permute_with(p: &mut Vec<usize>, n: usize, picks: &Vec<usize>)
        requires
            n <= old(p)@.len(),
            valid_picks(picks@, n as int),
        ensures
            final(p)@ == shuffled(old(p)@, n as int, 1, picks@),
    {
        let mut i: usize = n;
        while i > 1
            invariant
                i <= n <= p@.len(),
                n > 0 ==> i >= 1,
                p@.len() == old(p)@.len(),
                valid_picks(picks@, n as int),
                p@ == shuffled(old(p)@, n as int, i as int, picks@),
            decreases i,
        {
            i -= 1;
            let target = picks[i];
            assert(picks@[i as int] <= i);
            let x = p[i];
            let y = p[target];
            let ghost before = p@;
            p[i] = y;
            p[target] = x;
            assert(p@ == exchanged(before, i as int, target as int));
        }
        proof {
            if i == 0 {
                assert(n == 0);
            }
        }
    }
}

/// Whether the vector is one that a noise table draws: the unit vector of a
/// point of the cube from -1 to 1.
pub open spec fn is_lattice_direction(d: Vec3) -> bool {
    exists|p: Vec3| in_cube(p) && d == #[trigger] unit_vector(&p)
}

/// Whether every vector of the table is one that a noise table draws.
pub open spec fn all_lattice_directions(directions: Seq<Vec3>) -> bool {
    forall|i: int| 0 <= i < directions.len() ==> is_lattice_direction(#[trigger] directions[i])
}

/// The indices below `POINT_COUNT` in their order.
pub open spec fn indices_in_order() -> Seq<usize> {
    Seq::new(POINT_COUNT as nat, |i: int| i as usize)
}

/// The sequence with the entries at `i` and `j` exchanged.
pub open spec fn exchanged(s: Seq<usize>, i: int, j: int) -> Seq<usize> {
    s.update(i, s[j]).update(j, s[i])
}

/// Whether the picks can shuffle `n` entries: there is one for each of them,
/// at or before its entry.
pub open spec fn valid_picks(picks: Seq<usize>, n: int) -> bool {
    picks.len() == n && forall|i: int| 0 <= i < n ==> #[trigger] picks[i] <= i
}

/// The sequence after each entry from the one at `n - 1` down to the one at
/// `lowest` has been exchanged, in that order, with the entry at its pick.
pub open spec fn shuffled(s: Seq<usize>, n: int, lowest: int, picks: Seq<usize>) -> Seq<usize>
    decreases n - lowest,
{
    if lowest >= n {
        s
    } else {
        exchanged(shuffled(s, n, lowest + 1, picks), lowest, picks[lowest] as int)
    }
}

/// Whether `after` is `before` with its first `n` entries shuffled: each entry
/// from the last down to the second exchanged with an entry at or before it.
pub open spec fn shuffle_of(before: Seq<usize>, after: Seq<usize>, n: int) -> bool {
    exists|picks: Seq<usize>|
        valid_picks(picks, n) && after == #[trigger] shuffled(before, n, 1, picks)
}

/// A permutation with two entries exchanged is a permutation.
pub proof fn lemma_exchange_keeps_permutation(s: Seq<usize>, i: int, j: int)
    requires
        is_permutation(s),
        0 <= i < s.len(),
        0 <= j < s.len(),
    ensures
        is_permutation(exchanged(s, i, j)),
{
    let t = exchanged(s, i, j);
    assert forall|a: int| 0 <= a < t.len() implies #[trigger] t[a] < POINT_COUNT by {
        assert(s[a] < POINT_COUNT);
        assert(s[i] < POINT_COUNT);
        assert(s[j] < POINT_COUNT);
    }
    assert forall|a: int, b: int| 0 <= a < b < t.len() implies #[trigger] t[a] != #[trigger] t[b] by {
        let pa = if a == i { j } else if a == j { i } else { a };
        let pb = if b == i { j } else if b == j { i } else { b };
        assert(t[a] == s[pa]);
        assert(t[b] == s[pb]);
        assert(pa != pb);
        if pa < pb {
            assert(s[pa] != s[pb]);
        } else {
            assert(s[pb] != s[pa]);
        }
    }
}

/// A shuffled table is as long as it was, and its entries from `n` on are
/// where they were.
pub proof fn lemma_shuffled_keeps_tail(s: Seq<usize>, n: int, lowest: int, picks: Seq<usize>)
    requires
        0 <= lowest,
        n <= s.len(),
        valid_picks(picks, n),
    ensures
        shuffled(s, n, lowest, picks).len() == s.len(),
        forall|a: int| n <= a < s.len() ==> shuffled(s, n, lowest, picks)[a] == s[a],
    decreases n - lowest,
{
    if lowest < n {
        lemma_shuffled_keeps_tail(s, n, lowest + 1, picks);
        assert(picks[lowest] <= lowest);
    }
}

/// A shuffled permutation is a permutation, and the entries from `n` on are
/// where they were.
pub proof fn lemma_shuffled_is_permutation(s: Seq<usize>, n: int, lowest: int, picks: Seq<usize>)
    requires
        is_permutation(s),
        0 <= lowest,
        n <= POINT_COUNT,
        valid_picks(picks, n),
    ensures
        is_permutation(shuffled(s, n, lowest, picks)),
        forall|a: int| n <= a < POINT_COUNT ==> shuffled(s, n, lowest, picks)[a] == s[a],
    decreases n - lowest,
{
    if lowest < n {
        lemma_shuffled_is_permutation(s, n, lowest + 1, picks);
        let t = shuffled(s, n, lowest + 1, picks);
        assert(picks[lowest] <= lowest);
        lemma_exchange_keeps_permutation(t, lowest, picks[lowest] as int);
    }
}

} // verus!
