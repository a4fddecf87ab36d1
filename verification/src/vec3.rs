//! Three-component vectors of scalars, used both as points and as directions.

use vstd::prelude::*;
use core::ops::Range;
use crate::scalar::{
    lemma_product_negated, lemma_sum_opposite, lit, nan, opposite, Scalar, MINUS_ONE_BITS,
    ONE_BITS, TWO_BITS, ZERO_BITS,
};
use crate::utils::{random, random_range, range_draw, range_ok, unit_draw};

verus! {

/// The bit pattern of `1e-6`, below which a component counts as zero.
pub const NEAR_ZERO_BITS: u32 = 0x3586_37bd;

/// How many candidates `random_unit_vector` draws before it gives up and
/// returns the first axis.
pub const MAX_DRAWS: u32 = 1024;

#[derive(Clone, Copy, Debug)]
pub struct Vec3 {
    pub x: Scalar,
    pub y: Scalar,
    pub z: Scalar,
}

pub type Point3 = Vec3;

impl Vec3 {
    pub open spec fn zero_spec() -> Vec3 {
        Vec3 {
            x: lit(ZERO_BITS),
            y: lit(ZERO_BITS),
            z: lit(ZERO_BITS),
        }
    }

    pub open spec fn add_spec(self, rhs: Vec3) -> Vec3 {
        Vec3 {
            x: self.x.add_spec(rhs.x),
            y: self.y.add_spec(rhs.y),
            z: self.z.add_spec(rhs.z),
        }
    }

    pub open spec fn neg_spec(self) -> Vec3 {
        Vec3 { x: self.x.neg_spec(), y: self.y.neg_spec(), z: self.z.neg_spec() }
    }

    pub open spec fn sub_spec(self, rhs: Vec3) -> Vec3 {
        Vec3 {
            x: self.x.sub_spec(rhs.x),
            y: self.y.sub_spec(rhs.y),
            z: self.z.sub_spec(rhs.z),
        }
    }

    /// Each component times `t`.
    pub open spec fn mul_spec(self, t: Scalar) -> Vec3 {
        Vec3 { x: self.x.mul_spec(t), y: self.y.mul_spec(t), z: self.z.mul_spec(t) }
    }

    /// The component-wise product.
    pub open spec fn mul_vec_spec(self, rhs: Vec3) -> Vec3 {
        Vec3 {
            x: self.x.mul_spec(rhs.x),
            y: self.y.mul_spec(rhs.y),
            z: self.z.mul_spec(rhs.z),
        }
    }

    /// Each component over `t`.
    pub open spec fn div_spec(self, t: Scalar) -> Vec3 {
        Vec3 { x: self.x.div_spec(t), y: self.y.div_spec(t), z: self.z.div_spec(t) }
    }

    pub open spec fn dot_spec(self, rhs: Vec3) -> Scalar {
        self.x.mul_spec(rhs.x).add_spec(self.y.mul_spec(rhs.y)).add_spec(self.z.mul_spec(rhs.z))
    }

    pub open spec fn length_sq_spec(self) -> Scalar {
        self.dot_spec(self)
    }

    pub open spec fn length_spec(self) -> Scalar {
        self.length_sq_spec().sqrt_spec()
    }

    /// The vector over its length. Of a zero vector every component is a NaN.
    pub open spec fn unit_spec(self) -> Vec3 {
        self.div_spec(self.length_spec())
    }

    /// `(y1 z2 - z1 y2, z1 x2 - x1 z2, x1 y2 - y1 x2)`.
    pub open spec fn cross_spec(self, rhs: Vec3) -> Vec3 {
        Vec3 {
            x: self.y.mul_spec(rhs.z).sub_spec(self.z.mul_spec(rhs.y)),
            y: self.z.mul_spec(rhs.x).sub_spec(self.x.mul_spec(rhs.z)),
            z: self.x.mul_spec(rhs.y).sub_spec(self.y.mul_spec(rhs.x)),
        }
    }

    /// Every component is below `1e-6` in absolute value.
    pub open spec fn near_zero_spec(self) -> bool {
        let e = lit(NEAR_ZERO_BITS);
        self.x.abs_spec().lt_spec(e) && self.y.abs_spec().lt_spec(e) && self.z.abs_spec().lt_spec(e)
    }

    /// `v - 2 (v . n) n`.
    pub open spec fn reflect_spec(self, normal: Vec3) -> Vec3 {
        self.sub_spec(normal.mul_spec(lit(TWO_BITS).mul_spec(self.dot_spec(normal))))
    }

    /// The cosine of the angle of incidence, held to at most 1.
    pub open spec fn incidence_cos_spec(self, normal: Vec3) -> Scalar {
        self.neg_spec().dot_spec(normal).min_spec(lit(ONE_BITS))
    }

    /// The part of the refracted vector that lies across the normal.
    pub open spec fn refract_across_spec(self, normal: Vec3, rel_ri: Scalar) -> Vec3 {
        self.add_spec(normal.mul_spec(self.incidence_cos_spec(normal))).mul_spec(rel_ri)
    }

    /// The part of the refracted vector that lies along the normal.
    pub open spec fn refract_along_normal_spec(self, normal: Vec3, rel_ri: Scalar) -> Vec3 {
        let across = self.refract_across_spec(normal, rel_ri);
        normal.mul_spec(
            lit(ONE_BITS).sub_spec(across.length_sq_spec()).abs_spec().sqrt_spec().neg_spec(),
        )
    }

    /// Snell's law: the part across the normal plus the part along it.
    pub open spec fn refract_spec(self, normal: Vec3, rel_ri: Scalar) -> Vec3 {
        self.refract_across_spec(normal, rel_ri).add_spec(
            self.refract_along_normal_spec(normal, rel_ri),
        )
    }

    /// Every component lies in `[0, 1)`.
    pub open spec fn unit_cube_spec(self) -> bool {
        unit_draw(self.x) && unit_draw(self.y) && unit_draw(self.z)
    }

    /// Every component lies in the range `r`.
    pub open spec fn in_cube_spec(self, r: Range<Scalar>) -> bool {
        range_draw(r, self.x) && range_draw(r, self.y) && range_draw(r, self.z)
    }

    /// The zero vector.
    pub fn new() -> (r: Vec3)
        ensures
            r == Vec3::zero_spec(),
    {
        Vec3 { x: Scalar::zero(), y: Scalar::zero(), z: Scalar::zero() }
    }

    pub fn from_point(x: Scalar, y: Scalar, z: Scalar) -> (r: Vec3)
        ensures
            r == (Vec3 { x, y, z }),
    {
        Vec3 { x, y, z }
    }

    /// A vector with each component drawn from `[0, 1)`.
    pub fn random() -> (r: Vec3)
        ensures
            r.unit_cube_spec(),
    {
        let x = random();
        let y = random();
        let z = random();
        Vec3 { x, y, z }
    }

    /// A vector with each component drawn from the range `r`.
    pub fn random_range(r: Range<Scalar>) -> (v: Vec3)
        requires
            range_ok(r),
        ensures
            v.in_cube_spec(r),
    {
        let x = random_range(r.start..r.end);
        let y = random_range(r.start..r.end);
        let z = random_range(r.start..r.end);
        Vec3 { x, y, z }
    }

    pub fn add(self, rhs: Vec3) -> (r: Vec3)
        ensures
            r == self.add_spec(rhs),
    {
        Vec3 { x: self.x.add(rhs.x), y: self.y.add(rhs.y), z: self.z.add(rhs.z) }
    }

    pub fn add_assign(&mut self, rhs: Vec3)
        ensures
            *final(self) == old(self).add_spec(rhs),
    {
        *self = self.add(rhs);
    }

    pub fn neg(self) -> (r: Vec3)
        ensures
            r == self.neg_spec(),
    {
        Vec3 { x: self.x.neg(), y: self.y.neg(), z: self.z.neg() }
    }

    pub fn sub(self, rhs: Vec3) -> (r: Vec3)
        ensures
            r == self.sub_spec(rhs),
    {
        Vec3 { x: self.x.sub(rhs.x), y: self.y.sub(rhs.y), z: self.z.sub(rhs.z) }
    }

    pub fn sub_assign(&mut self, rhs: Vec3)
        ensures
            *final(self) == old(self).sub_spec(rhs),
    {
        *self = self.sub(rhs);
    }

    pub fn mul(self, t: Scalar) -> (r: Vec3)
        ensures
            r == self.mul_spec(t),
    {
        Vec3 { x: self.x.mul(t), y: self.y.mul(t), z: self.z.mul(t) }
    }

    pub fn mul_vec(self, rhs: Vec3) -> (r: Vec3)
        ensures
            r == self.mul_vec_spec(rhs),
    {
        Vec3 { x: self.x.mul(rhs.x), y: self.y.mul(rhs.y), z: self.z.mul(rhs.z) }
    }

    pub fn mul_assign(&mut self, t: Scalar)
        ensures
            *final(self) == old(self).mul_spec(t),
    {
        *self = self.mul(t);
    }

    pub fn div(self, t: Scalar) -> (r: Vec3)
        ensures
            r == self.div_spec(t),
    {
        Vec3 { x: self.x.div(t), y: self.y.div(t), z: self.z.div(t) }
    }

    pub fn div_assign(&mut self, t: Scalar)
        ensures
            *final(self) == old(self).div_spec(t),
    {
        *self = self.div(t);
    }

    pub fn length_sq(self) -> (r: Scalar)
        ensures
            r == self.length_sq_spec(),
    {
        self.dot(self)
    }

    pub fn length(self) -> (r: Scalar)
        ensures
            r == self.length_spec(),
    {
        self.length_sq().sqrt()
    }

    pub fn unit(self) -> (r: Vec3)
        ensures
            r == self.unit_spec(),
    {
        self.div(self.length())
    }

    /// The squared length, under the name it has as a norm.
    pub fn norm(self) -> (r: Scalar)
        ensures
            r == self.length_sq_spec(),
    {
        self.length_sq()
    }

    pub fn dot(self, rhs: Vec3) -> (r: Scalar)
        ensures
            r == self.dot_spec(rhs),
    {
        self.x.mul(rhs.x).add(self.y.mul(rhs.y)).add(self.z.mul(rhs.z))
    }

    pub fn cross(self, rhs: Vec3) -> (r: Vec3)
        ensures
            r == self.cross_spec(rhs),
    {
        Vec3 {
            x: self.y.mul(rhs.z).sub(self.z.mul(rhs.y)),
            y: self.z.mul(rhs.x).sub(self.x.mul(rhs.z)),
            z: self.x.mul(rhs.y).sub(self.y.mul(rhs.x)),
        }
    }

    pub fn near_zero(self) -> (r: bool)
        ensures
            r == self.near_zero_spec(),
    {
        let e = Scalar::from_bits(NEAR_ZERO_BITS);
        self.x.abs().lt(e) && self.y.abs().lt(e) && self.z.abs().lt(e)
    }

    pub fn reflect_along(self, normal: Vec3) -> (r: Vec3)
        ensures
            r == self.reflect_spec(normal),
    {
        self.sub(normal.mul(Scalar::two().mul(self.dot(normal))))
    }

    pub fn refract_along(self, normal: Vec3, rel_ri: Scalar) -> (r: Vec3)
        ensures
            r == self.refract_spec(normal, rel_ri),
    {
        let cos_theta = self.neg().dot(normal).min(Scalar::one());
        let across = self.add(normal.mul(cos_theta)).mul(rel_ri);
        let along = normal.mul(Scalar::one().sub(across.length_sq()).abs().sqrt().neg());
        across.add(along)
    }
}

/// Whether no NaN arises in the dot product of `u` and `v`: none of the
/// three products is one, nor the sum of the first two.
pub open spec fn dot_without_nan(u: Vec3, v: Vec3) -> bool {
    &&& !u.x.mul_spec(v.x).is_nan_spec()
    &&& !u.y.mul_spec(v.y).is_nan_spec()
    &&& !u.z.mul_spec(v.z).is_nan_spec()
    &&& !u.x.mul_spec(v.x).add_spec(u.y.mul_spec(v.y)).is_nan_spec()
}

/// Negating a vector negates its dot product with another, as a value.
pub proof fn lemma_dot_negated(u: Vec3, v: Vec3)
    requires
        dot_without_nan(u, v),
    ensures
        opposite(u.dot_spec(v.neg_spec()).bits, u.dot_spec(v).bits),
{
    lemma_product_negated(u.x.bits, v.x.bits);
    lemma_product_negated(u.y.bits, v.y.bits);
    lemma_product_negated(u.z.bits, v.z.bits);
    let p = u.x.mul_spec(v.x).bits;
    let q = u.y.mul_spec(v.y).bits;
    let r = u.z.mul_spec(v.z).bits;
    let p2 = u.x.mul_spec(v.neg_spec().x).bits;
    let q2 = u.y.mul_spec(v.neg_spec().y).bits;
    let r2 = u.z.mul_spec(v.neg_spec().z).bits;
    lemma_sum_opposite(p, q, p2, q2);
    lemma_sum_opposite(
        u.x.mul_spec(v.x).add_spec(u.y.mul_spec(v.y)).bits,
        r,
        u.x.mul_spec(v.neg_spec().x).add_spec(u.y.mul_spec(v.neg_spec().y)).bits,
        r2,
    );
}

pub fn dot(u: Vec3, v: Vec3) -> (r: Scalar)
    ensures
        r == u.dot_spec(v),
{
    u.dot(v)
}

pub fn cross(u: Vec3, v: Vec3) -> (r: Vec3)
    ensures
        r == u.cross_spec(v),
{
    u.cross(v)
}

pub fn reflect(v: Vec3, normal: Vec3) -> (r: Vec3)
    ensures
        r == v.reflect_spec(normal),
{
    v.reflect_along(normal)
}

pub fn refract(v: Vec3, normal: Vec3, rel_ri: Scalar) -> (r: Vec3)
    ensures
        r == v.refract_spec(normal, rel_ri),
{
    v.refract_along(normal, rel_ri)
}

/// The first axis, which `random_unit_vector` returns when every candidate was
/// rejected.
pub open spec fn fallback_direction() -> Vec3 {
    Vec3 {
        x: lit(ONE_BITS),
        y: lit(ZERO_BITS),
        z: lit(ZERO_BITS),
    }
}

/// Whether a candidate lies in the cube `[-1, 1)^3`.
pub open spec fn candidate(v: Vec3) -> bool {
    v.in_cube_spec(lit(MINUS_ONE_BITS)..lit(ONE_BITS))
}

/// Whether a candidate is taken: it lies inside the unit ball and is not the
/// zero vector, which has no unit vector. `0 < |v|^2 <= 1`.
pub open spec fn accepted(v: Vec3) -> bool {
    lit(ZERO_BITS).lt_spec(v.length_sq_spec()) && v.length_sq_spec().le_spec(lit(ONE_BITS))
}

/// Whether a candidate is taken.
pub fn is_accepted(v: Vec3) -> (r: bool)
    ensures
        r == accepted(v),
{
    let length_sq = v.length_sq();
    Scalar::zero().lt(length_sq) && length_sq.le(Scalar::one())
}

/// Whether none of a list of candidates is taken.
pub open spec fn all_rejected(candidates: Seq<Vec3>) -> bool {
    forall|i: int| 0 <= i < candidates.len() ==> !accepted(#[trigger] candidates[i])
}

/// The unit vector that a list of candidates yields: the first one that is
/// taken, normalised; the first axis where none is.
pub open spec fn pick_unit(candidates: Seq<Vec3>) -> Vec3
    decreases candidates.len(),
{
    if candidates.len() == 0 {
        fallback_direction()
    } else if accepted(candidates[0]) {
        candidates[0].unit_spec()
    } else {
        pick_unit(candidates.drop_first())
    }
}

/// What every result of `random_unit_vector` satisfies: it is what some list
/// of at most `MAX_DRAWS` candidates of the cube yields, and a list of which
/// none is taken has all `MAX_DRAWS` of them. So the result is the unit
/// vector of a candidate that was taken, unless `MAX_DRAWS` candidates were
/// drawn and rejected.
pub open spec fn unit_sample(u: Vec3) -> bool {
    exists|candidates: Seq<Vec3>|
        #![trigger pick_unit(candidates)]
        candidates.len() <= MAX_DRAWS && (forall|i: int|
            0 <= i < candidates.len() ==> candidate(#[trigger] candidates[i])) && (all_rejected(
            candidates,
        ) ==> candidates.len() == MAX_DRAWS) && u == pick_unit(candidates)
}

/// The unit vector that a list of candidates yields.
pub fn unit_from_candidates(candidates: &Vec<Vec3>) -> (r: Vec3)
    ensures
        r == pick_unit(candidates@),
{
    let mut i: usize = 0;
    assert(candidates@.skip(0) =~= candidates@);
    while i < candidates.len()
        invariant
            i <= candidates.len(),
            pick_unit(candidates@) == pick_unit(candidates@.skip(i as int)),
        decreases candidates.len() - i,
    {
        let v = candidates[i];
        proof {
            let rest = candidates@.skip(i as int);
            assert(rest[0] == v);
            assert(rest.drop_first() =~= candidates@.skip(i + 1));
        }
        if is_accepted(v) {
            return v.unit();
        }
        i += 1;
    }
    Vec3 { x: Scalar::one(), y: Scalar::zero(), z: Scalar::zero() }
}

/// Rejected candidates do not change what a list yields.
pub proof fn lemma_pick_unit_after_rejected(rejected: Seq<Vec3>, rest: Seq<Vec3>)
    requires
        forall|i: int| 0 <= i < rejected.len() ==> !accepted(#[trigger] rejected[i]),
    ensures
        pick_unit(rejected + rest) == pick_unit(rest),
    decreases rejected.len(),
{
    if rejected.len() == 0 {
        assert(rejected + rest =~= rest);
    } else {
        let all = rejected + rest;
        assert(all[0] == rejected[0]);
        assert(all.drop_first() =~= rejected.drop_first() + rest);
        assert forall|i: int| 0 <= i < rejected.drop_first().len() implies !accepted(
            #[trigger] rejected.drop_first()[i],
        ) by {
            assert(rejected.drop_first()[i] == rejected[i + 1]);
        }
        lemma_pick_unit_after_rejected(rejected.drop_first(), rest);
    }
}

/// A random direction of unit length: candidates are drawn from the cube
/// `[-1, 1)^3` until one lies inside the unit ball and is not the zero
/// vector, and that one is normalised. After `MAX_DRAWS` rejected candidates
/// the first axis is returned.
pub fn random_unit_vector() -> (r: Vec3)
    ensures
        unit_sample(r),
{
    let lo = Scalar::from_bits(MINUS_ONE_BITS);
    let hi = Scalar::one();
    let ghost mut drawn: Seq<Vec3> = Seq::empty();
    let mut tries: u32 = 0;
    while tries < MAX_DRAWS
        invariant
            tries <= MAX_DRAWS,
            lo.bits == MINUS_ONE_BITS,
            hi.bits == ONE_BITS,
            drawn.len() == tries,
            forall|i: int| 0 <= i < drawn.len() ==> candidate(#[trigger] drawn[i]),
            forall|i: int| 0 <= i < drawn.len() ==> !accepted(#[trigger] drawn[i]),
        decreases MAX_DRAWS - tries,
    {
        let v = Vec3::random_range(lo..hi);
        if is_accepted(v) {
            proof {
                let last = seq![v];
                let all = drawn + last;
                lemma_pick_unit_after_rejected(drawn, last);
                assert(last.drop_first() =~= Seq::<Vec3>::empty());
                assert(pick_unit(last) == v.unit_spec());
                assert forall|i: int| 0 <= i < all.len() implies candidate(#[trigger] all[i]) by {
                    if i < drawn.len() {
                        assert(all[i] == drawn[i]);
                    } else {
                        assert(all[i] == v);
                    }
                }
                assert(all.len() <= MAX_DRAWS);
                assert(all[all.len() - 1] == v);
                assert(!all_rejected(all));
                assert(v.unit_spec() == pick_unit(all));
            }
            return v.unit();
        }
        proof {
            let next = drawn.push(v);
            assert forall|i: int| 0 <= i < next.len() implies candidate(#[trigger] next[i]) by {
                if i < drawn.len() {
                    assert(next[i] == drawn[i]);
                }
            }
            assert forall|i: int| 0 <= i < next.len() implies !accepted(#[trigger] next[i]) by {
                if i < drawn.len() {
                    assert(next[i] == drawn[i]);
                }
            }
            drawn = next;
        }
        tries += 1;
    }
    proof {
        lemma_pick_unit_after_rejected(drawn, Seq::<Vec3>::empty());
        assert(drawn + Seq::<Vec3>::empty() =~= drawn);
        assert(pick_unit(drawn) == fallback_direction());
    }
    Vec3 { x: Scalar::one(), y: Scalar::zero(), z: Scalar::zero() }
}

/// A random unit vector on the side of the surface that `normal` points to.
pub open spec fn hemisphere_spec(normal: Vec3, u: Vec3) -> Vec3 {
    if lit(ZERO_BITS).lt_spec(normal.dot_spec(u)) {
        u
    } else {
        u.neg_spec()
    }
}

/// Turns a unit vector into the hemisphere of `normal`.
pub fn into_hemisphere(normal: Vec3, u: Vec3) -> (r: Vec3)
    ensures
        r == hemisphere_spec(normal, u),
{
    if normal.dot(u).gt(Scalar::zero()) {
        u
    } else {
        u.neg()
    }
}

/// A random unit vector in the hemisphere of `normal`.
pub fn random_unit_hemisphere(normal: Vec3) -> (r: Vec3)
    ensures
        exists|u: Vec3| unit_sample(u) && r == #[trigger] hemisphere_spec(normal, u),
{
    let u = random_unit_vector();
    into_hemisphere(normal, u)
}

} // verus!
