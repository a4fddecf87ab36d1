//! The sphere, whose centre may move along a ray in time.

use vstd::prelude::*;
use core::ops::Range;
use std::sync::Arc;
use crate::hittable::{
    all_lawful, contains, face_normal, faces_front, in_range, lawful,
    lemma_world_hit_first_wins, lemma_world_hit_is_nearest, reports_in_range, reports_narrowed,
    HitRecord, Hittable,
};
use crate::material::Surface;
use crate::ray::Ray;
use crate::scalar::{lit, Scalar, ZERO_BITS};
use crate::vec3::{dot, Point3, Vec3};

verus! {

/// A sphere: where its centre is at time zero and how it moves (a ray), its
/// radius, and its material, shared with whoever else uses it. The radius is
/// meant to be above zero; one that is not is not refused.
pub struct Sphere {
    pub center: Ray,
    pub radius: Scalar,
    pub material: Arc<Surface>,
}

/// The two parameters at which a line meets a sphere, in the order in which
/// the formula gives them.
pub struct Roots {
    pub minus: Scalar,
    pub plus: Scalar,
}

/// The smaller of two roots; the first where they do not compare.
pub open spec fn near_root(roots: Roots) -> Scalar {
    if roots.plus.lt_spec(roots.minus) {
        roots.plus
    } else {
        roots.minus
    }
}

/// The larger of two roots; the second where they do not compare.
pub open spec fn far_root(roots: Roots) -> Scalar {
    if roots.plus.lt_spec(roots.minus) {
        roots.minus
    } else {
        roots.plus
    }
}

/// The root at which the ray is taken to hit: the smaller one where the range
/// holds it, else the larger one where the range holds that, else none.
pub open spec fn select_root_spec(roots: Roots, t_range: Range<Scalar>) -> Option<Scalar> {
    if in_range(t_range, near_root(roots)) {
        Some(near_root(roots))
    } else if in_range(t_range, far_root(roots)) {
        Some(far_root(roots))
    } else {
        None
    }
}

pub fn select_root(roots: &Roots, t_range: &Range<Scalar>) -> (r: Option<Scalar>)
    ensures
        r == select_root_spec(*roots, *t_range),
{
    let swapped = roots.plus.lt(roots.minus);
    let near = if swapped {
        roots.plus
    } else {
        roots.minus
    };
    let far = if swapped {
        roots.minus
    } else {
        roots.plus
    };
    if contains(t_range, near) {
        Some(near)
    } else if contains(t_range, far) {
        Some(far)
    } else {
        None
    }
}

/// The selected root lies within the range.
pub proof fn lemma_select_in_range(roots: Roots, t_range: Range<Scalar>)
    ensures
        select_root_spec(roots, t_range) matches Some(t) ==> in_range(t_range, t),
{
}

/// With the end of the range moved down, the selected root stays where it
/// still lies within the range, and none is selected where it does not.
pub proof fn lemma_select_narrowed(roots: Roots, t_range: Range<Scalar>, end: Scalar)
    requires
        end.le_spec(t_range.end),
    ensures
        select_root_spec(roots, t_range.start..end) == (match select_root_spec(roots, t_range) {
            Some(t) => if t.lt_spec(end) {
                Some(t)
            } else {
                None
            },
            None => None,
        }),
{
}

impl Sphere {
    /// The centre at the time of the ray.
    pub open spec fn center_spec(self, r: Ray) -> Vec3 {
        self.center.at_spec(r.time)
    }

    /// `a = |B|^2` with `B` the direction of the ray.
    pub open spec fn quadratic_a(self, r: Ray) -> Scalar {
        r.direction.length_sq_spec()
    }

    /// `half_b = A . B` with `A` from the centre to the origin of the ray.
    pub open spec fn quadratic_half_b(self, r: Ray) -> Scalar {
        r.origin.sub_spec(self.center_spec(r)).dot_spec(r.direction)
    }

    /// `c = |A|^2 - radius^2`.
    pub open spec fn quadratic_c(self, r: Ray) -> Scalar {
        r.origin.sub_spec(self.center_spec(r)).length_sq_spec().sub_spec(
            self.radius.squared_spec(),
        )
    }

    /// `half_b^2 - a c`.
    pub open spec fn discriminant_spec(self, r: Ray) -> Scalar {
        self.quadratic_half_b(r).squared_spec().sub_spec(
            self.quadratic_a(r).mul_spec(self.quadratic_c(r)),
        )
    }

    /// `(-half_b - sqrt(d)) / a` and `(-half_b + sqrt(d)) / a`.
    pub open spec fn roots_spec(self, r: Ray) -> Roots {
        let root = self.discriminant_spec(r).sqrt_spec();
        let minus_half_b = self.quadratic_half_b(r).neg_spec();
        Roots {
            minus: minus_half_b.sub_spec(root).div_spec(self.quadratic_a(r)),
            plus: minus_half_b.add_spec(root).div_spec(self.quadratic_a(r)),
        }
    }

    /// The parameter at which the ray hits: none where the discriminant is
    /// below zero, else the root selected from the range.
    pub open spec fn hit_root_spec(self, r: Ray, t_range: Range<Scalar>) -> Option<Scalar> {
        if self.discriminant_spec(r).lt_spec(lit(ZERO_BITS)) {
            None
        } else {
            select_root_spec(self.roots_spec(r), t_range)
        }
    }

    /// The outward normal at the point of parameter `t`: from the centre to
    /// the point, over the radius.
    pub open spec fn outward_normal_spec(self, r: Ray, t: Scalar) -> Vec3 {
        r.at_spec(t).sub_spec(self.center_spec(r)).div_spec(self.radius)
    }

    /// The record of the hit at parameter `t`.
    pub open spec fn record_spec(&self, r: Ray, t: Scalar) -> HitRecord {
        HitRecord {
            point: r.at_spec(t),
            normal: face_normal(r.direction, self.outward_normal_spec(r, t)),
            t,
            material: &*self.material,
            front: faces_front(r.direction, self.outward_normal_spec(r, t)),
        }
    }

    /// A sphere that rests at `center`.
    pub fn stationary_from_dim(center: Point3, radius: Scalar, material: Arc<Surface>) -> (r: Self)
        ensures
            r.center == (Ray { origin: center, direction: Vec3::zero_spec(), time: lit(ZERO_BITS) }),
            r.radius == radius,
            r.material == material,
    {
        Sphere { center: Ray::construct(center, Vec3::new(), Scalar::zero()), radius, material }
    }

    /// A sphere whose centre at time `t` is `center.at(t)`.
    pub fn moving_from_dim(center: Ray, radius: Scalar, material: Arc<Surface>) -> (r: Self)
        ensures
            r.center == center,
            r.radius == radius,
            r.material == material,
    {
        Sphere { center, radius, material }
    }

    /// The two roots of `|A + t B|^2 = radius^2`, or none where the
    /// discriminant is below zero.
    pub fn roots(&self, r: &Ray) -> (out: Option<Roots>)
        ensures
            out == (if self.discriminant_spec(*r).lt_spec(lit(ZERO_BITS)) {
                None
            } else {
                Some(self.roots_spec(*r))
            }),
    {
        let center = self.center.at(r.time);
        let to_origin = r.origin.sub(center);
        let a = r.direction.length_sq();
        let half_b = dot(to_origin, r.direction);
        let c = to_origin.length_sq().sub(self.radius.squared());
        let discriminant = half_b.squared().sub(a.mul(c));
        if discriminant.lt(Scalar::zero()) {
            return None;
        }
        let disc_sqrt = discriminant.sqrt();
        Some(
            Roots {
                minus: half_b.neg().sub(disc_sqrt).div(a),
                plus: half_b.neg().add(disc_sqrt).div(a),
            },
        )
    }

    /// A sphere reports the nearest of its hits that the range holds.
    pub proof fn lemma_lawful(&self)
        ensures
            lawful(self),
    {
        assert forall|r: Ray, t_range: Range<Scalar>| #[trigger]
            reports_in_range(self, r, t_range) by {
            lemma_select_in_range(self.roots_spec(r), t_range);
        }
        assert forall|r: Ray, t_range: Range<Scalar>, end: Scalar| #[trigger]
            reports_narrowed(self, r, t_range, end) by {
            if end.le_spec(t_range.end) {
                lemma_select_narrowed(self.roots_spec(r), t_range, end);
            }
        }
    }
}

impl Hittable for Sphere {
    open spec fn hit_spec(&self, r: Ray, t_range: Range<Scalar>) -> Option<HitRecord> {
        match self.hit_root_spec(r, t_range) {
            Some(t) => Some(self.record_spec(r, t)),
            None => None,
        }
    }

    /// Solves `|A + t B|^2 = radius^2` for the ray `A + t B` taken from the
    /// centre, and reports the smaller root that the range holds.
    fn hit<'a>(&'a self, r: &Ray, t_range: Range<Scalar>) -> (rec: Option<HitRecord<'a>>) {
        let roots = match self.roots(r) {
            Some(roots) => roots,
            None => {
                return None;
            },
        };
        match select_root(&roots, &t_range) {
            Some(t) => {
                let center = self.center.at(r.time);
                let point = r.at(t);
                let outward_normal = point.sub(center).div(self.radius);
                let mut rec = HitRecord::new(point, outward_normal, t, &*self.material);
                rec.set_face_normal(r, outward_normal);
                Some(rec)
            },
            None => None,
        }
    }
}

/// Every sphere of a list is lawful.
pub proof fn lemma_spheres_lawful(spheres: Seq<Sphere>)
    ensures
        all_lawful(spheres),
{
    assert forall|i: int| 0 <= i < spheres.len() implies lawful(&#[trigger] spheres[i]) by {
        spheres[i].lemma_lawful();
    }
}

/// A scene of spheres returns the nearest hit: where one of the spheres has
/// a hit in the range, the scene reports a hit, and one that is no farther;
/// and where the reported hit is no nearer, it is the hit of that sphere or
/// of one before it.
pub proof fn lemma_spheres_hit_is_nearest(
    spheres: &Vec<Sphere>,
    r: Ray,
    t_range: Range<Scalar>,
    i: int,
)
    requires
        0 <= i < spheres.len(),
        spheres@[i].hit_spec(r, t_range) is Some,
    ensures
        spheres.hit_spec(r, t_range) matches Some(found) && found.t.le_spec(
            spheres@[i].hit_spec(r, t_range)->0.t,
        ),
        !spheres.hit_spec(r, t_range)->0.t.lt_spec(spheres@[i].hit_spec(r, t_range)->0.t)
            ==> exists|k: int|
            0 <= k <= i && #[trigger] spheres@[k].hit_spec(r, t_range) == spheres.hit_spec(
                r,
                t_range,
            ),
{
    lemma_spheres_lawful(spheres@);
    lemma_world_hit_is_nearest(spheres, r, t_range, i);
    if !spheres.hit_spec(r, t_range)->0.t.lt_spec(spheres@[i].hit_spec(r, t_range)->0.t) {
        lemma_world_hit_first_wins(spheres, r, t_range, i);
    }
}

} // verus!
