//! Surface materials: how a ray that hits a surface goes on.

use vstd::prelude::*;
use crate::ray::Ray;
use crate::scalar::{lit, Scalar, ONE_BITS, ZERO_BITS};
use crate::utils::{random, unit_draw};
use crate::vec3::{random_unit_vector, unit_sample, Point3, Vec3};

verus! {

/// A scattered ray and the colour by which it is attenuated.
#[derive(Clone, Copy, Debug)]
pub struct Reflect {
    pub attenuation: Point3,
    pub scattered: Ray,
}

/// The geometry of a hit, as a material sees it: where the ray met the
/// surface, the normal turned against the ray, the ray's parameter there, and
/// whether the ray came from outside.
#[derive(Clone, Copy, Debug)]
pub struct Contact {
    pub point: Point3,
    pub normal: Vec3,
    pub t: Scalar,
    pub front: bool,
}

/// How a surface scatters. `None` means that the ray is absorbed.
pub trait Material: Send + Sync {
    /// Whether `out` is among the results that `scatter` may return.
    spec fn may_scatter(&self, r_in: Ray, rec: Contact, out: Option<Reflect>) -> bool;

    fn scatter(&self, r_in: &Ray, rec: &Contact) -> (out: Option<Reflect>)
        ensures
            self.may_scatter(*r_in, *rec, out),
    ;
}

/// A matte surface: it scatters about the normal and never absorbs.
#[derive(Clone, Copy, Debug)]
pub struct Lambertian {
    pub albedo: Point3,
}

impl Lambertian {
    /// The direction in which the surface scatters for the unit vector `u`:
    /// `normal + u`, or the normal itself where that sum is near zero.
    pub open spec fn direction_spec(rec: Contact, u: Vec3) -> Vec3 {
        if rec.normal.add_spec(u).near_zero_spec() {
            rec.normal
        } else {
            rec.normal.add_spec(u)
        }
    }

    /// What the surface returns for the unit vector `u`. The scattered ray
    /// travels at the time of the incoming one.
    pub open spec fn scatter_spec(self, r_in: Ray, rec: Contact, u: Vec3) -> Reflect {
        Reflect {
            attenuation: self.albedo,
            scattered: Ray {
                origin: rec.point,
                direction: Lambertian::direction_spec(rec, u),
                time: r_in.time,
            },
        }
    }

    pub fn new(albedo: Point3) -> (r: Self)
        ensures
            r.albedo == albedo,
    {
        Lambertian { albedo }
    }

    /// Scatters with the unit vector `u` in place of a random one.
    pub fn scatter_with(&self, r_in: &Ray, rec: &Contact, u: Vec3) -> (out: Reflect)
        ensures
            out == self.scatter_spec(*r_in, *rec, u),
    {
        let sum = rec.normal.add(u);
        let direction = if sum.near_zero() {
            rec.normal
        } else {
            sum
        };
        Reflect {
            attenuation: self.albedo,
            scattered: Ray::construct(rec.point, direction, r_in.time),
        }
    }
}

impl Material for Lambertian {
    open spec fn may_scatter(&self, r_in: Ray, rec: Contact, out: Option<Reflect>) -> bool {
        exists|u: Vec3| unit_sample(u) && out == Some(#[trigger] self.scatter_spec(r_in, rec, u))
    }

    fn scatter(&self, r_in: &Ray, rec: &Contact) -> (out: Option<Reflect>) {
        let u = random_unit_vector();
        Some(self.scatter_with(r_in, rec, u))
    }
}

/// A polished surface: it mirrors the ray, blurred by `fuzz`, and absorbs
/// what would go into the surface.
#[derive(Clone, Copy, Debug)]
pub struct Metal {
    pub albedo: Point3,
    pub fuzz: Scalar,
}

impl Metal {
    /// The mirrored direction, moved by `fuzz * u`.
    pub open spec fn direction_spec(self, r_in: Ray, rec: Contact, u: Vec3) -> Vec3 {
        r_in.direction.unit_spec().reflect_spec(rec.normal).add_spec(u.mul_spec(self.fuzz))
    }

    /// Whether the direction for `u` leaves the surface: its dot product with
    /// the normal is above zero.
    pub open spec fn leaves_surface(self, r_in: Ray, rec: Contact, u: Vec3) -> bool {
        lit(ZERO_BITS).lt_spec(self.direction_spec(r_in, rec, u).dot_spec(rec.normal))
    }

    /// What the surface returns for the unit vector `u`.
    pub open spec fn scatter_spec(self, r_in: Ray, rec: Contact, u: Vec3) -> Option<Reflect> {
        if self.leaves_surface(r_in, rec, u) {
            Some(
                Reflect {
                    attenuation: self.albedo,
                    scattered: Ray {
                        origin: rec.point,
                        direction: self.direction_spec(r_in, rec, u),
                        time: r_in.time,
                    },
                },
            )
        } else {
            None
        }
    }

    pub fn new(albedo: Point3, fuzz: Scalar) -> (r: Self)
        ensures
            r.albedo == albedo,
            r.fuzz == fuzz,
    {
        Metal { albedo, fuzz }
    }

    /// Scatters with the unit vector `u` in place of a random one.
    pub fn scatter_with(&self, r_in: &Ray, rec: &Contact, u: Vec3) -> (out: Option<Reflect>)
        ensures
            out == self.scatter_spec(*r_in, *rec, u),
            out is Some <==> self.leaves_surface(*r_in, *rec, u),
    {
        let reflected = r_in.direction.unit().reflect_along(rec.normal);
        let direction = reflected.add(u.mul(self.fuzz));
        if direction.dot(rec.normal).gt(Scalar::zero()) {
            Some(
                Reflect {
                    attenuation: self.albedo,
                    scattered: Ray::construct(rec.point, direction, r_in.time),
                },
            )
        } else {
            None
        }
    }
}

impl Material for Metal {
    open spec fn may_scatter(&self, r_in: Ray, rec: Contact, out: Option<Reflect>) -> bool {
        exists|u: Vec3| unit_sample(u) && out == #[trigger] self.scatter_spec(r_in, rec, u)
    }

    fn scatter(&self, r_in: &Ray, rec: &Contact) -> (out: Option<Reflect>) {
        let u = random_unit_vector();
        self.scatter_with(r_in, rec, u)
    }
}

/// Schlick's estimate of the share of light that a clear surface mirrors:
/// `r0 + (1 - r0) (1 - cos)^5` with `r0 = ((1 - ri) / (1 + ri))^2`.
pub open spec fn reflectance_spec(cos_theta: Scalar, ri: Scalar) -> Scalar {
    let one = lit(ONE_BITS);
    let r0 = one.sub_spec(ri).div_spec(one.add_spec(ri)).squared_spec();
    let x = one.sub_spec(cos_theta);
    r0.add_spec(one.sub_spec(r0).mul_spec(x.mul_spec(x.squared_spec().squared_spec())))
}

pub fn reflectance(cos_theta: Scalar, ri: Scalar) -> (r: Scalar)
    ensures
        r == reflectance_spec(cos_theta, ri),
{
    let one = Scalar::one();
    let r0 = one.sub(ri).div(one.add(ri)).squared();
    let x = one.sub(cos_theta);
    r0.add(one.sub(r0).mul(x.mul(x.squared().squared())))
}

/// A clear surface such as glass: it mirrors or bends the ray and never
/// absorbs.
#[derive(Clone, Copy, Debug)]
pub struct Dielectric {
    pub eta: Scalar,
}

impl Dielectric {
    /// The ratio of refractive indices that the ray meets: `1 / eta` on the
    /// way in, `eta` on the way out.
    pub open spec fn ratio_spec(self, rec: Contact) -> Scalar {
        if rec.front {
            lit(ONE_BITS).div_spec(self.eta)
        } else {
            self.eta
        }
    }

    /// The sine of the angle of incidence: `sqrt(1 - cos^2)`.
    pub open spec fn incidence_sin_spec(r_in: Ray, rec: Contact) -> Scalar {
        let cos_theta = r_in.direction.unit_spec().incidence_cos_spec(rec.normal);
        lit(ONE_BITS).sub_spec(cos_theta.squared_spec()).sqrt_spec()
    }

    /// Whether the ray is mirrored for the draw `draw`: the medium admits no
    /// refracted ray, or the reflectance is above the draw.
    pub open spec fn mirrors(self, r_in: Ray, rec: Contact, draw: Scalar) -> bool {
        let ri = self.ratio_spec(rec);
        let cos_theta = r_in.direction.unit_spec().incidence_cos_spec(rec.normal);
        lit(ONE_BITS).lt_spec(Dielectric::incidence_sin_spec(r_in, rec).mul_spec(ri))
            || draw.lt_spec(reflectance_spec(cos_theta, ri))
    }

    pub open spec fn direction_spec(self, r_in: Ray, rec: Contact, draw: Scalar) -> Vec3 {
        let unit = r_in.direction.unit_spec();
        if self.mirrors(r_in, rec, draw) {
            unit.reflect_spec(rec.normal)
        } else {
            unit.refract_spec(rec.normal, self.ratio_spec(rec))
        }
    }

    /// What the surface returns for the draw `draw`.
    pub open spec fn scatter_spec(self, r_in: Ray, rec: Contact, draw: Scalar) -> Reflect {
        Reflect {
            attenuation: Vec3 { x: lit(ONE_BITS), y: lit(ONE_BITS), z: lit(ONE_BITS) },
            scattered: Ray {
                origin: rec.point,
                direction: self.direction_spec(r_in, rec, draw),
                time: r_in.time,
            },
        }
    }

    pub fn new(eta: Scalar) -> (r: Self)
        ensures
            r.eta == eta,
    {
        Dielectric { eta }
    }

    /// Scatters with `draw` in place of a random number from `[0, 1)`.
    pub fn scatter_with(&self, r_in: &Ray, rec: &Contact, draw: Scalar) -> (out: Reflect)
        ensures
            out == self.scatter_spec(*r_in, *rec, draw),
    {
        let one = Scalar::one();
        let ri = if rec.front {
            one.div(self.eta)
        } else {
            self.eta
        };
        let unit = r_in.direction.unit();
        let cos_theta = unit.neg().dot(rec.normal).min(one);
        let sin_theta = one.sub(cos_theta.squared()).sqrt();
        let cannot_refract = sin_theta.mul(ri).gt(one);
        let will_reflect = reflectance(cos_theta, ri).gt(draw);
        let direction = if cannot_refract || will_reflect {
            unit.reflect_along(rec.normal)
        } else {
            unit.refract_along(rec.normal, ri)
        };
        Reflect {
            attenuation: Vec3::from_point(one, one, one),
            scattered: Ray::construct(rec.point, direction, r_in.time),
        }
    }
}

impl Material for Dielectric {
    open spec fn may_scatter(&self, r_in: Ray, rec: Contact, out: Option<Reflect>) -> bool {
        exists|draw: Scalar|
            unit_draw(draw) && out == Some(#[trigger] self.scatter_spec(r_in, rec, draw))
    }

    fn scatter(&self, r_in: &Ray, rec: &Contact) -> (out: Option<Reflect>) {
        let draw = random();
        Some(self.scatter_with(r_in, rec, draw))
    }
}

/// The materials of this library as one type, so that a scene can mix them.
#[derive(Clone, Copy, Debug)]
pub enum Surface {
    Lambertian(Lambertian),
    Metal(Metal),
    Dielectric(Dielectric),
}

impl Material for Surface {
    open spec fn may_scatter(&self, r_in: Ray, rec: Contact, out: Option<Reflect>) -> bool {
        match *self {
            Surface::Lambertian(m) => m.may_scatter(r_in, rec, out),
            Surface::Metal(m) => m.may_scatter(r_in, rec, out),
            Surface::Dielectric(m) => m.may_scatter(r_in, rec, out),
        }
    }

    fn scatter(&self, r_in: &Ray, rec: &Contact) -> (out: Option<Reflect>) {
        match self {
            Surface::Lambertian(m) => m.scatter(r_in, rec),
            Surface::Metal(m) => m.scatter(r_in, rec),
            Surface::Dielectric(m) => m.scatter(r_in, rec),
        }
    }
}

/// A matte surface scatters every ray, attenuated by its albedo.
pub proof fn lemma_lambertian_never_absorbs(
    m: Lambertian,
    r_in: Ray,
    rec: Contact,
    out: Option<Reflect>,
)
    requires
        m.may_scatter(r_in, rec, out),
    ensures
        out is Some,
        out->0.attenuation == m.albedo,
{
}

/// A polished surface absorbs exactly when the direction that it formed
/// does not leave the surface.
pub proof fn lemma_metal_absorbs_inward(m: Metal, r_in: Ray, rec: Contact, out: Option<Reflect>)
    requires
        m.may_scatter(r_in, rec, out),
    ensures
        exists|u: Vec3|
            unit_sample(u) && out == #[trigger] m.scatter_spec(r_in, rec, u) && (out is None
                <==> !m.leaves_surface(r_in, rec, u)),
{
    let u = choose|u: Vec3| unit_sample(u) && out == #[trigger] m.scatter_spec(r_in, rec, u);
    assert(out is None <==> !m.leaves_surface(r_in, rec, u));
}

/// A clear surface scatters every ray and takes nothing from its colour.
pub proof fn lemma_dielectric_never_absorbs(
    m: Dielectric,
    r_in: Ray,
    rec: Contact,
    out: Option<Reflect>,
)
    requires
        m.may_scatter(r_in, rec, out),
    ensures
        out is Some,
        out->0.attenuation == (Vec3 { x: lit(ONE_BITS), y: lit(ONE_BITS), z: lit(ONE_BITS) }),
{
}

} // verus!
