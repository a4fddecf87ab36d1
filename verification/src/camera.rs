//! The camera: the viewport derived from its configuration, the rays through
//! its pixels, and the colour that a ray brings back.

use vstd::prelude::*;
use const_soft_float::soft_f32::SoftF32;
use rayon::iter::{IntoParallelIterator, ParallelIterator};
use crate::hittable::{HitRecord, Hittable};
use crate::material::{Material, Reflect};
use crate::ray::Ray;
use crate::scalar::{
    lit, truncated, Scalar, HALF_BITS, INFINITY_BITS, MINUS_ONE_BITS, ONE_BITS, TWO_BITS,
    ZERO_BITS,
};
use crate::utils::{random, random_range, range_draw, unit_draw};
use crate::vec3::{Point3, Vec3, MAX_DRAWS};

verus! {

/// The bit pattern of pi / 180, by which degrees become radians.
pub const RADIANS_PER_DEGREE_BITS: u32 = 0x3c8e_fa35;

/// Why a camera could not be made.
#[derive(Clone, Copy, Debug, PartialEq, Eq, Structural)]
pub enum CameraError {
    /// The width and the aspect ratio leave the image without a row.
    InvalidConfiguration,
}

/// The configuration of a camera and the viewport derived from it. The derived
/// part is computed once, when the camera is made.
#[derive(Clone, Copy, Debug)]
pub struct Camera {
    pub aspect_ratio: Scalar,
    pub image_width: u32,
    pub samples_per_pixel: u32,
    pub max_depth: u32,
    pub vfov: Scalar,
    pub defocus_angle: Scalar,
    pub focus_distance: Scalar,
    pub lookfrom: Vec3,
    pub lookat: Vec3,
    pub vup: Vec3,
    pub image_height: u32,
    pub camera_center: Point3,
    pub init_pixel_loc: Point3,
    pub delta_u: Vec3,
    pub delta_v: Vec3,
    pub defocus_u: Vec3,
    pub defocus_v: Vec3,
}

/// Calls `f32::tan` of the standard library, whose precision may differ from
/// one machine to another: nothing is claimed of the result.
#[verifier::external_body]
fn tangent(a: Scalar) -> (r: Scalar) {
    Scalar { bits: SoftF32::from_f32(SoftF32::from_bits(a.bits).to_f32().tan()).to_bits() }
}

/// Half of an angle given in degrees, in radians.
pub open spec fn half_angle_spec(degrees: Scalar) -> Scalar {
    degrees.mul_spec(lit(RADIANS_PER_DEGREE_BITS)).div_spec(lit(TWO_BITS))
}

pub fn half_angle(degrees: Scalar) -> (r: Scalar)
    ensures
        r == half_angle_spec(degrees),
{
    degrees.mul(Scalar::from_bits(RADIANS_PER_DEGREE_BITS)).div(Scalar::two())
}

/// The number of rows: the width over the aspect ratio, cut to an integer.
pub open spec fn image_height_spec(image_width: u32, aspect_ratio: Scalar) -> u32 {
    truncated(Scalar::from_u32_spec(image_width).div_spec(aspect_ratio).bits) as u32
}

impl Camera {
    /// The direction from the point looked at to the camera, of unit length.
    pub open spec fn basis_w(lookfrom: Vec3, lookat: Vec3) -> Vec3 {
        lookfrom.sub_spec(lookat).unit_spec()
    }

    /// The direction to the right of the camera, of unit length.
    pub open spec fn basis_u(lookfrom: Vec3, lookat: Vec3, vup: Vec3) -> Vec3 {
        vup.cross_spec(Camera::basis_w(lookfrom, lookat)).unit_spec()
    }

    /// The direction upwards of the camera.
    pub open spec fn basis_v(lookfrom: Vec3, lookat: Vec3, vup: Vec3) -> Vec3 {
        Camera::basis_w(lookfrom, lookat).cross_spec(Camera::basis_u(lookfrom, lookat, vup))
    }

    /// The height of the viewport: `2 tan(vfov / 2) focus_distance`.
    pub open spec fn viewport_height_spec(tan_half_vfov: Scalar, focus_distance: Scalar) -> Scalar {
        lit(TWO_BITS).mul_spec(tan_half_vfov).mul_spec(focus_distance)
    }

    /// The width of the viewport: its height times the ratio of the image's
    /// width to its height in pixels.
    pub open spec fn viewport_width_spec(self, tan_half_vfov: Scalar) -> Scalar {
        Camera::viewport_height_spec(tan_half_vfov, self.focus_distance).mul_spec(
            Scalar::from_u32_spec(self.image_width).div_spec(
                Scalar::from_u32_spec(self.image_height),
            ),
        )
    }

    /// The edge of the viewport along the rows.
    pub open spec fn viewport_u_spec(self, tan_half_vfov: Scalar) -> Vec3 {
        Camera::basis_u(self.lookfrom, self.lookat, self.vup).mul_spec(
            self.viewport_width_spec(tan_half_vfov),
        )
    }

    /// The edge of the viewport down the columns: rows are counted downwards,
    /// against the camera's upward direction.
    pub open spec fn viewport_v_spec(self, tan_half_vfov: Scalar) -> Vec3 {
        Camera::basis_v(self.lookfrom, self.lookat, self.vup).neg_spec().mul_spec(
            Camera::viewport_height_spec(tan_half_vfov, self.focus_distance),
        )
    }

    /// The upper left corner of the viewport.
    pub open spec fn viewport_topleft_spec(self, tan_half_vfov: Scalar) -> Vec3 {
        let w = Camera::basis_w(self.lookfrom, self.lookat);
        self.lookfrom.sub_spec(
            w.mul_spec(self.focus_distance).add_spec(
                self.viewport_u_spec(tan_half_vfov).div_spec(lit(TWO_BITS)),
            ).add_spec(self.viewport_v_spec(tan_half_vfov).div_spec(lit(TWO_BITS))),
        )
    }

    /// Whether the derived part of the camera is what its configuration and
    /// the two tangents give.
    pub open spec fn derived_from(self, tan_half_vfov: Scalar, tan_half_defocus: Scalar) -> bool {
        let u = Camera::basis_u(self.lookfrom, self.lookat, self.vup);
        let v = Camera::basis_v(self.lookfrom, self.lookat, self.vup);
        let defocus_radius = self.focus_distance.mul_spec(tan_half_defocus);
        &&& self.image_height == image_height_spec(self.image_width, self.aspect_ratio)
        &&& self.camera_center == self.lookfrom
        &&& self.delta_u == self.viewport_u_spec(tan_half_vfov).div_spec(
            Scalar::from_u32_spec(self.image_width),
        )
        &&& self.delta_v == self.viewport_v_spec(tan_half_vfov).div_spec(
            Scalar::from_u32_spec(self.image_height),
        )
        &&& self.init_pixel_loc == self.viewport_topleft_spec(tan_half_vfov).add_spec(
            self.delta_u.add_spec(self.delta_v).mul_spec(lit(HALF_BITS)),
        )
        &&& self.defocus_u == u.mul_spec(defocus_radius)
        &&& self.defocus_v == v.mul_spec(defocus_radius)
    }

    /// Whether the camera has the given configuration.
    pub open spec fn configured(
        self,
        aspect_ratio: Scalar,
        image_width: u32,
        samples_per_pixel: u32,
        max_depth: u32,
        vfov: Scalar,
        defocus_angle: Scalar,
        focus_distance: Scalar,
        lookfrom: Vec3,
        lookat: Vec3,
        vup: Vec3,
    ) -> bool {
        &&& self.aspect_ratio == aspect_ratio
        &&& self.image_width == image_width
        &&& self.samples_per_pixel == samples_per_pixel
        &&& self.max_depth == max_depth
        &&& self.vfov == vfov
        &&& self.defocus_angle == defocus_angle
        &&& self.focus_distance == focus_distance
        &&& self.lookfrom == lookfrom
        &&& self.lookat == lookat
        &&& self.vup == vup
    }

    /// Makes a camera from its configuration and from the tangents of half
    /// the field of view and of half the defocus angle. It fails where the
    /// image would have no row.
    pub fn from_tangents(
        aspect_ratio: Scalar,
        image_width: u32,
        samples_per_pixel: u32,
        max_depth: u32,
        vfov: Scalar,
        defocus_angle: Scalar,
        focus_distance: Scalar,
        lookfrom: Vec3,
        lookat: Vec3,
        vup: Vec3,
        tan_half_vfov: Scalar,
        tan_half_defocus: Scalar,
    ) -> (r: Result<Camera, CameraError>)
        ensures
            r is Err <==> image_height_spec(image_width, aspect_ratio) == 0,
            r matches Err(e) ==> e == CameraError::InvalidConfiguration,
            r matches Ok(camera) ==> camera.configured(
                aspect_ratio,
                image_width,
                samples_per_pixel,
                max_depth,
                vfov,
                defocus_angle,
                focus_distance,
                lookfrom,
                lookat,
                vup,
            ) && camera.derived_from(tan_half_vfov, tan_half_defocus),
    {
        let width = Scalar::from_u32(image_width);
        let image_height = width.div(aspect_ratio).to_u32();
        if image_height == 0 {
            return Err(CameraError::InvalidConfiguration);
        }
        let height = Scalar::from_u32(image_height);
        let viewport_height = Scalar::two().mul(tan_half_vfov).mul(focus_distance);
        let viewport_width = viewport_height.mul(width.div(height));
        let w = lookfrom.sub(lookat).unit();
        let u = vup.cross(w).unit();
        let v = w.cross(u);
        let viewport_u = u.mul(viewport_width);
        let viewport_v = v.neg().mul(viewport_height);
        let delta_u = viewport_u.div(width);
        let delta_v = viewport_v.div(height);
        let viewport_topleft = lookfrom.sub(
            w.mul(focus_distance).add(viewport_u.div(Scalar::two())).add(
                viewport_v.div(Scalar::two()),
            ),
        );
        let init_pixel_loc = viewport_topleft.add(delta_u.add(delta_v).mul(Scalar::half()));
        let defocus_radius = focus_distance.mul(tan_half_defocus);
        Ok(
            Camera {
                aspect_ratio,
                image_width,
                samples_per_pixel,
                max_depth,
                vfov,
                defocus_angle,
                focus_distance,
                lookfrom,
                lookat,
                vup,
                image_height,
                camera_center: lookfrom,
                init_pixel_loc,
                delta_u,
                delta_v,
                defocus_u: u.mul(defocus_radius),
                defocus_v: v.mul(defocus_radius),
            },
        )
    }

    /// Makes a camera and derives its viewport. The angles are in degrees. It
    /// fails where the image would have no row.
    pub fn new(
        aspect_ratio: Scalar,
        image_width: u32,
        samples_per_pixel: u32,
        max_depth: u32,
        vfov: Scalar,
        defocus_angle: Scalar,
        focus_distance: Scalar,
        lookfrom: Vec3,
        lookat: Vec3,
        vup: Vec3,
    ) -> (r: Result<Camera, CameraError>)
        ensures
            r is Err <==> image_height_spec(image_width, aspect_ratio) == 0,
            r matches Err(e) ==> e == CameraError::InvalidConfiguration,
            r matches Ok(camera) ==> camera.configured(
                aspect_ratio,
                image_width,
                samples_per_pixel,
                max_depth,
                vfov,
                defocus_angle,
                focus_distance,
                lookfrom,
                lookat,
                vup,
            ) && exists|tan_half_vfov: Scalar, tan_half_defocus: Scalar| #[trigger]
                camera.derived_from(tan_half_vfov, tan_half_defocus),
    {
        let tan_half_vfov = tangent(half_angle(vfov));
        let tan_half_defocus = tangent(half_angle(defocus_angle));
        Camera::from_tangents(
            aspect_ratio,
            image_width,
            samples_per_pixel,
            max_depth,
            vfov,
            defocus_angle,
            focus_distance,
            lookfrom,
            lookat,
            vup,
            tan_half_vfov,
            tan_half_defocus,
        )
    }
}

/// A point of the square `[-1, 1)^2`, a candidate for a point of the lens.
pub struct LensPoint {
    pub x: Scalar,
    pub y: Scalar,
}

/// Whether a point lies in the square `[-1, 1)^2`.
pub open spec fn lens_candidate(p: LensPoint) -> bool {
    range_draw(lit(MINUS_ONE_BITS)..lit(ONE_BITS), p.x) && range_draw(
        lit(MINUS_ONE_BITS)..lit(ONE_BITS),
        p.y,
    )
}

/// Whether a point lies inside the unit disc.
pub open spec fn on_lens(p: LensPoint) -> bool {
    p.x.squared_spec().add_spec(p.y.squared_spec()).lt_spec(lit(ONE_BITS))
}

/// Whether none of a list of points lies inside the unit disc.
pub open spec fn none_on_lens(candidates: Seq<LensPoint>) -> bool {
    forall|i: int| 0 <= i < candidates.len() ==> !on_lens(#[trigger] candidates[i])
}

impl Camera {
    /// Where the point `p` of the unit disc lies on the lens, from its centre.
    pub open spec fn lens_offset_spec(self, p: LensPoint) -> Vec3 {
        self.defocus_u.mul_spec(p.x).add_spec(self.defocus_v.mul_spec(p.y))
    }

    /// The offset on the lens that a list of candidates yields: that of the
    /// first one inside the unit disc; none where no candidate is.
    pub open spec fn pick_lens(self, candidates: Seq<LensPoint>) -> Vec3
        decreases candidates.len(),
    {
        if candidates.len() == 0 {
            Vec3::zero_spec()
        } else if on_lens(candidates[0]) {
            self.lens_offset_spec(candidates[0])
        } else {
            self.pick_lens(candidates.drop_first())
        }
    }

    /// What every result of `sample_disc` satisfies: it is what some list of
    /// at most `MAX_DRAWS` candidates of the square yields, and a list of
    /// which none lies inside the disc has all `MAX_DRAWS` of them. So the
    /// result is the offset of a candidate inside the disc, unless
    /// `MAX_DRAWS` candidates were drawn and rejected.
    pub open spec fn lens_sample(self, offset: Vec3) -> bool {
        exists|candidates: Seq<LensPoint>|
            #![trigger self.pick_lens(candidates)]
            candidates.len() <= MAX_DRAWS && (forall|i: int|
                0 <= i < candidates.len() ==> lens_candidate(#[trigger] candidates[i])) && (
            none_on_lens(candidates) ==> candidates.len() == MAX_DRAWS) && offset
                == self.pick_lens(candidates)
    }

    /// The offset within a pixel for two draws from `[0, 1)`:
    /// `0.5 a delta_u + 0.5 b delta_v`.
    pub open spec fn jitter_spec(self, a: Scalar, b: Scalar) -> Vec3 {
        self.delta_u.mul_spec(lit(HALF_BITS).mul_spec(a)).add_spec(
            self.delta_v.mul_spec(lit(HALF_BITS).mul_spec(b)),
        )
    }

    /// What every result of `pixel_sample_square` satisfies.
    pub open spec fn jitter_sample(self, jitter: Vec3) -> bool {
        exists|a: Scalar, b: Scalar|
            unit_draw(a) && unit_draw(b) && jitter == #[trigger] self.jitter_spec(a, b)
    }

    /// The ray through pixel `(i, j)`, moved within the pixel by `jitter`,
    /// from the point of the lens at `lens` from its centre.
    pub open spec fn ray_through_spec(self, i: u32, j: u32, jitter: Vec3, lens: Vec3) -> Ray {
        let pixel = self.init_pixel_loc.add_spec(
            self.delta_u.mul_spec(Scalar::from_u32_spec(i)),
        ).add_spec(self.delta_v.mul_spec(Scalar::from_u32_spec(j))).add_spec(jitter);
        let origin = self.camera_center.add_spec(lens);
        Ray { origin, direction: pixel.sub_spec(origin), time: lit(ZERO_BITS) }
    }

    /// Whether the camera is a pinhole: its defocus angle is zero or below.
    pub open spec fn pinhole(self) -> bool {
        self.defocus_angle.le_spec(lit(ZERO_BITS))
    }

    /// What every result of `get_ray(i, j)` satisfies: it is the ray through
    /// the pixel for some jitter and, unless the camera is a pinhole, for
    /// some point of the lens.
    pub open spec fn may_ray(self, i: u32, j: u32, r: Ray) -> bool {
        exists|jitter: Vec3, lens: Vec3|
            #![trigger self.ray_through_spec(i, j, jitter, lens)]
            self.jitter_sample(jitter) && (if self.pinhole() {
                lens == Vec3::zero_spec()
            } else {
                self.lens_sample(lens)
            }) && r == self.ray_through_spec(i, j, jitter, lens)
    }

    /// Rejected candidates do not change what a list yields.
    pub proof fn lemma_pick_lens_after_rejected(self, rejected: Seq<LensPoint>, rest: Seq<LensPoint>)
        requires
            forall|i: int| 0 <= i < rejected.len() ==> !on_lens(#[trigger] rejected[i]),
        ensures
            self.pick_lens(rejected + rest) == self.pick_lens(rest),
        decreases rejected.len(),
    {
        if rejected.len() == 0 {
            assert(rejected + rest =~= rest);
        } else {
            let all = rejected + rest;
            assert(all[0] == rejected[0]);
            assert(all.drop_first() =~= rejected.drop_first() + rest);
            assert forall|i: int| 0 <= i < rejected.drop_first().len() implies !on_lens(
                #[trigger] rejected.drop_first()[i],
            ) by {
                assert(rejected.drop_first()[i] == rejected[i + 1]);
            }
            self.lemma_pick_lens_after_rejected(rejected.drop_first(), rest);
        }
    }

    /// The offset on the lens that a list of candidates yields.
    pub fn lens_from_candidates(&self, candidates: &Vec<LensPoint>) -> (r: Vec3)
        ensures
            r == self.pick_lens(candidates@),
    {
        let mut i: usize = 0;
        assert(candidates@.skip(0) =~= candidates@);
        while i < candidates.len()
            invariant
                i <= candidates.len(),
                self.pick_lens(candidates@) == self.pick_lens(candidates@.skip(i as int)),
            decreases candidates.len() - i,
        {
            let x = candidates[i].x;
            let y = candidates[i].y;
            proof {
                let rest = candidates@.skip(i as int);
                assert(rest[0] == candidates@[i as int]);
                assert(rest.drop_first() =~= candidates@.skip(i + 1));
            }
            if x.squared().add(y.squared()).lt(Scalar::one()) {
                return self.defocus_u.mul(x).add(self.defocus_v.mul(y));
            }
            i += 1;
        }
        Vec3::new()
    }

    /// A random offset within one pixel.
    pub fn pixel_sample_square(&self) -> (r: Vec3)
        ensures
            self.jitter_sample(r),
    {
        let a = random();
        let b = random();
        let r = self.delta_u.mul(Scalar::half().mul(a)).add(
            self.delta_v.mul(Scalar::half().mul(b)),
        );
        assert(r == self.jitter_spec(a, b));
        r
    }

    /// A random point of the lens, from its centre: candidates are drawn from
    /// the square `[-1, 1)^2` until one lies inside the unit disc. After
    /// `MAX_DRAWS` rejected candidates the centre is returned.
    pub fn sample_disc(&self) -> (r: Vec3)
        ensures
            self.lens_sample(r),
    {
        let lo = Scalar::from_bits(MINUS_ONE_BITS);
        let hi = Scalar::one();
        let ghost mut drawn: Seq<LensPoint> = Seq::empty();
        let mut tries: u32 = 0;
        while tries < MAX_DRAWS
            invariant
                tries <= MAX_DRAWS,
                lo.bits == MINUS_ONE_BITS,
                hi.bits == ONE_BITS,
                drawn.len() == tries,
                forall|i: int| 0 <= i < drawn.len() ==> lens_candidate(#[trigger] drawn[i]),
                forall|i: int| 0 <= i < drawn.len() ==> !on_lens(#[trigger] drawn[i]),
            decreases MAX_DRAWS - tries,
        {
            let x = random_range(lo..hi);
            let y = random_range(lo..hi);
            let ghost p = LensPoint { x, y };
            if x.squared().add(y.squared()).lt(Scalar::one()) {
                let r = self.defocus_u.mul(x).add(self.defocus_v.mul(y));
                proof {
                    let last = seq![p];
                    let all = drawn + last;
                    self.lemma_pick_lens_after_rejected(drawn, last);
                    assert(last.drop_first() =~= Seq::<LensPoint>::empty());
                    assert(self.pick_lens(last) == self.lens_offset_spec(p));
                    assert forall|i: int| 0 <= i < all.len() implies lens_candidate(
                        #[trigger] all[i],
                    ) by {
                        if i < drawn.len() {
                            assert(all[i] == drawn[i]);
                        } else {
                            assert(all[i] == p);
                        }
                    }
                    assert(all[all.len() - 1] == p);
                    assert(!none_on_lens(all));
                    assert(r == self.pick_lens(all));
                }
                return r;
            }
            proof {
                let next = drawn.push(p);
                assert forall|i: int| 0 <= i < next.len() implies lens_candidate(
                    #[trigger] next[i],
                ) by {
                    if i < drawn.len() {
                        assert(next[i] == drawn[i]);
                    }
                }
                assert forall|i: int| 0 <= i < next.len() implies !on_lens(#[trigger] next[i]) by {
                    if i < drawn.len() {
                        assert(next[i] == drawn[i]);
                    }
                }
                drawn = next;
            }
            tries += 1;
        }
        proof {
            self.lemma_pick_lens_after_rejected(drawn, Seq::<LensPoint>::empty());
            assert(drawn + Seq::<LensPoint>::empty() =~= drawn);
            assert(self.pick_lens(drawn) == Vec3::zero_spec());
        }
        Vec3::new()
    }

    /// The ray through pixel `(i, j)` for a given jitter and point of the lens.
    pub fn ray_through(&self, i: u32, j: u32, jitter: Vec3, lens: Vec3) -> (r: Ray)
        ensures
            r == self.ray_through_spec(i, j, jitter, lens),
    {
        let pixel = self.init_pixel_loc.add(self.delta_u.mul(Scalar::from_u32(i))).add(
            self.delta_v.mul(Scalar::from_u32(j)),
        ).add(jitter);
        let origin = self.camera_center.add(lens);
        Ray::construct(origin, pixel.sub(origin), Scalar::zero())
    }

    /// A random ray through pixel `(i, j)`: jittered within the pixel and,
    /// unless the camera is a pinhole, starting from a random point of the lens.
    pub fn get_ray(&self, i: u32, j: u32) -> (r: Ray)
        ensures
            self.may_ray(i, j, r),
    {
        let jitter = self.pixel_sample_square();
        let lens = if self.defocus_angle.le(Scalar::zero()) {
            Vec3::new()
        } else {
            self.sample_disc()
        };
        let r = self.ray_through(i, j, jitter, lens);
        assert(r == self.ray_through_spec(i, j, jitter, lens));
        r
    }
}

/// The bit pattern of `0.001`, below which a hit is taken for the surface
/// that the ray has just left.
pub const SHADOW_BIAS_BITS: u32 = 0x3a83_126f;

/// The bit pattern of `0.7`.
pub const SKY_GREEN_BITS: u32 = 0x3f33_3333;

/// The colour of the sky in the direction of the ray: white at the bottom,
/// blue at the top, `(1 - a) white + a blue` with `a = 0.5 (y + 1)` for the
/// height `y` of the unit direction.
pub open spec fn sky_spec(r: Ray) -> Vec3 {
    let one = lit(ONE_BITS);
    let a = lit(HALF_BITS).mul_spec(r.direction.unit_spec().y.add_spec(one));
    let white = Vec3 { x: one, y: one, z: one };
    let blue = Vec3 { x: lit(HALF_BITS), y: lit(SKY_GREEN_BITS), z: one };
    white.mul_spec(one.sub_spec(a)).add_spec(blue.mul_spec(a))
}

pub fn sky(r: &Ray) -> (c: Vec3)
    ensures
        c == sky_spec(*r),
{
    let one = Scalar::one();
    let a = Scalar::half().mul(r.direction.unit().y.add(one));
    let white = Vec3::from_point(one, one, one);
    let blue = Vec3::from_point(Scalar::half(), Scalar::from_bits(SKY_GREEN_BITS), one);
    white.mul(one.sub(a)).add(blue.mul(a))
}

/// The hit of a ray in the scene, beyond the bias that keeps it off the
/// surface it starts from.
pub open spec fn first_hit_spec<W: Hittable>(r: Ray, world: &W) -> Option<HitRecord> {
    world.hit_spec(r, lit(SHADOW_BIAS_BITS)..lit(INFINITY_BITS))
}

/// The colour of a scattering: black where the material absorbed, else the
/// attenuation times the colour `inner` of the scattered ray.
pub open spec fn attenuated(out: Option<Reflect>, inner: Vec3) -> Vec3 {
    match out {
        None => Vec3::zero_spec(),
        Some(reflect) => reflect.attenuation.mul_vec_spec(inner),
    }
}

/// Whether `c` is among the colours that `ray_colour` may return: black at
/// depth zero; the sky where the ray hits nothing; black where the material
/// absorbs; else the attenuation times a colour of the scattered ray at one
/// depth less.
pub open spec fn may_colour<W: Hittable>(r: Ray, world: &W, depth: nat, c: Vec3) -> bool
    decreases depth,
{
    if depth == 0 {
        c == Vec3::zero_spec()
    } else {
        match first_hit_spec(r, world) {
            None => c == sky_spec(r),
            Some(rec) => exists|out: Option<Reflect>, inner: Vec3|
                #![trigger attenuated(out, inner)]
                rec.material.may_scatter(r, rec.contact_spec(), out) && (out matches Some(reflect)
                    ==> may_colour(reflect.scattered, world, (depth - 1) as nat, inner)) && c
                    == attenuated(out, inner),
        }
    }
}

/// The colour that a ray brings back, followed for at most `depth` hits.
pub fn ray_colour<W: Hittable>(r: &Ray, world: &W, depth: u32) -> (c: Vec3)
    ensures
        may_colour(*r, world, depth as nat, c),
        depth == 0 ==> c == Vec3::zero_spec(),
    decreases depth,
{
    if depth == 0 {
        return Vec3::new();
    }
    let t_range = Scalar::from_bits(SHADOW_BIAS_BITS)..Scalar::infinity();
    match world.hit(r, t_range) {
        Some(rec) => {
            let contact = rec.contact();
            let out = rec.material.scatter(r, &contact);
            match out {
                Some(reflect) => {
                    let inner = ray_colour(&reflect.scattered, world, depth - 1);
                    let c = reflect.attenuation.mul_vec(inner);
                    assert(c == attenuated(out, inner));
                    c
                },
                None => {
                    let c = Vec3::new();
                    assert(c == attenuated(out, c));
                    c
                },
            }
        },
        None => sky(r),
    }
}

/// The bit pattern of `256.0`.
pub const CHANNEL_SCALE_BITS: u32 = 0x4380_0000;

/// The largest value of a channel.
pub const CHANNEL_MAX: u32 = 255;

/// One pixel of the image: three channels from 0 to 255.
#[derive(Clone, Copy, Debug, PartialEq, Eq, Structural)]
pub struct Pixel {
    pub r: u8,
    pub g: u8,
    pub b: u8,
}

/// A value held to `[0, 1]`. A NaN stays a NaN.
pub open spec fn clamp_spec(x: Scalar) -> Scalar {
    if x.lt_spec(lit(ZERO_BITS)) {
        lit(ZERO_BITS)
    } else if lit(ONE_BITS).lt_spec(x) {
        lit(ONE_BITS)
    } else {
        x
    }
}

pub fn clamp(x: Scalar) -> (r: Scalar)
    ensures
        r == clamp_spec(x),
{
    if x.lt(Scalar::zero()) {
        Scalar::zero()
    } else if x.gt(Scalar::one()) {
        Scalar::one()
    } else {
        x
    }
}

/// The channel of a linear value: `256 sqrt(x)` for `x` held to `[0, 1]`,
/// cut to an integer and held to 255. A NaN gives 0.
pub open spec fn channel_spec(x: Scalar) -> int {
    let scaled = truncated(lit(CHANNEL_SCALE_BITS).mul_spec(clamp_spec(x).sqrt_spec()).bits);
    if scaled > CHANNEL_MAX {
        CHANNEL_MAX as int
    } else {
        scaled
    }
}

pub fn channel(x: Scalar) -> (r: u8)
    ensures
        r == channel_spec(x),
{
    let scaled = Scalar::from_bits(CHANNEL_SCALE_BITS).mul(clamp(x).sqrt()).to_u32();
    if scaled > CHANNEL_MAX {
        255u8
    } else {
        scaled as u8
    }
}

/// The pixel of a linear colour.
pub open spec fn pixel_spec(c: Vec3) -> Pixel {
    Pixel { r: channel_spec(c.x) as u8, g: channel_spec(c.y) as u8, b: channel_spec(c.z) as u8 }
}

pub fn pixel(c: Vec3) -> (r: Pixel)
    ensures
        r == pixel_spec(c),
{
    Pixel { r: channel(c.x), g: channel(c.y), b: channel(c.z) }
}

/// The sum of a list of colours, added one after the other to black.
pub open spec fn sum_spec(colours: Seq<Vec3>) -> Vec3
    decreases colours.len(),
{
    if colours.len() == 0 {
        Vec3::zero_spec()
    } else {
        sum_spec(colours.drop_last()).add_spec(colours.last())
    }
}

/// The arithmetic mean of a list of colours: their sum over their number.
pub open spec fn mean_spec(colours: Seq<Vec3>) -> Vec3 {
    sum_spec(colours).div_spec(Scalar::from_u32_spec(colours.len() as u32))
}

pub fn sum(colours: &Vec<Vec3>) -> (r: Vec3)
    ensures
        r == sum_spec(colours@),
{
    let mut total = Vec3::new();
    let mut k: usize = 0;
    while k < colours.len()
        invariant
            k <= colours.len(),
            total == sum_spec(colours@.take(k as int)),
        decreases colours.len() - k,
    {
        proof {
            let next = colours@.take(k + 1);
            assert(next.drop_last() =~= colours@.take(k as int));
            assert(next.last() == colours@[k as int]);
        }
        total = total.add(colours[k]);
        k += 1;
    }
    assert(colours@.take(colours.len() as int) =~= colours@);
    total
}

/// The arithmetic mean of a list of colours.
pub fn mean(colours: &Vec<Vec3>) -> (r: Vec3)
    requires
        colours.len() <= u32::MAX,
    ensures
        r == mean_spec(colours@),
{
    sum(colours).div(Scalar::from_u32(colours.len() as u32))
}

/// Adding one more colour to a list adds it to the sum.
pub proof fn lemma_sum_push(colours: Seq<Vec3>, c: Vec3)
    ensures
        sum_spec(colours.push(c)) == sum_spec(colours).add_spec(c),
{
    assert(colours.push(c).drop_last() =~= colours);
}

impl Camera {
    /// Whether `c` is among the colours that one sample of pixel `(i, j)` may
    /// have: a colour of one of the rays through the pixel.
    pub open spec fn may_sample<W: Hittable>(self, world: &W, i: u32, j: u32, c: Vec3) -> bool {
        exists|r: Ray|
            #![trigger may_colour(r, world, self.max_depth as nat, c)]
            self.may_ray(i, j, r) && may_colour(r, world, self.max_depth as nat, c)
    }

    /// Whether `samples` may be the samples of pixel `(i, j)`: as many as the
    /// camera takes of a pixel, each a sample of that pixel.
    pub open spec fn may_samples<W: Hittable>(
        self,
        world: &W,
        i: u32,
        j: u32,
        samples: Seq<Vec3>,
    ) -> bool {
        &&& samples.len() == self.samples_per_pixel
        &&& forall|k: int|
            0 <= k < samples.len() ==> self.may_sample(world, i, j, #[trigger] samples[k])
    }

    /// Whether `c` is among the colours that pixel `(i, j)` may have: the mean
    /// of its samples.
    pub open spec fn may_render<W: Hittable>(self, world: &W, i: u32, j: u32, c: Vec3) -> bool {
        exists|samples: Seq<Vec3>|
            #![trigger mean_spec(samples)]
            self.may_samples(world, i, j, samples) && c == mean_spec(samples)
    }

    /// The colour of one random ray through pixel `(i, j)`.
    pub fn sample<W: Hittable>(&self, world: &W, i: u32, j: u32) -> (c: Vec3)
        ensures
            self.may_sample(world, i, j, c),
    {
        let r = self.get_ray(i, j);
        ray_colour(&r, world, self.max_depth)
    }

    /// The colour of pixel `(i, j)`: the mean of its samples, which are taken
    /// side by side.
    pub fn render_pixel<W: Hittable>(&self, world: &W, i: u32, j: u32) -> (c: Vec3)
        ensures
            self.may_render(world, i, j, c),
    {
        let samples = par_samples(self, world, i, j);
        mean(&samples)
    }

    /// Whether `p` may be the pixel numbered `n` of a rendering, counted row
    /// after row from the top, each row from left to right: the pixel of one
    /// of the colours of column `n % width` in row `n / width`.
    pub open spec fn may_pixel<W: Hittable>(self, world: &W, n: int, p: Pixel) -> bool {
        exists|c: Vec3|
            #![trigger pixel_spec(c)]
            self.may_render(
                world,
                (n % self.image_width as int) as u32,
                (n / self.image_width as int) as u32,
                c,
            ) && p == pixel_spec(c)
    }

    /// Whether `image` may hold the first `n` pixels of a rendering.
    pub open spec fn rendered_upto<W: Hittable>(self, world: &W, image: Seq<Pixel>, n: int) -> bool {
        &&& image.len() == n
        &&& forall|m: int| 0 <= m < image.len() ==> self.may_pixel(world, m, #[trigger] image[m])
    }

    /// Whether `image` may be the image that the camera renders of the world:
    /// `image_width * image_height` pixels, each of them one that the camera
    /// may render in its place.
    pub open spec fn may_image<W: Hittable>(self, world: &W, image: Seq<Pixel>) -> bool {
        self.rendered_upto(world, image, self.image_width * self.image_height)
    }

    /// Renders the world: the pixels of the image, row after row from the
    /// top, each row from left to right.
    pub fn render<W: Hittable>(&self, world: &W) -> (image: Vec<Pixel>)
        requires
            self.image_width * self.image_height <= usize::MAX,
        ensures
            self.may_image(world, image@),
    {
        let mut image: Vec<Pixel> = Vec::new();
        let mut j: u32 = 0;
        while j < self.image_height
            invariant
                j <= self.image_height,
                self.image_width * self.image_height <= usize::MAX,
                self.rendered_upto(world, image@, j * self.image_width),
            decreases self.image_height - j,
        {
            let mut i: u32 = 0;
            while i < self.image_width
                invariant
                    i <= self.image_width,
                    j < self.image_height,
                    self.image_width * self.image_height <= usize::MAX,
                    self.rendered_upto(world, image@, j * self.image_width + i),
                decreases self.image_width - i,
            {
                let c = self.render_pixel(world, i, j);
                let p = pixel(c);
                let ghost before = image@;
                let ghost n = j * self.image_width + i;
                proof {
                    lemma_row_major(self.image_width as int, i as int, j as int);
                    assert(n + 1 <= self.image_width * self.image_height) by (nonlinear_arith)
                        requires
                            n == j * self.image_width + i,
                            i < self.image_width,
                            j < self.image_height,
                    ;
                    assert(self.may_pixel(world, n, p));
                }
                image.push(p);
                proof {
                    assert forall|m: int| 0 <= m < image@.len() implies self.may_pixel(
                        world,
                        m,
                        #[trigger] image@[m],
                    ) by {
                        if m < n {
                            assert(image@[m] == before[m]);
                        }
                    }
                }
                i += 1;
            }
            proof {
                assert((j + 1) * self.image_width == j * self.image_width + self.image_width)
                    by (nonlinear_arith);
            }
            j += 1;
        }
        assert(self.image_height * self.image_width == self.image_width * self.image_height)
            by (nonlinear_arith);
        image
    }
}

/// A pixel rendered from a list of samples is their arithmetic mean, their
/// sum over their number; and a camera that takes one sample of a pixel
/// renders, of each of those samples, the mean of that sample alone.
pub proof fn lemma_render_is_mean_of_samples<W: Hittable>(
    camera: Camera,
    single: Camera,
    world: &W,
    i: u32,
    j: u32,
    samples: Seq<Vec3>,
)
    requires
        camera.may_samples(world, i, j, samples),
        single == (Camera { samples_per_pixel: 1, ..camera }),
    ensures
        camera.may_render(world, i, j, mean_spec(samples)),
        mean_spec(samples) == sum_spec(samples).div_spec(
            Scalar::from_u32_spec(camera.samples_per_pixel),
        ),
        forall|k: int|
            0 <= k < samples.len() ==> single.may_render(
                world,
                i,
                j,
                #[trigger] mean_spec(seq![samples[k]]),
            ),
{
    assert forall|k: int| 0 <= k < samples.len() implies single.may_render(
        world,
        i,
        j,
        #[trigger] mean_spec(seq![samples[k]]),
    ) by {
        let one = seq![samples[k]];
        assert(camera.may_sample(world, i, j, samples[k]));
        let r = choose|r: Ray|
            #![trigger may_colour(r, world, camera.max_depth as nat, samples[k])]
            camera.may_ray(i, j, r) && may_colour(r, world, camera.max_depth as nat, samples[k]);
        lemma_may_ray_without_count(camera, single, i, j, r);
        assert(may_colour(r, world, single.max_depth as nat, samples[k]));
        assert(single.may_sample(world, i, j, one[0]));
        assert(single.may_samples(world, i, j, one));
    }
}

/// The rays through a pixel do not depend on how many samples are taken.
pub proof fn lemma_may_ray_without_count(camera: Camera, single: Camera, i: u32, j: u32, r: Ray)
    requires
        camera.may_ray(i, j, r),
        single == (Camera { samples_per_pixel: 1, ..camera }),
    ensures
        single.may_ray(i, j, r),
{
    let (jitter, lens) = choose|jitter: Vec3, lens: Vec3|
        #![trigger camera.ray_through_spec(i, j, jitter, lens)]
        camera.jitter_sample(jitter) && (if camera.pinhole() {
            lens == Vec3::zero_spec()
        } else {
            camera.lens_sample(lens)
        }) && r == camera.ray_through_spec(i, j, jitter, lens);
    let (a, b) = choose|a: Scalar, b: Scalar|
        unit_draw(a) && unit_draw(b) && jitter == #[trigger] camera.jitter_spec(a, b);
    assert(jitter == single.jitter_spec(a, b));
    assert(single.jitter_sample(jitter));
    if !camera.pinhole() {
        let candidates = choose|candidates: Seq<LensPoint>|
            #![trigger camera.pick_lens(candidates)]
            candidates.len() <= MAX_DRAWS && (forall|i: int|
                0 <= i < candidates.len() ==> lens_candidate(#[trigger] candidates[i])) && (
            none_on_lens(candidates) ==> candidates.len() == MAX_DRAWS) && lens
                == camera.pick_lens(candidates);
        lemma_pick_lens_without_count(camera, single, candidates);
        assert(lens == single.pick_lens(candidates));
        assert(single.lens_sample(lens));
    }
    assert(r == single.ray_through_spec(i, j, jitter, lens));
}

/// The point of the lens that a list of candidates yields does not depend on
/// how many samples are taken.
pub proof fn lemma_pick_lens_without_count(
    camera: Camera,
    single: Camera,
    candidates: Seq<LensPoint>,
)
    requires
        single == (Camera { samples_per_pixel: 1, ..camera }),
    ensures
        camera.pick_lens(candidates) == single.pick_lens(candidates),
    decreases candidates.len(),
{
    if candidates.len() > 0 && !on_lens(candidates[0]) {
        lemma_pick_lens_without_count(camera, single, candidates.drop_first());
    }
}

/// In an image `width` wide, the pixel in column `i` of row `j` is the one
/// numbered `j * width + i`.
pub proof fn lemma_row_major(width: int, i: int, j: int)
    requires
        0 <= i < width,
        0 <= j,
    ensures
        (j * width + i) % width == i,
        (j * width + i) / width == j,
{
    vstd::arithmetic::div_mod::lemma_fundamental_div_mod_converse(j * width + i, width, j, i);
}

/// Calls rayon's `into_par_iter`, `map` and `collect` on the range of sample
/// numbers: one call of `Camera::sample` for each, side by side, the results
/// in a vector. The vector has one colour for each sample, and each is a
/// result of `Camera::sample`; which ones is not stated.
#[verifier::external_body]
fn par_samples<W: Hittable>(camera: &Camera, world: &W, i: u32, j: u32) -> (samples: Vec<Vec3>)
    ensures
        camera.may_samples(world, i, j, samples@),
{
    (0..camera.samples_per_pixel).into_par_iter().map(|_| camera.sample(world, i, j)).collect()
}

} // verus!
