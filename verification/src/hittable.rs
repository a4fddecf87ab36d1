//! Hit records, the intersection capability, and the scene as a list of
//! intersectable objects.

use vstd::prelude::*;
use core::ops::Range;
use crate::material::{Contact, Surface};
use crate::ray::Ray;
use crate::scalar::{lit, Scalar, ZERO_BITS};
use crate::vec3::{dot_without_nan, lemma_dot_negated, Point3, Vec3};

verus! {

/// What is known of one intersection. The normal points against the incident
/// ray once `set_face_normal` has run.
pub struct HitRecord<'a> {
    pub point: Point3,
    pub normal: Vec3,
    pub t: Scalar,
    pub material: &'a Surface,
    pub front: bool,
}

/// Whether `t` lies in the half-open range: `start <= t < end`.
pub open spec fn in_range(t_range: Range<Scalar>, t: Scalar) -> bool {
    t_range.start.le_spec(t) && t.lt_spec(t_range.end)
}

/// Whether the incident direction runs against the outward normal.
pub open spec fn faces_front(direction: Vec3, outward_normal: Vec3) -> bool {
    direction.dot_spec(outward_normal).lt_spec(lit(ZERO_BITS))
}

/// The outward normal, turned to oppose the incident direction.
pub open spec fn face_normal(direction: Vec3, outward_normal: Vec3) -> Vec3 {
    if faces_front(direction, outward_normal) {
        outward_normal
    } else {
        outward_normal.neg_spec()
    }
}

/// A hit, kept only where it lies before `end`.
pub open spec fn narrowed<'a>(hit: Option<HitRecord<'a>>, end: Scalar) -> Option<HitRecord<'a>> {
    match hit {
        Some(rec) => if rec.t.lt_spec(end) {
            Some(rec)
        } else {
            None
        },
        None => None,
    }
}

/// Whether `t` lies in the half-open range.
pub fn contains(t_range: &Range<Scalar>, t: Scalar) -> (r: bool)
    ensures
        r == in_range(*t_range, t),
{
    t_range.start.le(t) && t.lt(t_range.end)
}

impl<'a> HitRecord<'a> {
    pub open spec fn contact_spec(self) -> Contact {
        Contact { point: self.point, normal: self.normal, t: self.t, front: self.front }
    }

    /// The geometry of the hit, without the material.
    pub fn contact(&self) -> (r: Contact)
        ensures
            r == self.contact_spec(),
    {
        Contact { point: self.point, normal: self.normal, t: self.t, front: self.front }
    }

    /// A record that faces front until `set_face_normal` says otherwise.
    pub fn new(point: Point3, normal: Vec3, t: Scalar, material: &'a Surface) -> (r: Self)
        ensures
            r == (HitRecord { point, normal, t, material, front: true }),
    {
        HitRecord { point, normal, t, material, front: true }
    }

    /// Records on which side the ray `r` meets the surface and turns the
    /// normal against it.
    pub fn set_face_normal(&mut self, r: &Ray, outward_normal: Vec3)
        ensures
            final(self).front == faces_front(r.direction, outward_normal),
            final(self).normal == face_normal(r.direction, outward_normal),
            final(self).point == old(self).point,
            final(self).t == old(self).t,
            final(self).material == old(self).material,
    {
        self.front = r.direction.dot(outward_normal).lt(Scalar::zero());
        self.normal = if self.front {
            outward_normal
        } else {
            outward_normal.neg()
        };
    }
}

/// The side on which a ray meets a surface is the front exactly where its
/// direction has a negative dot product with the outward normal, and the
/// normal that is kept is the outward one on the front and its opposite on
/// the back.
pub proof fn lemma_front_face(direction: Vec3, outward_normal: Vec3)
    ensures
        faces_front(direction, outward_normal) <==> direction.dot_spec(outward_normal).lt_spec(
            lit(ZERO_BITS),
        ),
        face_normal(direction, outward_normal) == (if faces_front(direction, outward_normal) {
            outward_normal
        } else {
            outward_normal.neg_spec()
        }),
{
}

/// The normal that is kept opposes the ray: its dot product with the
/// direction of the ray is zero or below, wherever no NaN arises in the dot
/// product of the direction and the outward normal.
pub proof fn lemma_face_normal_opposes(direction: Vec3, outward_normal: Vec3)
    requires
        dot_without_nan(direction, outward_normal),
        !direction.dot_spec(outward_normal).is_nan_spec(),
    ensures
        direction.dot_spec(face_normal(direction, outward_normal)).le_spec(lit(ZERO_BITS)),
{
    lemma_dot_negated(direction, outward_normal);
}

/// Whether the dot product of the direction and the outward normal is a
/// number, with no NaN on the way to it. Where it is, the normal that is kept
/// for a ray of this direction opposes the ray.
pub open spec fn opposition_known(direction: Vec3, outward_normal: Vec3) -> bool {
    dot_without_nan(direction, outward_normal) && !direction.dot_spec(
        outward_normal,
    ).is_nan_spec()
}

/// Tests whether the normal that is kept for a ray of this direction is known
/// to oppose the ray: the three products and the two sums of the dot product
/// of the direction and the outward normal are computed, and none is a NaN.
pub fn normal_opposes(direction: Vec3, outward_normal: Vec3) -> (known: bool)
    ensures
        known == opposition_known(direction, outward_normal),
        known ==> direction.dot_spec(face_normal(direction, outward_normal)).le_spec(
            lit(ZERO_BITS),
        ),
{
    let px = direction.x.mul(outward_normal.x);
    let py = direction.y.mul(outward_normal.y);
    let pz = direction.z.mul(outward_normal.z);
    let first = px.add(py);
    let whole = first.add(pz);
    if px.is_nan() || py.is_nan() || pz.is_nan() || first.is_nan() || whole.is_nan() {
        false
    } else {
        proof {
            lemma_face_normal_opposes(direction, outward_normal);
        }
        true
    }
}

/// Anything a ray can hit. An object reports the hit it prefers among those
/// within the range, and the same one in every narrower range that still
/// holds it.
pub trait Hittable: Sync + Send {
    /// The hit that `hit` reports.
    spec fn hit_spec(&self, r: Ray, t_range: Range<Scalar>) -> Option<HitRecord>;

    fn hit<'a>(&'a self, r: &Ray, t_range: Range<Scalar>) -> (rec: Option<HitRecord<'a>>)
        ensures
            rec == self.hit_spec(*r, t_range),
    ;
}

/// A reported hit lies within the range.
pub open spec fn reports_in_range<H: Hittable + ?Sized>(
    object: &H,
    r: Ray,
    t_range: Range<Scalar>,
) -> bool {
    object.hit_spec(r, t_range) matches Some(rec) ==> in_range(t_range, rec.t)
}

/// Moving the end of the range down to `end` keeps the hit where it still
/// lies within the range, and reports none where it does not.
pub open spec fn reports_narrowed<H: Hittable + ?Sized>(
    object: &H,
    r: Ray,
    t_range: Range<Scalar>,
    end: Scalar,
) -> bool {
    end.le_spec(t_range.end) ==> object.hit_spec(r, t_range.start..end) == narrowed(
        object.hit_spec(r, t_range),
        end,
    )
}

/// Whether an object reports, in every range, the nearest of its hits that
/// the range holds: what it reports lies within the range, and a narrower
/// range changes the report only by leaving out a hit beyond its end.
pub open spec fn lawful<H: Hittable + ?Sized>(object: &H) -> bool {
    &&& forall|r: Ray, t_range: Range<Scalar>| #[trigger] reports_in_range(object, r, t_range)
    &&& forall|r: Ray, t_range: Range<Scalar>, end: Scalar| #[trigger]
        reports_narrowed(object, r, t_range, end)
}

/// Whether every object of a list is lawful.
pub open spec fn all_lawful<H: Hittable>(objects: Seq<H>) -> bool {
    forall|i: int| 0 <= i < objects.len() ==> lawful(&#[trigger] objects[i])
}

/// The whole scene: objects of any kind, in the order in which they are tried.
pub type World = Vec<Box<dyn Hittable>>;

/// A boxed object is hit as the object in the box.
impl Hittable for Box<dyn Hittable> {
    open spec fn hit_spec(&self, r: Ray, t_range: Range<Scalar>) -> Option<HitRecord> {
        (**self).hit_spec(r, t_range)
    }

    fn hit<'a>(&'a self, r: &Ray, t_range: Range<Scalar>) -> (rec: Option<HitRecord<'a>>) {
        (**self).hit(r, t_range)
    }
}

/// The scan of a list of objects: each is asked for a hit before the closest
/// one found so far, and a hit it reports becomes the closest.
pub open spec fn scan_spec<'a, H: Hittable>(
    objects: Seq<H>,
    r: Ray,
    start: Scalar,
    closest: Scalar,
    best: Option<HitRecord<'a>>,
) -> Option<HitRecord<'a>>
    decreases objects.len(),
{
    if objects.len() == 0 {
        best
    } else {
        match objects[0].hit_spec(r, start..closest) {
            Some(rec) => scan_spec(
                objects.drop_first(),
                r,
                start,
                closest.min_spec(rec.t),
                Some(rec),
            ),
            None => scan_spec(objects.drop_first(), r, start, closest, best),
        }
    }
}

/// A hit within `start..closest` lies before `closest`, so that it becomes the
/// new closest.
pub proof fn lemma_min_of_hit(start: Scalar, closest: Scalar, t: Scalar)
    requires
        in_range(start..closest, t),
    ensures
        closest.min_spec(t) == t,
{
}

/// The objects after the first are lawful where all are.
pub proof fn lemma_rest_lawful<H: Hittable>(objects: Seq<H>)
    requires
        all_lawful(objects),
        objects.len() > 0,
    ensures
        lawful(&objects[0]),
        all_lawful(objects.drop_first()),
{
    assert forall|i: int| 0 <= i < objects.drop_first().len() implies lawful(
        &#[trigger] objects.drop_first()[i],
    ) by {
        assert(objects.drop_first()[i] == objects[i + 1]);
    }
}

/// What a scan returns is the hit it began with or lies within the range.
pub proof fn lemma_scan_in_range<'a, H: Hittable>(
    objects: Seq<H>,
    r: Ray,
    start: Scalar,
    closest: Scalar,
    best: Option<HitRecord<'a>>,
)
    requires
        all_lawful(objects),
    ensures
        scan_spec(objects, r, start, closest, best) matches Some(rec) ==> Some(rec) == best
            || in_range(start..closest, rec.t),
        best is Some ==> scan_spec(objects, r, start, closest, best) is Some,
    decreases objects.len(),
{
    if objects.len() > 0 {
        lemma_rest_lawful(objects);
        assert(reports_in_range(&objects[0], r, start..closest));
        match objects[0].hit_spec(r, start..closest) {
            Some(rec) => {
                lemma_min_of_hit(start, closest, rec.t);
                lemma_scan_in_range(objects.drop_first(), r, start, rec.t, Some(rec));
            },
            None => {
                lemma_scan_in_range(objects.drop_first(), r, start, closest, best);
            },
        }
    }
}

/// A scan that begins with a nearer end and no hit returns what the wider
/// scan returns, where that lies before the nearer end, and none otherwise.
pub proof fn lemma_scan_narrowed<'a, H: Hittable>(
    objects: Seq<H>,
    r: Ray,
    start: Scalar,
    closest: Scalar,
    best: Option<HitRecord<'a>>,
    end: Scalar,
)
    requires
        all_lawful(objects),
        end.le_spec(closest),
        best matches Some(rec) ==> !rec.t.lt_spec(end),
    ensures
        scan_spec(objects, r, start, end, None) == narrowed(
            scan_spec(objects, r, start, closest, best),
            end,
        ),
    decreases objects.len(),
{
    if objects.len() > 0 {
        let rest = objects.drop_first();
        lemma_rest_lawful(objects);
        assert(reports_in_range(&objects[0], r, start..closest));
        assert(reports_narrowed(&objects[0], r, start..closest, end));
        match objects[0].hit_spec(r, start..closest) {
            Some(rec) => {
                lemma_min_of_hit(start, closest, rec.t);
                if rec.t.lt_spec(end) {
                    lemma_min_of_hit(start, end, rec.t);
                    lemma_scan_in_range(rest, r, start, rec.t, Some(rec));
                } else {
                    lemma_scan_narrowed(rest, r, start, rec.t, Some(rec), end);
                }
            },
            None => {
                lemma_scan_narrowed(rest, r, start, closest, best, end);
            },
        }
    }
}

/// A list of objects is hit where the nearest of them is hit.
impl<H: Hittable> Hittable for Vec<H> {
    open spec fn hit_spec(&self, r: Ray, t_range: Range<Scalar>) -> Option<HitRecord> {
        scan_spec(self@, r, t_range.start, t_range.end, None)
    }

    /// The hit nearest to the start of the range among those that the objects
    /// report; of two at the same distance, the one tried first.
    fn hit<'a>(&'a self, r: &Ray, t_range: Range<Scalar>) -> (rec: Option<HitRecord<'a>>) {
        let mut closest_yet: Scalar = t_range.end;
        let mut hit: Option<HitRecord<'a>> = None;
        let mut i: usize = 0;
        assert(self@.skip(0) =~= self@);
        while i < self.len()
            invariant
                i <= self.len(),
                scan_spec(self@, *r, t_range.start, t_range.end, None) == scan_spec(
                    self@.skip(i as int),
                    *r,
                    t_range.start,
                    closest_yet,
                    hit,
                ),
            decreases self.len() - i,
        {
            proof {
                let rest = self@.skip(i as int);
                assert(rest[0] == self@[i as int]);
                assert(rest.drop_first() =~= self@.skip(i + 1));
            }
            if let Some(rec) = self[i].hit(r, t_range.start..closest_yet) {
                closest_yet = closest_yet.min(rec.t);
                hit = Some(rec);
            }
            i += 1;
        }
        hit
    }
}

/// A scene of lawful objects is itself lawful.
pub proof fn lemma_world_lawful<H: Hittable>(world: &Vec<H>)
    requires
        all_lawful(world@),
    ensures
        lawful(world),
{
    assert forall|r: Ray, t_range: Range<Scalar>| #[trigger]
        reports_in_range(world, r, t_range) by {
        lemma_scan_in_range(world@, r, t_range.start, t_range.end, None);
    }
    assert forall|r: Ray, t_range: Range<Scalar>, end: Scalar| #[trigger]
        reports_narrowed(world, r, t_range, end) by {
        if end.le_spec(t_range.end) {
            lemma_scan_narrowed(world@, r, t_range.start, t_range.end, None, end);
        }
    }
}

/// The hit of one object in the whole range, as the scan sees it once the
/// end has come down to `closest`.
pub proof fn lemma_object_narrowed<H: Hittable>(
    objects: Seq<H>,
    r: Ray,
    t_range: Range<Scalar>,
    closest: Scalar,
    i: int,
)
    requires
        all_lawful(objects),
        0 <= i < objects.len(),
        closest.le_spec(t_range.end),
    ensures
        objects[i].hit_spec(r, t_range.start..closest) == narrowed(
            objects[i].hit_spec(r, t_range),
            closest,
        ),
        objects[i].hit_spec(r, t_range) matches Some(rec) ==> in_range(t_range, rec.t),
{
    assert(lawful(&objects[i]));
    assert(reports_narrowed(&objects[i], r, t_range, closest));
    assert(reports_in_range(&objects[i], r, t_range));
}

/// No object has, in the whole range, a hit before the closest so far that
/// is nearer than what the scan returns.
pub proof fn lemma_scan_nearest<'a, H: Hittable>(
    objects: Seq<H>,
    r: Ray,
    t_range: Range<Scalar>,
    closest: Scalar,
    best: Option<HitRecord<'a>>,
    i: int,
)
    requires
        all_lawful(objects),
        0 <= i < objects.len(),
        closest.le_spec(t_range.end),
        objects[i].hit_spec(r, t_range) matches Some(rec) && rec.t.lt_spec(closest),
    ensures
        scan_spec(objects, r, t_range.start, closest, best) matches Some(found)
            && found.t.le_spec(objects[i].hit_spec(r, t_range)->0.t),
    decreases objects.len(),
{
    let rest = objects.drop_first();
    let start = t_range.start;
    let target = objects[i].hit_spec(r, t_range)->0;
    lemma_rest_lawful(objects);
    lemma_object_narrowed(objects, r, t_range, closest, 0);
    assert(reports_in_range(&objects[0], r, start..closest));
    match objects[0].hit_spec(r, start..closest) {
        Some(rec) => {
            lemma_min_of_hit(start, closest, rec.t);
            lemma_scan_in_range(rest, r, start, rec.t, Some(rec));
            if i > 0 && target.t.lt_spec(rec.t) {
                assert(rest[i - 1] == objects[i]);
                lemma_scan_nearest(rest, r, t_range, rec.t, Some(rec), i - 1);
            }
        },
        None => {
            assert(rest[i - 1] == objects[i]);
            lemma_scan_nearest(rest, r, t_range, closest, best, i - 1);
        },
    }
}

/// Of two hits at the same distance the scan returns that of the object
/// tried first: where the returned hit is no nearer than the hit of object
/// `i`, it is the hit of an object at or before `i`.
pub proof fn lemma_scan_first_wins<'a, H: Hittable>(
    objects: Seq<H>,
    r: Ray,
    t_range: Range<Scalar>,
    closest: Scalar,
    best: Option<HitRecord<'a>>,
    i: int,
)
    requires
        all_lawful(objects),
        0 <= i < objects.len(),
        closest.le_spec(t_range.end),
        objects[i].hit_spec(r, t_range) matches Some(rec) && rec.t.lt_spec(closest),
        !scan_spec(objects, r, t_range.start, closest, best)->0.t.lt_spec(
            objects[i].hit_spec(r, t_range)->0.t,
        ),
    ensures
        exists|k: int|
            0 <= k <= i && #[trigger] objects[k].hit_spec(r, t_range) == scan_spec(
                objects,
                r,
                t_range.start,
                closest,
                best,
            ),
    decreases objects.len(),
{
    let rest = objects.drop_first();
    let start = t_range.start;
    let target = objects[i].hit_spec(r, t_range)->0;
    let found = scan_spec(objects, r, start, closest, best);
    lemma_rest_lawful(objects);
    lemma_object_narrowed(objects, r, t_range, closest, 0);
    assert(reports_in_range(&objects[0], r, start..closest));
    match objects[0].hit_spec(r, start..closest) {
        Some(rec) => {
            lemma_min_of_hit(start, closest, rec.t);
            lemma_scan_in_range(rest, r, start, rec.t, Some(rec));
            if i > 0 && target.t.lt_spec(rec.t) {
                assert(rest[i - 1] == objects[i]);
                lemma_scan_first_wins(rest, r, t_range, rec.t, Some(rec), i - 1);
                let k = choose|k: int|
                    0 <= k <= i - 1 && #[trigger] rest[k].hit_spec(r, t_range) == found;
                assert(rest[k] == objects[k + 1]);
                assert(objects[k + 1].hit_spec(r, t_range) == found);
            } else {
                assert(objects[0].hit_spec(r, t_range) == found);
            }
        },
        None => {
            assert(rest[i - 1] == objects[i]);
            lemma_scan_first_wins(rest, r, t_range, closest, best, i - 1);
            let k = choose|k: int|
                0 <= k <= i - 1 && #[trigger] rest[k].hit_spec(r, t_range) == found;
            assert(rest[k] == objects[k + 1]);
            assert(objects[k + 1].hit_spec(r, t_range) == found);
        },
    }
}

/// What a scan returns is the hit it began with or the hit that one of the
/// objects has in the whole range.
pub proof fn lemma_scan_reports_object<'a, H: Hittable>(
    objects: Seq<H>,
    r: Ray,
    t_range: Range<Scalar>,
    closest: Scalar,
    best: Option<HitRecord<'a>>,
)
    requires
        all_lawful(objects),
        closest.le_spec(t_range.end),
    ensures
        scan_spec(objects, r, t_range.start, closest, best) == best || exists|k: int|
            0 <= k < objects.len() && #[trigger] objects[k].hit_spec(r, t_range) == scan_spec(
                objects,
                r,
                t_range.start,
                closest,
                best,
            ),
    decreases objects.len(),
{
    if objects.len() > 0 {
        let rest = objects.drop_first();
        let start = t_range.start;
        lemma_rest_lawful(objects);
        lemma_object_narrowed(objects, r, t_range, closest, 0);
        assert(reports_in_range(&objects[0], r, start..closest));
        match objects[0].hit_spec(r, start..closest) {
            Some(rec) => {
                lemma_min_of_hit(start, closest, rec.t);
                lemma_scan_reports_object(rest, r, t_range, rec.t, Some(rec));
                let found = scan_spec(rest, r, start, rec.t, Some(rec));
                if found == Some(rec) {
                    assert(objects[0].hit_spec(r, t_range) == found);
                } else {
                    let k = choose|k: int|
                        0 <= k < rest.len() && #[trigger] rest[k].hit_spec(r, t_range) == found;
                    assert(rest[k] == objects[k + 1]);
                    assert(objects[k + 1].hit_spec(r, t_range) == found);
                }
            },
            None => {
                lemma_scan_reports_object(rest, r, t_range, closest, best);
                let found = scan_spec(rest, r, start, closest, best);
                if found != best {
                    let k = choose|k: int|
                        0 <= k < rest.len() && #[trigger] rest[k].hit_spec(r, t_range) == found;
                    assert(rest[k] == objects[k + 1]);
                    assert(objects[k + 1].hit_spec(r, t_range) == found);
                }
            },
        }
    }
}

/// A scan whose range no value lies in returns the hit it began with.
pub proof fn lemma_scan_empty_range<'a, H: Hittable>(
    objects: Seq<H>,
    r: Ray,
    start: Scalar,
    closest: Scalar,
    best: Option<HitRecord<'a>>,
)
    requires
        all_lawful(objects),
        closest.is_nan_spec(),
    ensures
        scan_spec(objects, r, start, closest, best) == best,
    decreases objects.len(),
{
    if objects.len() > 0 {
        lemma_rest_lawful(objects);
        assert(reports_in_range(&objects[0], r, start..closest));
        lemma_scan_empty_range(objects.drop_first(), r, start, closest, best);
    }
}

/// The scene returns the nearest hit: where an object of the scene has a hit
/// in the range, the scene reports a hit, and one that is no farther.
pub proof fn lemma_world_hit_is_nearest<H: Hittable>(
    world: &Vec<H>, r: Ray, t_range: Range<Scalar>, i: int)
    requires
        all_lawful(world@),
        0 <= i < world.len(),
        world@[i].hit_spec(r, t_range) is Some,
    ensures
        world.hit_spec(r, t_range) matches Some(found) && found.t.le_spec(
            world@[i].hit_spec(r, t_range)->0.t,
        ),
{
    assert(lawful(&world@[i]));
    assert(reports_in_range(&world@[i], r, t_range));
    lemma_scan_nearest(world@, r, t_range, t_range.end, None, i);
}

/// Of two objects with a hit at the same distance, the scene reports the hit
/// of the one tried first: where the reported hit is no nearer than the hit
/// of object `i`, it is the hit of an object at or before `i`.
pub proof fn lemma_world_hit_first_wins<H: Hittable>(
    world: &Vec<H>, r: Ray, t_range: Range<Scalar>, i: int)
    requires
        all_lawful(world@),
        0 <= i < world.len(),
        world@[i].hit_spec(r, t_range) is Some,
        !world.hit_spec(r, t_range)->0.t.lt_spec(world@[i].hit_spec(r, t_range)->0.t),
    ensures
        exists|k: int|
            0 <= k <= i && #[trigger] world@[k].hit_spec(r, t_range) == world.hit_spec(r, t_range),
{
    assert(lawful(&world@[i]));
    assert(reports_in_range(&world@[i], r, t_range));
    lemma_scan_first_wins(world@, r, t_range, t_range.end, None, i);
}

/// The hit that the scene reports is the hit that one of its objects has in
/// the range; where none of them has one, the scene reports none.
pub proof fn lemma_world_hit_is_of_object<H: Hittable>(
    world: &Vec<H>, r: Ray, t_range: Range<Scalar>)
    requires
        all_lawful(world@),
        world.hit_spec(r, t_range) is Some,
    ensures
        exists|k: int|
            0 <= k < world.len() && #[trigger] world@[k].hit_spec(r, t_range) == world.hit_spec(
                r,
                t_range,
            ),
{
    if t_range.end.is_nan_spec() {
        lemma_scan_empty_range(world@, r, t_range.start, t_range.end, None);
    } else {
        lemma_scan_reports_object(world@, r, t_range, t_range.end, None);
    }
}

} // verus!
