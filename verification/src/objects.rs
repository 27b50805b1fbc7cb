//! Hit records, the scene, and the three materials.
use vstd::prelude::*;
use crate::ray::Ray;
use crate::scalar::Scalar;
use crate::sphere::{within, Roots, Sphere};
use crate::utility::{clamp, clamped, random_unit, unit_draw};
use crate::vec3::{Color, Point, Vec3};

verus! {

/// A matte surface: scatters every ray, tinted by `albedo`.
#[derive(Clone, Copy, Debug)]
pub struct Lambertian {
    pub albedo: Color,
}

/// A mirror of roughness `fuzz`, tinted by `albedo`.
#[derive(Clone, Copy, Debug)]
pub struct Metal {
    pub albedo: Color,
    pub fuzz: Scalar,
}

/// A clear surface of refraction index `ir`: it reflects or refracts, and
/// absorbs nothing.
#[derive(Clone, Copy, Debug)]
pub struct Dielectric {
    pub ir: Scalar,
}

/// What a surface is made of.
#[derive(Clone, Copy, Debug)]
pub enum Material {
    Lambertian(Lambertian),
    Metal(Metal),
    Dielectric(Dielectric),
}

/// Where a ray met a surface.
#[derive(Clone, Copy, Debug)]
pub struct HitRecord {
    /// The point of the hit.
    pub point: Point,
    /// The surface normal there, turned against the ray.
    pub normal: Vec3,
    /// The ray parameter of the hit.
    pub t: Scalar,
    /// Whether the ray came from outside the surface.
    pub front_facing: bool,
    /// The surface's material.
    pub material: Material,
}

/// The color that leaves light unchanged.
pub open spec fn white() -> Color {
    Vec3(Scalar::spec_one(), Scalar::spec_one(), Scalar::spec_one())
}

/// The ray's projection on the normal that a record stores, given its
/// projection `facing` on the outward normal. Turning a vector around turns
/// the sign of its dot products, so this is `facing` on a front face and
/// `-facing` on a back face.
pub open spec fn stored_projection(facing: Scalar) -> Scalar {
    if facing.less(Scalar::spec_zero()) {
        facing
    } else {
        facing.negated()
    }
}

impl HitRecord {
    pub fn new(point: Point, normal: Vec3, t: Scalar, front_facing: bool, material: Material) -> (r:
        HitRecord)
        ensures
            r.point == point,
            r.normal == normal,
            r.t == t,
            r.front_facing == front_facing,
            r.material == material,
    {
        HitRecord { point, normal, t, front_facing, material }
    }

    /// Turns the record's normal against the ray. `facing` is the dot
    /// product of the ray's direction with `outward_normal`: below zero the
    /// ray came from outside and the outward normal is stored, otherwise its
    /// opposite is.
    pub fn set_face_normal(&mut self, facing: Scalar, outward_normal: Vec3)
        ensures
            final(self).front_facing == facing.less(Scalar::spec_zero()),
            final(self).normal == if facing.less(Scalar::spec_zero()) {
                outward_normal
            } else {
                outward_normal.negated()
            },
            final(self).point == old(self).point,
            final(self).t == old(self).t,
            final(self).material == old(self).material,
    {
        self.front_facing = facing.lt(Scalar::zero());
        if self.front_facing {
            self.normal = outward_normal;
        } else {
            self.normal = outward_normal.neg();
        }
    }
}

/// The stored normal never points along the ray: the ray's projection on it
/// is at most zero, whichever side the ray came from.
pub proof fn lemma_stored_normal_opposes(facing: Scalar)
    requires
        !facing.nan(),
    ensures
        stored_projection(facing).at_most(Scalar::spec_zero()),
{
}

/// The nearest hit among the first spheres of a scene, as the index of the
/// sphere and the ray parameter. Each sphere is asked in turn for a hit in
/// the window that ends at the nearest hit so far.
pub open spec fn nearest(roots: Seq<Roots>, t_min: Scalar, t_max: Scalar) -> Option<(int, Scalar)>
    decreases roots.len(),
{
    if roots.len() == 0 {
        None
    } else {
        let before = nearest(roots.drop_last(), t_min, t_max);
        let bound = match before {
            Some((_, t)) => t,
            None => t_max,
        };
        match roots.last().chosen(t_min, bound) {
            Some(t) => Some((roots.len() - 1, t)),
            None => before,
        }
    }
}

/// The spheres of a scene, in the order they were added.
pub struct HittableList {
    pub objects: Vec<Sphere>,
}

impl View for HittableList {
    type V = Seq<Sphere>;

    open spec fn view(&self) -> Seq<Sphere> {
        self.objects@
    }
}

impl HittableList {
    /// The empty scene.
    pub fn new() -> (list: HittableList)
        ensures
            list@ == Seq::<Sphere>::empty(),
    {
        HittableList { objects: Vec::new() }
    }

    /// Adds a sphere behind the others.
    pub fn add(&mut self, obj: Sphere)
        ensures
            final(self)@ == old(self)@.push(obj),
    {
        self.objects.push(obj);
    }

    /// Empties the scene.
    pub fn clear(&mut self)
        ensures
            final(self)@ == Seq::<Sphere>::empty(),
    {
        self.objects.clear();
    }

    /// The number of spheres.
    pub fn len(&self) -> (n: usize)
        ensures
            n == self@.len(),
    {
        self.objects.len()
    }

    /// The nearest hit of a ray in the window `t.0 < t <= t.1`: which
    /// sphere, and at which ray parameter. `roots[i]` holds the roots of the
    /// ray against the `i`-th sphere. Every sphere is asked; one that hits
    /// exactly as near as an earlier one replaces it.
    pub fn hit(&self, roots: &Vec<Roots>, t: (Scalar, Scalar)) -> (r: Option<(usize, Scalar)>)
        requires
            roots@.len() == self@.len(),
        ensures
            match r {
                Some((i, at)) => nearest(roots@, t.0, t.1) == Some((i as int, at)) && i
                    < self@.len(),
                None => nearest(roots@, t.0, t.1).is_none(),
            },
    {
        let mut closest: Scalar = t.1;
        let mut found: Option<(usize, Scalar)> = None;
        let mut i: usize = 0;
        while i < roots.len()
            invariant
                i <= roots@.len(),
                match found {
                    Some((k, at)) => nearest(roots@.take(i as int), t.0, t.1) == Some(
                        (k as int, at),
                    ) && k < i && closest == at,
                    None => nearest(roots@.take(i as int), t.0, t.1).is_none() && closest == t.1,
                },
            decreases roots@.len() - i,
        {
            proof {
                assert(roots@.take(i + 1).drop_last() =~= roots@.take(i as int));
            }
            match roots[i].hit((t.0, closest)) {
                Some(at) => {
                    closest = at;
                    found = Some((i, at));
                },
                None => {},
            }
            i += 1;
        }
        proof {
            assert(roots@.take(i as int) =~= roots@);
        }
        found
    }
}

/// Whatever the roots, the scene's answer is some sphere's root inside the
/// window, and there is one exactly when some sphere is hit in the window.
pub proof fn lemma_nearest_is_hit(roots: Seq<Roots>, t_min: Scalar, t_max: Scalar)
    ensures
        match nearest(roots, t_min, t_max) {
            None => forall|j: int|
                0 <= j < roots.len() ==> (#[trigger] roots[j]).chosen(t_min, t_max).is_none(),
            Some((i, t)) => {
                &&& 0 <= i < roots.len()
                &&& !roots[i].misses()
                &&& t == roots[i].near || t == roots[i].far
                &&& within(t, t_min, t_max)
            },
        },
    decreases roots.len(),
{
    if roots.len() > 0 {
        let head = roots.drop_last();
        lemma_nearest_is_hit(head, t_min, t_max);
        assert forall|j: int| 0 <= j < head.len() implies (#[trigger] roots[j]) == head[j] by {}
    }
}

/// The scene's answer is the least of its spheres' answers. With every
/// sphere's roots in order, `nearest` is none exactly when no sphere is hit
/// in the window; otherwise it names a sphere and that sphere's own hit,
/// which no other sphere's hit undercuts and no later sphere's hit equals.
pub proof fn lemma_nearest_is_least(roots: Seq<Roots>, t_min: Scalar, t_max: Scalar)
    requires
        forall|j: int| 0 <= j < roots.len() ==> (#[trigger] roots[j]).ordered(),
    ensures
        match nearest(roots, t_min, t_max) {
            None => forall|j: int|
                0 <= j < roots.len() ==> (#[trigger] roots[j]).chosen(t_min, t_max).is_none(),
            Some((i, t)) => {
                &&& 0 <= i < roots.len()
                &&& roots[i].chosen(t_min, t_max) == Some(t)
                &&& forall|j: int|
                    0 <= j < roots.len() ==> match (#[trigger] roots[j]).chosen(t_min, t_max) {
                        Some(u) => t.at_most(u) && (j > i ==> t.less(u)),
                        None => true,
                    }
            },
        },
    decreases roots.len(),
{
    if roots.len() > 0 {
        let head = roots.drop_last();
        let last = roots.last();
        assert forall|j: int| 0 <= j < head.len() implies (#[trigger] head[j]).ordered() by {
            assert(head[j] == roots[j]);
        }
        lemma_nearest_is_least(head, t_min, t_max);
        let bound = match nearest(head, t_min, t_max) {
            Some((_, t)) => t,
            None => t_max,
        };
        crate::sphere::lemma_chosen_within(last, t_min, t_max);
        if bound != t_max {
            crate::sphere::lemma_chosen_narrowed(last, t_min, bound, t_max);
        }
        assert forall|j: int| 0 <= j < head.len() implies (#[trigger] roots[j]) == head[j] by {}
    }
}

impl Lambertian {
    pub fn new(a: Color) -> (m: Lambertian)
        ensures
            m.albedo == a,
    {
        Lambertian { albedo: a }
    }

    /// Scatters diffusely, always. `candidate` is the record's normal plus
    /// a random unit vector; where the two cancel, the ray leaves along the
    /// normal instead.
    pub fn scatter(&self, record: &HitRecord, candidate: Vec3) -> (out: (Color, Ray))
        ensures
            out.0 == self.albedo,
            out.1.origin == record.point,
            out.1.direction == if candidate.vanishes() {
                record.normal
            } else {
                candidate
            },
    {
        let direction = if candidate.near_zero() {
            record.normal
        } else {
            candidate
        };
        (self.albedo, Ray::new(record.point, direction))
    }
}

impl Metal {
    /// The fuzz is a number from zero to one.
    pub open spec fn well_formed(self) -> bool {
        Scalar::spec_zero().at_most(self.fuzz) && self.fuzz.at_most(Scalar::spec_one())
    }

    /// A metal whose fuzz is `f` held to the interval from zero to one.
    pub fn new(a: Color, f: Scalar) -> (m: Metal)
        ensures
            m.albedo == a,
            m.fuzz == clamped(f, Scalar::spec_zero(), Scalar::spec_one()),
            !f.nan() ==> m.well_formed(),
    {
        Metal { albedo: a, fuzz: clamp(f, Scalar::zero(), Scalar::one()) }
    }

    /// Reflects, unless the fuzz has bent the ray into the surface.
    /// `direction` is the mirrored direction plus the fuzz, `facing` its dot
    /// product with the record's normal: the ray is scattered exactly when
    /// that is above zero, and absorbed otherwise.
    pub fn scatter(&self, record: &HitRecord, direction: Vec3, facing: Scalar) -> (out: Option<
        (Color, Ray),
    >)
        ensures
            out.is_some() == Scalar::spec_zero().less(facing),
            match out {
                Some((attenuation, scattered)) => attenuation == self.albedo && scattered.origin
                    == record.point && scattered.direction == direction,
                None => true,
            },
    {
        if facing.gt(Scalar::zero()) {
            Some((self.albedo, Ray::new(record.point, direction)))
        } else {
            None
        }
    }
}

impl Dielectric {
    /// Whether a ray is reflected rather than refracted. `bend` is the
    /// refraction ratio times the sine of the angle of incidence: above one
    /// no refracted ray exists. Otherwise the ray is reflected with
    /// probability `reflectance`, that is, when `draw`, uniform between zero
    /// and one, falls below it.
    pub open spec fn reflects(bend: Scalar, reflectance: Scalar, draw: Scalar) -> bool {
        Scalar::spec_one().less(bend) || draw.less(reflectance)
    }

    pub fn new(ir: Scalar) -> (m: Dielectric)
        ensures
            m.ir == ir,
    {
        Dielectric { ir }
    }

    /// The index on the far side of the surface over the index on the near
    /// side is `ir` from inside; from outside it is `inverse`, which is
    /// `1 / ir`.
    pub fn refraction_ratio(&self, front_facing: bool, inverse: Scalar) -> (ratio: Scalar)
        ensures
            ratio == if front_facing {
                inverse
            } else {
                self.ir
            },
    {
        if front_facing {
            inverse
        } else {
            self.ir
        }
    }

    /// Whether total internal reflection is forced.
    pub fn cannot_refract(bend: Scalar) -> (r: bool)
        ensures
            r == Scalar::spec_one().less(bend),
    {
        bend.gt(Scalar::one())
    }

    /// Scatters, always, and in white: glass takes nothing from the light.
    /// The ray leaves along `reflected` where `draw` has it reflected, else
    /// along `refracted`.
    pub fn scatter_on(
        &self,
        record: &HitRecord,
        reflected: Vec3,
        refracted: Vec3,
        bend: Scalar,
        reflectance: Scalar,
        draw: Scalar,
    ) -> (out: (Color, Ray))
        ensures
            out.0 == white(),
            out.1.origin == record.point,
            out.1.direction == if Dielectric::reflects(bend, reflectance, draw) {
                reflected
            } else {
                refracted
            },
    {
        let attenuation = Vec3::new(Scalar::one(), Scalar::one(), Scalar::one());
        let direction = if Dielectric::cannot_refract(bend) || reflectance.gt(draw) {
            reflected
        } else {
            refracted
        };
        (attenuation, Ray::new(record.point, direction))
    }

    /// Scatters, always, and in white. Where a refracted ray exists, a fresh
    /// uniform draw decides between reflection and refraction: the ray is
    /// reflected with probability `reflectance`. Whatever is drawn, a
    /// `reflectance` of one or more reflects and one of zero or less
    /// refracts.
    pub fn scatter(
        &self,
        record: &HitRecord,
        reflected: Vec3,
        refracted: Vec3,
        bend: Scalar,
        reflectance: Scalar,
    ) -> (out: (Color, Ray))
        ensures
            out.0 == white(),
            out.1.origin == record.point,
            exists|draw: Scalar|
                unit_draw(draw) && out.1.direction == if #[trigger] Dielectric::reflects(
                    bend,
                    reflectance,
                    draw,
                ) {
                    reflected
                } else {
                    refracted
                },
            Scalar::spec_one().less(bend) || Scalar::spec_one().at_most(reflectance)
                ==> out.1.direction == reflected,
            !Scalar::spec_one().less(bend) && !Scalar::spec_zero().less(reflectance)
                ==> out.1.direction == refracted,
    {
        let draw = random_unit();
        self.scatter_on(record, reflected, refracted, bend, reflectance, draw)
    }
}

} // verus!
