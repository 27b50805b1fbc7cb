//! Spheres, and the choice between the two points where a ray meets one.
use vstd::prelude::*;
use crate::objects::Material;
use crate::scalar::Scalar;
use crate::vec3::Point;

verus! {

/// A sphere. A negative radius keeps the surface and turns it inside out:
/// the outward normal then points at the center.
#[derive(Clone, Copy, Debug)]
pub struct Sphere {
    pub center: Point,
    pub radius: Scalar,
    pub material: Material,
}

impl Sphere {
    pub fn new(center: Point, radius: Scalar, material: Material) -> (s: Sphere)
        ensures
            s.center == center,
            s.radius == radius,
            s.material == material,
    {
        Sphere { center, radius, material }
    }
}

/// What solving `|origin + t * direction - center|^2 = radius^2` for `t`
/// gave: the discriminant, and the two roots `(-half_b -+ sqrt(discriminant)) / a`.
/// The roots mean nothing where the discriminant is negative.
#[derive(Clone, Copy, Debug)]
pub struct Roots {
    pub discriminant: Scalar,
    pub near: Scalar,
    pub far: Scalar,
}

/// Whether `t` lies in the window that is open at `t_min` and closed at
/// `t_max`.
pub open spec fn within(t: Scalar, t_min: Scalar, t_max: Scalar) -> bool {
    t_min.less(t) && t.at_most(t_max)
}

impl Roots {
    /// The ray misses the sphere: the discriminant is below zero.
    pub open spec fn misses(self) -> bool {
        self.discriminant.less(Scalar::spec_zero())
    }

    /// The root that counts as the hit in a window: the near one if it lies
    /// in the window, else the far one if that does, else none.
    pub open spec fn chosen(self, t_min: Scalar, t_max: Scalar) -> Option<Scalar> {
        if self.misses() {
            None
        } else if within(self.near, t_min, t_max) {
            Some(self.near)
        } else if within(self.far, t_min, t_max) {
            Some(self.far)
        } else {
            None
        }
    }

    /// The roots are in order: where both are numbers, the near one is not
    /// above the far one. True of the roots of any ray with a direction.
    pub open spec fn ordered(self) -> bool {
        self.near.nan() || self.far.nan() || self.near.at_most(self.far)
    }

    pub fn new(discriminant: Scalar, near: Scalar, far: Scalar) -> (r: Roots)
        ensures
            r.discriminant == discriminant,
            r.near == near,
            r.far == far,
    {
        Roots { discriminant, near, far }
    }

    /// The parameter at which the ray hits the sphere within the window
    /// `t.0 < t <= t.1`, if it does: the front of the sphere is preferred
    /// to its back.
    pub fn hit(&self, t: (Scalar, Scalar)) -> (r: Option<Scalar>)
        ensures
            r == self.chosen(t.0, t.1),
    {
        if self.discriminant.lt(Scalar::zero()) {
            return None;
        }
        if t.0.lt(self.near) && self.near.le(t.1) {
            return Some(self.near);
        }
        if t.0.lt(self.far) && self.far.le(t.1) {
            return Some(self.far);
        }
        None
    }
}

/// A chosen root is a number inside the window, and one of the two roots of
/// a ray that does not miss.
pub proof fn lemma_chosen_within(r: Roots, t_min: Scalar, t_max: Scalar)
    ensures
        match r.chosen(t_min, t_max) {
            Some(t) => within(t, t_min, t_max) && !t.nan() && !r.misses() && (t == r.near || t
                == r.far),
            None => r.misses() || (!within(r.near, t_min, t_max) && !within(
                r.far,
                t_min,
                t_max,
            )),
        },
{
}

/// Narrowing the window from above never changes which root is chosen, it
/// only loses roots beyond the new bound (for roots in order).
pub proof fn lemma_chosen_narrowed(r: Roots, t_min: Scalar, bound: Scalar, t_max: Scalar)
    requires
        r.ordered(),
        bound.at_most(t_max),
    ensures
        r.chosen(t_min, bound) == match r.chosen(t_min, t_max) {
            Some(t) => if t.at_most(bound) {
                Some(t)
            } else {
                None
            },
            None => None,
        },
{
}

} // verus!
