//! Rays: the half-lines `origin + t * direction` that the scene is queried with.
use vstd::prelude::*;
use crate::vec3::{Point, Vec3};

verus! {

/// A ray. The direction need not have unit length: a parameter `t` along the
/// ray counts in multiples of it.
#[derive(Clone, Copy, Debug)]
pub struct Ray {
    pub origin: Point,
    pub direction: Vec3,
}

impl Ray {
    pub fn new(origin: Point, direction: Vec3) -> (r: Ray)
        ensures
            r.origin == origin,
            r.direction == direction,
    {
        Ray { origin, direction }
    }

    pub fn get_origin(&self) -> (p: &Point)
        ensures
            *p == self.origin,
    {
        &self.origin
    }

    pub fn get_direction(&self) -> (d: &Vec3)
        ensures
            *d == self.direction,
    {
        &self.direction
    }
}

} // verus!
