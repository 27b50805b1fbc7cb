//! Triples of scalars: directions, points and colors.
use vstd::prelude::*;
use crate::scalar::Scalar;
use crate::utility::{random_unit, unit_draw};

verus! {

/// The encoding of `1e-8`, below which a component counts as vanished.
pub const NEAR_ZERO_BITS: u64 = 0x3E45_798E_E230_8C3A;

/// Three scalars.
#[derive(Clone, Copy, Debug)]
pub struct Vec3(pub Scalar, pub Scalar, pub Scalar);

/// A position.
pub type Point = Vec3;

/// A color, as red, green and blue.
pub type Color = Vec3;

impl Vec3 {
    /// The vector with every component's sign flipped.
    pub open spec fn negated(self) -> Vec3 {
        Vec3(self.0.negated(), self.1.negated(), self.2.negated())
    }

    /// Whether every component is a number of absolute value below `1e-8`.
    pub open spec fn vanishes(self) -> bool {
        let s = Scalar { bits: NEAR_ZERO_BITS };
        self.0.absolute().less(s) && self.1.absolute().less(s) && self.2.absolute().less(s)
    }

    /// The opposite of `sample` where `facing` is below zero, else `sample`
    /// itself.
    pub open spec fn toward(sample: Vec3, facing: Scalar) -> Vec3 {
        if facing.less(Scalar::spec_zero()) {
            sample.negated()
        } else {
            sample
        }
    }

    /// Three independent uniform draws from zero up to, but not including,
    /// one.
    pub fn random() -> (v: Vec3)
        ensures
            unit_draw(v.0),
            unit_draw(v.1),
            unit_draw(v.2),
            Scalar::spec_zero().at_most(v.0) && v.0.less(Scalar::spec_one()),
            Scalar::spec_zero().at_most(v.1) && v.1.less(Scalar::spec_one()),
            Scalar::spec_zero().at_most(v.2) && v.2.less(Scalar::spec_one()),
    {
        let x = random_unit();
        let y = random_unit();
        let z = random_unit();
        Vec3(x, y, z)
    }

    pub fn new(x: Scalar, y: Scalar, z: Scalar) -> (v: Vec3)
        ensures
            v == Vec3(x, y, z),
    {
        Vec3(x, y, z)
    }

    pub fn x(&self) -> (r: Scalar)
        ensures
            r == self.0,
    {
        self.0
    }

    pub fn y(&self) -> (r: Scalar)
        ensures
            r == self.1,
    {
        self.1
    }

    pub fn z(&self) -> (r: Scalar)
        ensures
            r == self.2,
    {
        self.2
    }

    /// `-self`, component by component.
    pub fn neg(self) -> (v: Vec3)
        ensures
            v == self.negated(),
    {
        Vec3(self.0.neg(), self.1.neg(), self.2.neg())
    }

    /// Whether the vector is too short to serve as a direction: all three
    /// components strictly within `1e-8` of zero.
    pub fn near_zero(&self) -> (r: bool)
        ensures
            r == self.vanishes(),
    {
        let s = Scalar::from_bits(NEAR_ZERO_BITS);
        self.0.abs().lt(s) && self.1.abs().lt(s) && self.2.abs().lt(s)
    }

    /// Turns a sample from the unit ball into the hemisphere around a
    /// normal. `facing` is the sample's dot product with that normal: a
    /// sample with a negative one is mirrored through the origin, any other
    /// is kept.
    pub fn random_in_hemisphere(in_unit_sphere: Vec3, facing: Scalar) -> (v: Vec3)
        ensures
            v == Vec3::toward(in_unit_sphere, facing),
    {
        if facing.lt(Scalar::zero()) {
            in_unit_sphere.neg()
        } else {
            in_unit_sphere
        }
    }
}

/// Negating a vector twice gives it back.
pub proof fn lemma_negated_twice(v: Vec3)
    ensures
        v.negated().negated() == v,
{
    crate::scalar::lemma_negated(v.0);
    crate::scalar::lemma_negated(v.1);
    crate::scalar::lemma_negated(v.2);
}

} // verus!
