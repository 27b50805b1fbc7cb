//! `==` on scalars and vectors: equality of numbers, not of encodings.
use vstd::prelude::*;
use vstd::std_specs::cmp::PartialEqSpecImpl;
use crate::scalar::Scalar;
use crate::vec3::Vec3;

verus! {

impl PartialEq for Scalar {
    /// Equal as numbers: the two zeros are equal, a NaN equals nothing.
    fn eq(&self, other: &Scalar) -> (r: bool) {
        self.eq_value(*other)
    }
}

impl PartialEqSpecImpl for Scalar {
    open spec fn obeys_eq_spec() -> bool {
        true
    }

    open spec fn eq_spec(&self, other: &Scalar) -> bool {
        self.same(*other)
    }
}

impl PartialEq for Vec3 {
    /// Equal component by component.
    fn eq(&self, other: &Vec3) -> (r: bool) {
        self.0.eq_value(other.0) && self.1.eq_value(other.1) && self.2.eq_value(other.2)
    }
}

impl PartialEqSpecImpl for Vec3 {
    open spec fn obeys_eq_spec() -> bool {
        true
    }

    open spec fn eq_spec(&self, other: &Vec3) -> bool {
        self.0.same(other.0) && self.1.same(other.1) && self.2.same(other.2)
    }
}

} // verus!
