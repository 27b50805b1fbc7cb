//! The decision core of a Monte Carlo sphere tracer.
//!
//! Every number of the renderer is an IEEE 754 binary64 value. This crate
//! holds such a value by its 64-bit encoding ([`scalar::Scalar`]) and proves
//! everything the renderer *decides* with it: comparisons, sign flips,
//! clamping, which root of a ray-sphere equation counts as the hit, which
//! hit of a scene is nearest, whether a material scatters, and when a light
//! path ends. Rounded arithmetic (sums, products, square roots) is left to
//! the caller, who hands its results in as scalars.
pub mod equality;
pub mod image;
pub mod integrator;
pub mod objects;
pub mod ray;
pub mod scalar;
pub mod sphere;
pub mod utility;
pub mod vec3;
