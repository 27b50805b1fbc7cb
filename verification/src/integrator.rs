//! The bookkeeping of one light path: when it goes on, and how it ends.
use vstd::prelude::*;
use crate::scalar::{Scalar, INFINITY_BITS};
use crate::vec3::{Color, Vec3};

verus! {

/// The encoding of `0.001`: hits nearer than this to a ray's origin are the
/// surface the ray has just left, seen again through rounding.
pub const SHADOW_EPSILON_BITS: u64 = 0x3F50_624D_D2F1_A9FC;

/// What happened to a ray in the scene.
#[derive(Clone, Copy, Debug, PartialEq, Eq, Structural)]
pub enum Outcome {
    /// It hit nothing.
    Miss,
    /// It hit a surface whose material swallowed it.
    Absorbed,
    /// It hit a surface whose material sent a new ray on.
    Scattered,
}

/// What a path does after one ray.
#[derive(Clone, Copy, Debug, PartialEq, Eq, Structural)]
pub enum Step {
    /// The path ends and contributes no light.
    Black,
    /// The path ends in the sky and contributes the background's color in
    /// the ray's direction.
    Background,
    /// The path goes on with the scattered ray and `depth` bounces left; its
    /// color is the attenuation times the color of the rest.
    Bounce { depth: i16 },
}

/// The step that follows a ray traced with `depth` bounces left.
pub open spec fn next_step(depth: i16, outcome: Outcome) -> Step {
    if depth <= 0 {
        Step::Black
    } else {
        match outcome {
            Outcome::Miss => Step::Background,
            Outcome::Absorbed => Step::Black,
            Outcome::Scattered => Step::Bounce { depth: (depth - 1) as i16 },
        }
    }
}

/// How a path with `depth` bounces left ends when its rays meet `outcomes`
/// in turn, and after how many bounces. `None`: the outcomes run out before
/// the path ends.
pub open spec fn path_end(depth: i16, outcomes: Seq<Outcome>) -> Option<(Step, nat)>
    decreases outcomes.len(),
{
    if depth <= 0 {
        Some((Step::Black, 0nat))
    } else if outcomes.len() == 0 {
        None
    } else {
        match next_step(depth, outcomes[0]) {
            Step::Bounce { depth: rest } => match path_end(rest, outcomes.subrange(1, outcomes.len() as int)) {
                Some((end, bounces)) => Some((end, bounces + 1)),
                None => None,
            },
            end => Some((end, 0nat)),
        }
    }
}

/// The color of a path that brings no light: all three channels zero.
pub fn black() -> (c: Color)
    ensures
        c == Vec3(Scalar::spec_zero(), Scalar::spec_zero(), Scalar::spec_zero()),
{
    Vec3::new(Scalar::zero(), Scalar::zero(), Scalar::zero())
}

/// The window of ray parameters in which a path with `depth` bounces left
/// looks for a hit: none once the budget is spent, else everything beyond
/// `0.001`.
pub fn query_window(depth: i16) -> (w: Option<(Scalar, Scalar)>)
    ensures
        depth <= 0 ==> w.is_none(),
        depth > 0 ==> w == Some(
            (Scalar { bits: SHADOW_EPSILON_BITS }, Scalar { bits: INFINITY_BITS }),
        ),
{
    if depth <= 0 {
        None
    } else {
        Some((Scalar::from_bits(SHADOW_EPSILON_BITS), Scalar::from_bits(INFINITY_BITS)))
    }
}

/// One step of the light-transport recursion: what becomes of a path with
/// `depth` bounces left whose current ray met `outcome`. A spent budget ends
/// the path in black whatever the scene holds.
pub fn ray_color(depth: i16, outcome: Outcome) -> (step: Step)
    ensures
        step == next_step(depth, outcome),
        depth <= 0 ==> step == Step::Black,
{
    if depth <= 0 {
        return Step::Black;
    }
    match outcome {
        Outcome::Miss => Step::Background,
        Outcome::Absorbed => Step::Black,
        Outcome::Scattered => Step::Bounce { depth: depth - 1 },
    }
}

/// A bounce always lowers the budget and never below zero.
pub proof fn lemma_bounce_lowers(depth: i16, outcome: Outcome)
    ensures
        match next_step(depth, outcome) {
            Step::Bounce { depth: rest } => 0 <= rest < depth,
            _ => true,
        },
{
}

/// A path ends within its budget: given as many outcomes as it has bounces
/// left, it ends, after no more bounces than that, and not in a bounce.
pub proof fn lemma_path_ends(depth: i16, outcomes: Seq<Outcome>)
    requires
        outcomes.len() >= depth,
    ensures
        match path_end(depth, outcomes) {
            Some((end, bounces)) => (end == Step::Black || end == Step::Background) && (bounces
                == 0 || bounces <= depth),
            None => false,
        },
    decreases outcomes.len(),
{
    if depth > 0 {
        match next_step(depth, outcomes[0]) {
            Step::Bounce { depth: rest } => {
                lemma_path_ends(rest, outcomes.subrange(1, outcomes.len() as int));
            },
            _ => {},
        }
    }
}

} // verus!
