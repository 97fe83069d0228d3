//! The decisions of the depth-bounded trace.
//!
//! A trace follows a ray through the scene. At each surface it either ends
//! in black, ends by shading a matte surface, or goes on along the mirrored
//! ray with one unit of depth less. The depth is the only state it carries.

use vstd::prelude::*;
use crate::obj::{HitRecord, Material};
use crate::scene::{is_nearest, record_at};

verus! {

/// What a trace does next.
#[derive(Clone, Copy, Debug, PartialEq, Eq, Structural)]
pub enum Step {
    /// The trace ends with the colour `(0, 0, 0)`.
    Black,
    /// The trace goes on along the mirrored ray with `depth` left.
    Reflect { depth: i32 },
    /// The trace ends by shading a matte surface of these channels.
    Shade { r: i32, g: i32, b: i32 },
}

impl Step {
    /// A step is final when it ends the trace.
    pub open spec fn is_final(self) -> bool {
        !(self is Reflect)
    }

    /// A step is well formed when the depth it leaves is not negative and
    /// the channels it shades are those of a well-formed material.
    pub open spec fn wf(self) -> bool {
        match self {
            Step::Black => true,
            Step::Reflect { depth } => depth >= 0,
            Step::Shade { r, g, b } => Material::Diffuse(r, g, b).wf(),
        }
    }
}

/// The step taken with `depth` left when the nearest surface has the given
/// material, or when the ray meets nothing.
pub open spec fn step_spec(depth: int, met: Option<Material>) -> Step {
    if depth <= 0 {
        Step::Black
    } else {
        match met {
            None => Step::Black,
            Some(Material::Specular) => Step::Reflect { depth: (depth - 1) as i32 },
            Some(Material::Diffuse(r, g, b)) => Step::Shade { r, g, b },
        }
    }
}

/// The material of an optional record.
pub open spec fn material_of(found: Option<HitRecord>) -> Option<Material> {
    match found {
        Some(h) => Some(h.material),
        None => None,
    }
}

/// Decides the next step of a trace from the depth that is left and the
/// nearest hit of the current ray.
pub fn trace_step(depth: i32, found: Option<HitRecord>) -> (step: Step)
    ensures
        step == step_spec(depth as int, material_of(found)),
        depth <= 0 ==> step == Step::Black,
        step matches Step::Reflect { depth: left } ==> 0 <= left < depth,
        (found matches Some(h) ==> h.material.wf()) ==> step.wf(),
{
    if depth <= 0 {
        return Step::Black;
    }
    match found {
        None => Step::Black,
        Some(h) => match h.material {
            Material::Specular => Step::Reflect { depth: depth - 1 },
            Material::Diffuse(r, g, b) => Step::Shade { r, g, b },
        },
    }
}

/// Whether the light reaches a surface point.
#[derive(Clone, Copy, Debug, PartialEq, Eq, Structural)]
pub enum Light {
    /// Nothing stands between the point and the light.
    Lit,
    /// Another surface stands between the point and the light.
    Occluded,
}

/// A point is lit when the shadow ray meets nothing, or meets its nearest
/// surface strictly beyond the light.
pub open spec fn light_spec(blocker: Option<HitRecord>, light_distance: i64) -> Light {
    match blocker {
        None => Light::Lit,
        Some(h) => if h.t > light_distance {
            Light::Lit
        } else {
            Light::Occluded
        },
    }
}

/// Decides whether a surface point is lit, from the nearest hit of the
/// shadow ray and the distance from the point to the light.
pub fn shadow(blocker: Option<HitRecord>, light_distance: i64) -> (light: Light)
    ensures
        light == light_spec(blocker, light_distance),
{
    match blocker {
        None => Light::Lit,
        Some(h) => if h.t > light_distance {
            Light::Lit
        } else {
            Light::Occluded
        },
    }
}

impl Light {
    /// The share of the light's power that arrives, as a fraction: all of it
    /// at a lit point, one fifth at an occluded one.
    pub open spec fn coefficient_spec(self) -> (int, int) {
        match self {
            Light::Lit => (1, 1),
            Light::Occluded => (1, 5),
        }
    }

    /// The share of the light's power that arrives, as numerator and
    /// denominator.
    pub fn coefficient(&self) -> (share: (u32, u32))
        ensures
            (share.0 as int, share.1 as int) == self.coefficient_spec(),
            0 < share.0 <= share.1,
    {
        match *self {
            Light::Lit => (1, 1),
            Light::Occluded => (1, 5),
        }
    }
}

/// The final step of a whole trace that starts with `depth` left, where
/// `path(k)` is the material met after `k` reflections, if any.
pub open spec fn outcome(depth: int, path: spec_fn(int) -> Option<Material>, from: int) -> Step
    decreases depth,
{
    if depth <= 0 {
        Step::Black
    } else {
        match path(from) {
            None => Step::Black,
            Some(Material::Diffuse(r, g, b)) => Step::Shade { r, g, b },
            Some(Material::Specular) => outcome(depth - 1, path, from + 1),
        }
    }
}

/// The number of reflections that a whole trace makes before it ends.
pub open spec fn reflections(depth: int, path: spec_fn(int) -> Option<Material>, from: int) -> int
    decreases depth,
{
    if depth <= 0 {
        0
    } else {
        match path(from) {
            Some(Material::Specular) => 1 + reflections(depth - 1, path, from + 1),
            _ => 0,
        }
    }
}

/// With no depth left a trace is black, whatever the ray meets.
pub proof fn lemma_no_depth_is_black(depth: int, met: Option<Material>)
    requires
        depth <= 0,
    ensures
        step_spec(depth, met) == Step::Black,
{
}

/// A trace always ends: whatever surfaces lie on its path, it makes at most
/// `depth` reflections and then takes a final step. A trace that has used up
/// its depth on mirrors ends in black.
pub proof fn lemma_trace_ends(depth: int, path: spec_fn(int) -> Option<Material>, from: int)
    ensures
        outcome(depth, path, from).is_final(),
        0 <= reflections(depth, path, from),
        depth >= 0 ==> reflections(depth, path, from) <= depth,
        depth > 0 && reflections(depth, path, from) == depth ==> outcome(depth, path, from)
            == Step::Black,
    decreases depth,
{
    if depth > 0 {
        lemma_trace_ends(depth - 1, path, from + 1);
    }
}

/// A whole trace is the repetition of single steps: it ends where the first
/// step is final, and otherwise goes on from the next surface with the depth
/// that the step left.
pub proof fn lemma_outcome_unfolds(depth: int, path: spec_fn(int) -> Option<Material>, from: int)
    requires
        depth <= i32::MAX,
    ensures
        outcome(depth, path, from) == match step_spec(depth, path(from)) {
            Step::Reflect { depth: left } => outcome(left as int, path, from + 1),
            last => last,
        },
{
}

/// A point is lit exactly when no surface on the shadow ray lies at or
/// before the light: deciding on the nearest hit alone loses nothing.
pub proof fn lemma_lit_iff_nothing_before_light(
    hits: Seq<Option<HitRecord>>,
    best: Option<int>,
    light_distance: i64,
)
    requires
        is_nearest(hits, best),
    ensures
        light_spec(record_at(hits, best), light_distance) == Light::Lit <==> forall|j: int|
            0 <= j < hits.len() && (#[trigger] hits[j]) is Some ==> hits[j].unwrap().t
                > light_distance,
{
    match best {
        Some(i) => {
            assert(hits[i] is Some);
        },
        None => {},
    }
}

} // verus!
