//! Rules of the recursive shader: when a ray still meets geometry, the depth
//! of secondary rays, the side of the self-intersection offset, and the
//! orientation and total-internal-reflection test of refraction.
use crate::ieee32::{clamp_int, unit, Ieee32};
use crate::material::{Material, REFLECTIVE, TRANSMISSIVE};
use vstd::prelude::*;

verus! {

/// Rays at this depth or deeper sample the environment without meeting
/// geometry.
pub const MAX_DEPTH: u8 = 4;

/// Whether a ray at `depth` is intersected with the scene.
pub open spec fn meets_geometry(depth: nat) -> bool {
    depth < MAX_DEPTH
}

/// The secondary rays a hit spawns, each with its depth: a reflection when the
/// reflective weight is strictly positive, a refraction when the transmissive
/// weight is; the reflection is traced before the refraction.
#[derive(Clone, Copy, Debug, PartialEq, Eq, Structural)]
pub struct SecondaryRays {
    pub reflection: Option<u8>,
    pub refraction: Option<u8>,
}

pub open spec fn secondary_plan(depth: nat, material: Material) -> SecondaryRays {
    SecondaryRays {
        reflection: if material.albedo_of()@[REFLECTIVE as int].positive() {
            Some((depth + 1) as u8)
        } else {
            None
        },
        refraction: if material.albedo_of()@[TRANSMISSIVE as int].positive() {
            Some((depth + 1) as u8)
        } else {
            None
        },
    }
}

/// The incidence cosine and side of a refraction: `exiting` when the ray
/// leaves the medium (the normal is then negated and the two refractive
/// indices swapped), `cosine` the cosine measured against the normal that
/// faces the incoming ray.
#[derive(Clone, Copy, Debug, PartialEq, Eq, Structural)]
pub struct Incidence {
    pub cosine: Ieee32,
    pub exiting: bool,
}

/// `normal · incoming` clamped to `[-1, 1]` as `f32::max(-1, f32::min(1, x))`
/// does, which takes a NaN to 1.
pub open spec fn clamped_dot(normal_dot_incoming: Ieee32) -> int {
    if normal_dot_incoming.nan() {
        unit()
    } else {
        clamp_int(normal_dot_incoming.value(), -unit(), unit())
    }
}

pub fn traces_geometry(depth: u8) -> (r: bool)
    ensures
        r == meets_geometry(depth as nat),
{
    depth < MAX_DEPTH
}

/// The depth of a reflection or refraction ray spawned at `depth`.
pub fn child_depth(depth: u8) -> (r: u8)
    requires
        meets_geometry(depth as nat),
    ensures
        r == depth + 1,
{
    depth + 1
}

/// The secondary rays of a hit at `depth` on `material`.
pub fn secondary_rays(depth: u8, material: &Material) -> (r: SecondaryRays)
    requires
        meets_geometry(depth as nat),
    ensures
        r == secondary_plan(depth as nat, *material),
{
    let next = child_depth(depth);
    SecondaryRays {
        reflection: if material.reflects() {
            Some(next)
        } else {
            None
        },
        refraction: if material.transmits() {
            Some(next)
        } else {
            None
        },
    }
}

/// Whether a secondary ray's origin moves along the normal (rather than
/// against it): toward the side the ray leaves to, by the sign of
/// `direction · normal`.
pub fn offset_along_normal(direction_dot_normal: Ieee32) -> (r: bool)
    ensures
        r == direction_dot_normal.positive(),
{
    direction_dot_normal.is_positive()
}

/// The refraction's orientation from `normal · incoming`: `cos_i` is minus the
/// clamped dot product; a negative `cos_i` means the ray is exiting, and the
/// cosine is then taken against the negated normal.
pub fn incidence(normal_dot_incoming: Ieee32) -> (r: Incidence)
    ensures
        !r.cosine.nan(),
        r.exiting == (clamped_dot(normal_dot_incoming) > 0),
        r.cosine.value() == (if r.exiting {
            clamped_dot(normal_dot_incoming)
        } else {
            -clamped_dot(normal_dot_incoming)
        }),
{
    let clamped = Ieee32::minus_one().max(Ieee32::one().min(normal_dot_incoming));
    let cos_i = clamped.neg();
    if cos_i.lt(Ieee32::zero()) {
        Incidence { cosine: clamped, exiting: true }
    } else {
        Incidence { cosine: cos_i, exiting: false }
    }
}

/// Whether the ray refracts, given `k = 1 - eta^2 (1 - cos_i^2)`: total
/// internal reflection when `k <= 0`.
pub fn refracts(k: Ieee32) -> (r: bool)
    ensures
        r == !(!k.nan() && k.value() <= 0),
{
    !k.le(Ieee32::zero())
}

/// How many rays a path of mirror bounces traces from `depth` on, when every
/// ray that meets geometry hits a mirror and spawns one reflection.
pub open spec fn mirror_path_rays(depth: nat) -> nat
    decreases MAX_DEPTH - depth,
{
    if meets_geometry(depth) {
        1 + mirror_path_rays(depth + 1)
    } else {
        0
    }
}

/// Between mirrors (a material that reflects and does not transmit), a
/// primary ray and its reflections meet geometry exactly `MAX_DEPTH` times, at
/// depths `0..MAX_DEPTH`, each hit spawning one reflection one level deeper;
/// the reflection at depth `MAX_DEPTH` samples the environment, so the
/// recursion ends there.
pub proof fn lemma_mirror_recursion_ends(mirror: Material)
    requires
        mirror.albedo_of()@[REFLECTIVE as int].positive(),
        !mirror.albedo_of()@[TRANSMISSIVE as int].positive(),
    ensures
        mirror_path_rays(0) == MAX_DEPTH,
        forall|d: nat|
            d < MAX_DEPTH ==> meets_geometry(d) && #[trigger] secondary_plan(d, mirror) == (
            SecondaryRays { reflection: Some((d + 1) as u8), refraction: None }),
        !meets_geometry(MAX_DEPTH as nat),
{
    reveal_with_fuel(mirror_path_rays, 5);
}

} // verus!
