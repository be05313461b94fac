//! Hit rules of the primitives. The caller supplies the quantities of each
//! closed-form solver; these functions decide whether and where a ray hits.
use crate::ieee32::Ieee32;
use vstd::prelude::*;

verus! {

/// Sphere: `offset_sq` is the squared distance from the center to the ray's
/// line, `near` and `far` the two roots along the ray. No hit when the line
/// passes farther than the radius (a tangent line hits); else the nearer root
/// when it lies ahead of the origin, else the farther one, else no hit.
pub open spec fn sphere_hit(offset_sq: Ieee32, radius_sq: Ieee32, near: Ieee32, far: Ieee32) -> Option<
    Ieee32,
> {
    if radius_sq.less(offset_sq) {
        None
    } else if near.positive() {
        Some(near)
    } else if far.positive() {
        Some(far)
    } else {
        None
    }
}

/// Whether a ray meets the front face of a plane: `normal_dot_dir` is
/// `normal · direction`, and a value `>= 0` (moving away, or parallel) is
/// rejected.
pub open spec fn facing(normal_dot_dir: Ieee32) -> bool {
    !normal_dot_dir.non_negative()
}

/// Plane: the parametric distance `t`, even a negative one, for a ray that
/// meets the front face.
pub open spec fn plane_hit(normal_dot_dir: Ieee32, t: Ieee32) -> Option<Ieee32> {
    if facing(normal_dot_dir) {
        Some(t)
    } else {
        None
    }
}

/// Containment along one edge of a rectangle: the projection lies in the
/// half-open range `[0, length)`.
pub open spec fn within_edge(projection: Ieee32, length: Ieee32) -> bool {
    projection.non_negative() && projection.less(length)
}

/// Rectangle: a front-face hit at a distance that is not negative, whose point
/// projects inside both edges.
pub open spec fn rectangle_hit(
    normal_dot_dir: Ieee32,
    t: Ieee32,
    width_projection: Ieee32,
    width: Ieee32,
    height_projection: Ieee32,
    height: Ieee32,
) -> Option<Ieee32> {
    if facing(normal_dot_dir) && !t.below_zero() && within_edge(height_projection, height)
        && within_edge(width_projection, width) {
        Some(t)
    } else {
        None
    }
}

/// Triangle: a front-face hit whose point lies on the inner side of all three
/// edges; `edge0`, `edge1` and `edge2` are the normal's dot products with the
/// cross products of each edge and the vector from its start to the point.
/// The boundary counts as inside.
pub open spec fn triangle_hit(
    normal_dot_dir: Ieee32,
    t: Ieee32,
    edge0: Ieee32,
    edge1: Ieee32,
    edge2: Ieee32,
) -> Option<Ieee32> {
    if facing(normal_dot_dir) && edge0.non_negative() && edge1.non_negative()
        && edge2.non_negative() {
        Some(t)
    } else {
        None
    }
}

pub fn sphere_distance(offset_sq: Ieee32, radius_sq: Ieee32, near: Ieee32, far: Ieee32) -> (r:
    Option<Ieee32>)
    ensures
        r == sphere_hit(offset_sq, radius_sq, near, far),
{
    if offset_sq.gt(radius_sq) {
        None
    } else if near.is_positive() {
        Some(near)
    } else if far.is_positive() {
        Some(far)
    } else {
        None
    }
}

pub fn faces_ray(normal_dot_dir: Ieee32) -> (r: bool)
    ensures
        r == facing(normal_dot_dir),
{
    !normal_dot_dir.ge(Ieee32::zero())
}

pub fn plane_distance(normal_dot_dir: Ieee32, t: Ieee32) -> (r: Option<Ieee32>)
    ensures
        r == plane_hit(normal_dot_dir, t),
{
    if faces_ray(normal_dot_dir) {
        Some(t)
    } else {
        None
    }
}

pub fn contains_projection(projection: Ieee32, length: Ieee32) -> (r: bool)
    ensures
        r == within_edge(projection, length),
{
    projection.ge(Ieee32::zero()) && projection.lt(length)
}

pub fn rectangle_distance(
    normal_dot_dir: Ieee32,
    t: Ieee32,
    width_projection: Ieee32,
    width: Ieee32,
    height_projection: Ieee32,
    height: Ieee32,
) -> (r: Option<Ieee32>)
    ensures
        r == rectangle_hit(normal_dot_dir, t, width_projection, width, height_projection, height),
{
    if !faces_ray(normal_dot_dir) || t.lt(Ieee32::zero()) {
        return None;
    }
    if contains_projection(height_projection, height) && contains_projection(
        width_projection,
        width,
    ) {
        Some(t)
    } else {
        None
    }
}

pub fn triangle_distance(
    normal_dot_dir: Ieee32,
    t: Ieee32,
    edge0: Ieee32,
    edge1: Ieee32,
    edge2: Ieee32,
) -> (r: Option<Ieee32>)
    ensures
        r == triangle_hit(normal_dot_dir, t, edge0, edge1, edge2),
{
    if !faces_ray(normal_dot_dir) {
        return None;
    }
    let zero = Ieee32::zero();
    if !edge0.ge(zero) || !edge1.ge(zero) || !edge2.ge(zero) {
        return None;
    }
    Some(t)
}

/// A ray that starts strictly inside a sphere (the roots straddle the origin:
/// the near one is not ahead, the far one is) hits it at the far root; and
/// whenever the far root lies ahead the sphere reports a hit ahead.
pub proof fn lemma_inside_sphere_hits_ahead(
    offset_sq: Ieee32,
    radius_sq: Ieee32,
    near: Ieee32,
    far: Ieee32,
)
    requires
        !radius_sq.less(offset_sq),
        far.positive(),
    ensures
        sphere_hit(offset_sq, radius_sq, near, far) is Some,
        sphere_hit(offset_sq, radius_sq, near, far).unwrap().positive(),
        !near.positive() ==> sphere_hit(offset_sq, radius_sq, near, far) == Some(far),
{
}

/// A ray parallel to a plane (`normal · direction` equal to zero, of either
/// sign) hits neither the plane nor a rectangle or triangle in it.
pub proof fn lemma_parallel_ray_misses(
    normal_dot_dir: Ieee32,
    t: Ieee32,
    a: Ieee32,
    b: Ieee32,
    c: Ieee32,
    d: Ieee32,
)
    requires
        !normal_dot_dir.nan(),
        normal_dot_dir.value() == 0,
    ensures
        plane_hit(normal_dot_dir, t) is None,
        rectangle_hit(normal_dot_dir, t, a, b, c, d) is None,
        triangle_hit(normal_dot_dir, t, a, b, c) is None,
{
}

/// Rectangle containment is inclusive at the near edge and exclusive at the
/// far edge: a projection equal to zero is inside a nonempty edge, and one
/// equal to the edge's length is outside.
pub proof fn lemma_rectangle_edge_bounds(projection: Ieee32, length: Ieee32)
    ensures
        !projection.nan() && projection.value() == 0 && length.positive() ==> within_edge(
            projection,
            length,
        ),
        projection.equal_value(length) ==> !within_edge(projection, length),
{
}

/// A front-face hit on the inner side of all three edges is a triangle hit at
/// `t`; one on the outer side of any edge is none.
pub proof fn lemma_triangle_containment(
    normal_dot_dir: Ieee32,
    t: Ieee32,
    edge0: Ieee32,
    edge1: Ieee32,
    edge2: Ieee32,
)
    requires
        normal_dot_dir.below_zero(),
    ensures
        edge0.non_negative() && edge1.non_negative() && edge2.non_negative() ==> triangle_hit(
            normal_dot_dir,
            t,
            edge0,
            edge1,
            edge2,
        ) == Some(t),
        edge0.below_zero() || edge1.below_zero() || edge2.below_zero() ==> triangle_hit(
            normal_dot_dir,
            t,
            edge0,
            edge1,
            edge2,
        ) is None,
{
}

} // verus!
