//! Queries over the distances at which each primitive of a scene is hit,
//! listed in scene order (`None` where a primitive reports no hit).
use crate::ieee32::Ieee32;
use vstd::prelude::*;

verus! {

/// Bit pattern of `1000.0`: a distance at or beyond it counts as no hit.
pub const INTERSECT_LIMIT_BITS: u32 = 0x447a_0000;

pub open spec fn intersect_limit() -> Ieee32 {
    Ieee32 { bits: INTERSECT_LIMIT_BITS }
}

/// A distance that counts as a hit: ahead of the origin and below the limit.
pub open spec fn valid_distance(t: Ieee32) -> bool {
    t.positive() && t.less(intersect_limit())
}

pub open spec fn valid_at(hits: Seq<Option<Ieee32>>, j: int) -> bool {
    hits[j] is Some && valid_distance(hits[j].unwrap())
}

/// `(t, i)` is the nearest valid hit among the first `n` entries, and the first
/// one at that distance.
pub open spec fn nearest_among(hits: Seq<Option<Ieee32>>, n: int, t: Ieee32, i: int) -> bool {
    &&& 0 <= i < n <= hits.len()
    &&& hits[i] == Some(t)
    &&& valid_distance(t)
    &&& forall|j: int| 0 <= j < n && valid_at(hits, j) ==> t.value() <= hits[j].unwrap().value()
    &&& forall|j: int| 0 <= j < i && valid_at(hits, j) ==> t.value() < hits[j].unwrap().value()
}

/// Some primitive is hit ahead of the origin and strictly before `limit`.
pub open spec fn blocked(hits: Seq<Option<Ieee32>>, limit: Ieee32) -> bool {
    exists|j: int|
        0 <= j < hits.len() && #[trigger] hits[j] is Some && hits[j].unwrap().positive()
            && hits[j].unwrap().less(limit)
}

pub fn intersect_limit_value() -> (r: Ieee32)
    ensures
        r == intersect_limit(),
{
    Ieee32::from_bits(INTERSECT_LIMIT_BITS)
}

/// The nearest hit of a ray: the smallest valid distance and the index of the
/// primitive, the first in scene order on equal distances; `None` when no
/// distance is valid.
pub fn nearest_hit(hits: &Vec<Option<Ieee32>>) -> (r: Option<(Ieee32, usize)>)
    ensures
        r is None <==> forall|j: int| 0 <= j < hits@.len() ==> !valid_at(hits@, j),
        r matches Some((t, i)) ==> nearest_among(hits@, hits@.len() as int, t, i as int),
{
    let limit = intersect_limit_value();
    let mut best: Option<(Ieee32, usize)> = None;
    let mut i: usize = 0;
    while i < hits.len()
        invariant
            i <= hits@.len(),
            limit == intersect_limit(),
            best is None <==> forall|j: int| 0 <= j < i ==> !valid_at(hits@, j),
            best matches Some((t, k)) ==> nearest_among(hits@, i as int, t, k as int),
        decreases hits@.len() - i,
    {
        let entry = hits[i];
        assert(entry == hits@[i as int]);
        if let Some(t) = entry {
            if t.is_positive() && t.lt(limit) {
                assert(valid_at(hits@, i as int));
                match best {
                    None => {
                        best = Some((t, i));
                    },
                    Some((b, k)) => {
                        if t.lt(b) {
                            best = Some((t, i));
                        } else {
                            assert(nearest_among(hits@, i + 1, b, k as int));
                        }
                    },
                }
            } else {
                assert(!valid_at(hits@, i as int));
            }
        } else {
            assert(!valid_at(hits@, i as int));
        }
        i += 1;
    }
    best
}

/// Whether a point is in shadow for a light at `light_distance` from it:
/// `hits` are the distances along the ray from the point toward the light.
pub fn in_shadow(hits: &Vec<Option<Ieee32>>, light_distance: Ieee32) -> (r: bool)
    ensures
        r == blocked(hits@, light_distance),
{
    let mut i: usize = 0;
    while i < hits.len()
        invariant
            i <= hits@.len(),
            forall|j: int|
                0 <= j < i ==> !(#[trigger] hits@[j] is Some && hits@[j].unwrap().positive()
                    && hits@[j].unwrap().less(light_distance)),
        decreases hits@.len() - i,
    {
        if let Some(t) = hits[i] {
            if t.is_positive() && t.lt(light_distance) {
                return true;
            }
        }
        i += 1;
    }
    false
}

/// An occluder ahead of the point and nearer than the light puts the point in
/// shadow for that light; when every primitive is missed, or hit only behind
/// the point or beyond the light, the light is visible.
pub proof fn lemma_occlusion(hits: Seq<Option<Ieee32>>, light_distance: Ieee32, j: int)
    ensures
        0 <= j < hits.len() && hits[j] is Some && hits[j].unwrap().positive()
            && hits[j].unwrap().less(light_distance) ==> blocked(hits, light_distance),
        (forall|k: int|
            0 <= k < hits.len() && #[trigger] hits[k] is Some ==> !hits[k].unwrap().positive()
                || !hits[k].unwrap().less(light_distance)) ==> !blocked(hits, light_distance),
{
}

} // verus!
