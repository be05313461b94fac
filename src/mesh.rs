//! Faces of a loaded mesh: its index list read three at a time.
use vstd::prelude::*;

verus! {

/// Why an index list does not describe a triangle mesh.
#[derive(Clone, Copy, Debug, PartialEq, Eq, Structural)]
pub enum MeshError {
    /// The number of indices is not a multiple of three.
    IncompleteFace,
    /// The index at `position` names no vertex.
    IndexOutOfRange { position: usize },
}

/// The three vertex indices of face `k`.
pub open spec fn face(indices: Seq<u16>, k: int) -> [usize; 3] {
    [indices[3 * k] as usize, indices[3 * k + 1] as usize, indices[3 * k + 2] as usize]
}

/// The corners of each triangle of a mesh with `vertex_count` vertices, one
/// face per three consecutive indices. Fails on a trailing partial face, and
/// else at the first index that names no vertex.
pub fn face_vertices(indices: &Vec<u16>, vertex_count: usize) -> (r: Result<
    Vec<[usize; 3]>,
    MeshError,
>)
    ensures
        r == Err::<Vec<[usize; 3]>, MeshError>(MeshError::IncompleteFace) <==> indices@.len() % 3
            != 0,
        r matches Err(MeshError::IndexOutOfRange { position }) ==> indices@.len() % 3 == 0
            && position < indices@.len() && indices@[position as int] >= vertex_count
            && forall|j: int| 0 <= j < position ==> indices@[j] < vertex_count,
        r is Ok <==> indices@.len() % 3 == 0 && forall|j: int|
            0 <= j < indices@.len() ==> indices@[j] < vertex_count,
        r matches Ok(faces) ==> faces@.len() == indices@.len() / 3 && forall|k: int|
            0 <= k < faces@.len() ==> #[trigger] faces@[k]@ == face(indices@, k)@,
{
    if indices.len() % 3 != 0 {
        return Err(MeshError::IncompleteFace);
    }
    let mut j: usize = 0;
    while j < indices.len()
        invariant
            j <= indices@.len(),
            indices@.len() % 3 == 0,
            forall|i: int| 0 <= i < j ==> indices@[i] < vertex_count,
        decreases indices@.len() - j,
    {
        if indices[j] as usize >= vertex_count {
            return Err(MeshError::IndexOutOfRange { position: j });
        }
        j += 1;
    }
    let mut faces: Vec<[usize; 3]> = Vec::new();
    let mut k: usize = 0;
    let n = indices.len();
    let count = n / 3;
    while k < count
        invariant
            n == indices@.len(),
            count == n / 3,
            indices@.len() % 3 == 0,
            k <= count,
            faces@.len() == k,
            forall|i: int| 0 <= i < k ==> #[trigger] faces@[i]@ == face(indices@, i)@,
        decreases count - k,
    {
        let corners = [indices[3 * k] as usize, indices[3 * k + 1] as usize, indices[3 * k + 2] as usize];
        faces.push(corners);
        k += 1;
    }
    Ok(faces)
}

} // verus!
