use vstd::prelude::*;

use super::asset::{Asset, AssetId};

verus! {

/// A loaded mesh: its vertices, and triangles as indices into them.
pub struct LoadedMesh<V> {
    pub id: AssetId,
    pub vertices: Vec<V>,
    pub indices: Vec<u32>,
}

impl<V> Asset for LoadedMesh<V> {
    fn id(&self) -> (r: AssetId)
        ensures
            r == self.id,
    {
        self.id
    }
}

/// The corners of the unit cube, as indices into its eight positions (front face
/// `-x-y+z, +x-y+z, +x+y+z, -x+y+z`, then the back face in the same order), of each face:
/// front, back, right, left, up, down, each counter-clockwise seen from outside.
pub open spec fn spec_cube_face(face: int) -> Seq<usize> {
    if face == 0 {
        seq![0usize, 1, 2, 3]
    } else if face == 1 {
        seq![5usize, 4, 7, 6]
    } else if face == 2 {
        seq![1usize, 5, 6, 2]
    } else if face == 3 {
        seq![4usize, 0, 3, 7]
    } else if face == 4 {
        seq![3usize, 2, 6, 7]
    } else {
        seq![1usize, 0, 4, 5]
    }
}

/// The corners of face `face` of the unit cube.
pub fn cube_face(face: usize) -> (r: [usize; 4])
    requires
        face < 6,
    ensures
        r@ == spec_cube_face(face as int),
{
    let r: [usize; 4] = if face == 0 {
        [0, 1, 2, 3]
    } else if face == 1 {
        [5, 4, 7, 6]
    } else if face == 2 {
        [1, 5, 6, 2]
    } else if face == 3 {
        [4, 0, 3, 7]
    } else if face == 4 {
        [3, 2, 6, 7]
    } else {
        [1, 0, 4, 5]
    };
    assert(r@ =~= spec_cube_face(face as int));
    r
}

/// The corner of each of a face's two triangles: bottom right, then top left.
pub open spec fn face_triangle_corner(j: int) -> u32 {
    if j == 0 {
        0
    } else if j == 1 {
        1
    } else if j == 2 {
        2
    } else if j == 3 {
        2
    } else if j == 4 {
        3
    } else {
        0
    }
}

/// The triangles of the unit cube: its six faces of four vertices each, two triangles per face.
pub fn unit_cube_indices() -> (r: Vec<u32>)
    ensures
        r@.len() == 36,
        forall|f: int, j: int| 0 <= f < 6 && 0 <= j < 6 ==> #[trigger] r@[6 * f + j] == 4 * f + face_triangle_corner(j),
{
    let schema: [u32; 6] = [0, 1, 2, 2, 3, 0];
    let mut indices: Vec<u32> = Vec::new();
    let mut face: u32 = 0;
    while face < 6
        invariant
            face <= 6,
            indices@.len() == 6 * face,
            forall|j: int| 0 <= j < 6 ==> #[trigger] schema@[j] == face_triangle_corner(j),
            forall|f: int, j: int| 0 <= f < face && 0 <= j < 6 ==> #[trigger] indices@[6 * f + j] == 4 * f + face_triangle_corner(j),
        decreases 6 - face,
    {
        let offset = 4 * face;
        let mut j: usize = 0;
        while j < 6
            invariant
                face < 6,
                offset == 4 * face,
                j <= 6,
                indices@.len() == 6 * face + j,
                forall|k: int| 0 <= k < 6 ==> #[trigger] schema@[k] == face_triangle_corner(k),
                forall|k: int| 0 <= k < j ==> #[trigger] indices@[6 * face + k] == 4 * face + face_triangle_corner(k),
                forall|f: int, k: int| 0 <= f < face && 0 <= k < 6 ==> #[trigger] indices@[6 * f + k] == 4 * f + face_triangle_corner(k),
            decreases 6 - j,
        {
            indices.push(offset + schema[j]);
            j = j + 1;
        }
        face = face + 1;
    }
    indices
}

} // verus!
