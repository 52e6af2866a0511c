//! Triangles of the scene's geometry.
//!
//! A mesh comes as a list of vertices and a list of indices into it, three
//! for each triangle. The triangles are handed to the compute backend as
//! they are; nothing here looks into a vertex.

use vstd::prelude::*;

verus! {

/// A triangle, by its three corners.
#[derive(Clone, Copy, Debug)]
pub struct Triangle {
    pub v1: ultraviolet::Vec3,
    pub v2: ultraviolet::Vec3,
    pub v3: ultraviolet::Vec3,
}

impl Triangle {
    /// The triangle with the given corners.
    pub fn new(v1: ultraviolet::Vec3, v2: ultraviolet::Vec3, v3: ultraviolet::Vec3) -> (triangle:
        Triangle)
        ensures
            triangle.v1 == v1,
            triangle.v2 == v2,
            triangle.v3 == v3,
    {
        Triangle { v1, v2, v3 }
    }
}

/// Number of whole triangles that a list of indices describes; one or two
/// indices left over at the end describe none.
pub open spec fn triangle_count(indices: Seq<u32>) -> nat {
    indices.len() / 3
}

/// Every index that belongs to a whole triangle names a vertex.
pub open spec fn indices_name_vertices(vertices: Seq<ultraviolet::Vec3>, indices: Seq<u32>) -> bool {
    forall|i: int| 0 <= i < 3 * triangle_count(indices) ==> (#[trigger] indices[i]) < vertices.len()
}

/// Triangle number `k` of a mesh: its corners are the vertices named by the
/// indices `3 * k`, `3 * k + 1` and `3 * k + 2`.
pub open spec fn mesh_triangle(
    vertices: Seq<ultraviolet::Vec3>,
    indices: Seq<u32>,
    k: int,
) -> Triangle {
    Triangle {
        v1: vertices[indices[3 * k] as int],
        v2: vertices[indices[3 * k + 1] as int],
        v3: vertices[indices[3 * k + 2] as int],
    }
}

/// The triangles of a mesh, in the order of its indices, or `None` where an
/// index of a whole triangle names no vertex.
pub fn triangles_from_mesh(vertices: &Vec<ultraviolet::Vec3>, indices: &Vec<u32>) -> (triangles:
    Option<Vec<Triangle>>)
    ensures
        triangles is Some <==> indices_name_vertices(vertices@, indices@),
        triangles matches Some(list) ==> list@.len() == triangle_count(indices@) && forall|k: int|
            0 <= k < list@.len() ==> #[trigger] list@[k] == mesh_triangle(vertices@, indices@, k),
{
    let count: usize = indices.len() / 3;
    let mut list: Vec<Triangle> = Vec::new();
    let mut k: usize = 0;
    while k < count
        invariant
            k <= count,
            count == triangle_count(indices@),
            3 * count <= indices@.len() <= usize::MAX,
            list@.len() == k,
            forall|i: int| 0 <= i < 3 * k ==> (#[trigger] indices@[i]) < vertices@.len(),
            forall|j: int|
                0 <= j < k ==> #[trigger] list@[j] == mesh_triangle(vertices@, indices@, j),
        decreases count - k,
    {
        let first: usize = indices[3 * k] as usize;
        let second: usize = indices[3 * k + 1] as usize;
        let third: usize = indices[3 * k + 2] as usize;
        if first >= vertices.len() || second >= vertices.len() || third >= vertices.len() {
            proof {
                assert(indices@[3 * k] >= vertices@.len() || indices@[3 * k + 1] >= vertices@.len()
                    || indices@[3 * k + 2] >= vertices@.len());
            }
            return None;
        }
        list.push(Triangle::new(vertices[first], vertices[second], vertices[third]));
        k = k + 1;
    }
    Some(list)
}

} // verus!
