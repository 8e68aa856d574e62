use vstd::prelude::*;

verus! {

/// The index of a vertex in a mesh.
pub type Index = u32;

/// A triangle mesh: its vertices, and the indices of the vertices of each
/// triangle, three per triangle.
#[derive(Clone, Debug)]
pub struct Vertices<Vertex> {
    vertices: Vec<Vertex>,
    indices: Vec<Index>,
}

impl<Vertex> Vertices<Vertex> {
    /// A mesh of `vertices`, drawn by `indices`.
    pub fn new(vertices: Vec<Vertex>, indices: Vec<Index>) -> (m: Self)
        ensures
            m.vertices() == vertices@,
            m.indices() == indices@,
    {
        Vertices { vertices, indices }
    }

    pub closed spec fn vertices(&self) -> Seq<Vertex> {
        self.vertices@
    }

    pub closed spec fn indices(&self) -> Seq<Index> {
        self.indices@
    }

    /// The vertices.
    pub fn vertex_list(&self) -> (r: &Vec<Vertex>)
        ensures
            r@ == self.vertices(),
    {
        &self.vertices
    }

    /// The indices.
    pub fn index_list(&self) -> (r: &Vec<Index>)
        ensures
            r@ == self.indices(),
    {
        &self.indices
    }
}

} // verus!
