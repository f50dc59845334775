//! What a finished path is handed on as: a wireframe mesh, a fill mesh, and
//! the description of a collider, as a closed polyline or as triangles.

use vstd::prelude::*;
use crate::geometry::Point;
use crate::path::Path;
use crate::triangulate::{ear_clip, TriangulationFailed};

verus! {

/// How the positions of a mesh are grouped into primitives.
#[derive(Clone, Copy, PartialEq, Eq, Debug, Structural)]
pub enum Topology {
    /// Each pair of positions is one line segment.
    LineList,
    /// Each triple of positions is one triangle.
    TriangleList,
}

/// A flat buffer of positions without an index buffer.
#[derive(Debug)]
pub struct Mesh {
    pub topology: Topology,
    pub positions: Vec<Point>,
}

/// A static collision shape over the vertices of a path.
#[derive(Debug)]
pub enum Collider {
    /// The boundary: the vertices and the edges between them.
    Polyline { vertices: Vec<Point>, edges: Vec<[usize; 2]> },
    /// The filled inside: the vertices and the triangles over them.
    Trimesh { vertices: Vec<Point>, triangles: Vec<[usize; 3]> },
}

/// The two end points of each edge, edge after edge.
pub open spec fn segment_positions(points: Seq<Point>, edges: Seq<[usize; 2]>) -> Seq<Point> {
    Seq::new(2 * edges.len(), |i: int| points[edges[i / 2][i % 2] as int])
}

/// The three corner points of each triangle, triangle after triangle.
pub open spec fn corner_positions(points: Seq<Point>, triangles: Seq<[usize; 3]>) -> Seq<Point> {
    Seq::new(3 * triangles.len(), |i: int| points[triangles[i / 3][i % 3] as int])
}

fn copy_points(points: &Vec<Point>) -> (copy: Vec<Point>)
    ensures
        copy@ == points@,
{
    let mut copy: Vec<Point> = Vec::new();
    let count: usize = points.len();
    let mut i: usize = 0;
    while i < count
        invariant
            count == points.len(),
            i <= count,
            copy@ == points@.subrange(0, i as int),
        decreases count - i,
    {
        copy.push(points[i]);
        i += 1;
        assert(copy@ =~= points@.subrange(0, i as int));
    }
    assert(copy@ =~= points@);
    copy
}

impl Path {
    /// The wireframe of the path: for each edge its two end points, as one
    /// line segment of a line list.
    pub fn build_polyline_mesh(&self) -> (mesh: Mesh)
        requires
            self.wf(),
        ensures
            mesh.topology == Topology::LineList,
            mesh.positions@ == segment_positions(self@.vertices, self@.indices),
    {
        let vertices = self.vertices();
        let edges = self.indices();
        let mut positions: Vec<Point> = Vec::new();
        let count: usize = edges.len();
        let mut e: usize = 0;
        while e < count
            invariant
                self.wf(),
                vertices@ == self@.vertices,
                edges@ == self@.indices,
                count == edges.len(),
                e <= count,
                positions@ == segment_positions(vertices@, edges@).subrange(0, 2 * e),
            decreases count - e,
        {
            let edge: [usize; 2] = edges[e];
            assert(edge == self@.indices[e as int]);
            positions.push(vertices[edge[0]]);
            positions.push(vertices[edge[1]]);
            e += 1;
            assert(positions@ =~= segment_positions(vertices@, edges@).subrange(0, 2 * e));
        }
        assert(positions@ =~= segment_positions(vertices@, edges@));
        Mesh { topology: Topology::LineList, positions }
    }

    /// The fill of the path: the three corner points of each triangle of
    /// its triangulation, as a triangle list.
    pub fn build_triangle_mesh(&self) -> (r: Result<Mesh, TriangulationFailed>)
        requires
            self.wf(),
        ensures
            match r {
                Ok(mesh) => {
                    &&& mesh.topology == Topology::TriangleList
                    &&& ear_clip(self@.vertices, self@.boundary()) is Some
                    &&& mesh.positions@ == corner_positions(
                        self@.vertices,
                        ear_clip(self@.vertices, self@.boundary())->0,
                    )
                },
                Err(_) => ear_clip(self@.vertices, self@.boundary()) is None,
            },
    {
        let triangles = match self.triangulate() {
            Ok(triangles) => triangles,
            Err(failed) => {
                return Err(failed);
            },
        };
        let vertices = self.vertices();
        let mut positions: Vec<Point> = Vec::new();
        let count: usize = triangles.len();
        let mut t: usize = 0;
        while t < count
            invariant
                vertices@ == self@.vertices,
                count == triangles.len(),
                t <= count,
                forall|i: int, c: int|
                    0 <= i < triangles@.len() && 0 <= c < 3 ==> (#[trigger] triangles@[i][c])
                        < vertices@.len(),
                positions@ == corner_positions(vertices@, triangles@).subrange(0, 3 * t),
            decreases count - t,
        {
            let triangle: [usize; 3] = triangles[t];
            assert(triangle[0] == triangles@[t as int][0]);
            assert(triangle[1] == triangles@[t as int][1]);
            assert(triangle[2] == triangles@[t as int][2]);
            positions.push(vertices[triangle[0]]);
            positions.push(vertices[triangle[1]]);
            positions.push(vertices[triangle[2]]);
            t += 1;
            assert(positions@ =~= corner_positions(vertices@, triangles@).subrange(0, 3 * t));
        }
        assert(positions@ =~= corner_positions(vertices@, triangles@));
        Ok(Mesh { topology: Topology::TriangleList, positions })
    }

    /// The collider of the filled path: its vertices and the triangles of
    /// its triangulation.
    pub fn build_collider(&self) -> (r: Result<Collider, TriangulationFailed>)
        requires
            self.wf(),
        ensures
            match r {
                Ok(Collider::Trimesh { vertices, triangles }) => {
                    &&& vertices@ == self@.vertices
                    &&& ear_clip(self@.vertices, self@.boundary()) == Some(triangles@)
                },
                Ok(Collider::Polyline { .. }) => false,
                Err(_) => ear_clip(self@.vertices, self@.boundary()) is None,
            },
    {
        match self.triangulate() {
            Ok(triangles) => Ok(
                Collider::Trimesh { vertices: copy_points(self.vertices()), triangles },
            ),
            Err(failed) => Err(failed),
        }
    }

    /// The collider of the boundary alone: the vertices of the path and its
    /// edges, as they were drawn.
    pub fn build_polyline_collider(&self) -> (collider: Collider)
        ensures
            match collider {
                Collider::Polyline { vertices, edges } => {
                    &&& vertices@ == self@.vertices
                    &&& edges@ == self@.indices
                },
                Collider::Trimesh { .. } => false,
            },
    {
        let indices = self.indices();
        let mut edges: Vec<[usize; 2]> = Vec::new();
        let count: usize = indices.len();
        let mut e: usize = 0;
        while e < count
            invariant
                count == indices.len(),
                e <= count,
                edges@ == indices@.subrange(0, e as int),
            decreases count - e,
        {
            edges.push(indices[e]);
            e += 1;
            assert(edges@ =~= indices@.subrange(0, e as int));
        }
        assert(edges@ =~= indices@);
        Collider::Polyline { vertices: copy_points(self.vertices()), edges }
    }
}

} // verus!
