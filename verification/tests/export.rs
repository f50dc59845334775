use mischief_link::export::{Collider, Mesh, Topology};
use mischief_link::geometry::Point;
use mischief_link::path::Path;
use mischief_link::triangulate::TriangulationFailed;

fn pt(x: i32, y: i32) -> Point {
    Point { x, y }
}

fn square() -> Path {
    let mut path = Path::new();
    path.move_to(pt(0, 0));
    path.line_to(pt(10, 0));
    path.line_to(pt(10, 10));
    path.line_to(pt(0, 10));
    path.close();
    path
}

fn flat() -> Path {
    let mut path = Path::new();
    path.move_to(pt(0, 0));
    path.line_to(pt(5, 5));
    path.line_to(pt(9, 9));
    path.close();
    path
}

#[test]
fn polyline_mesh_lists_both_ends_of_each_edge() {
    let Mesh { topology, positions } = square().build_polyline_mesh();
    assert_eq!(topology, Topology::LineList);
    assert_eq!(
        positions,
        vec![
            pt(0, 0),
            pt(10, 0),
            pt(10, 0),
            pt(10, 10),
            pt(10, 10),
            pt(0, 10),
            pt(0, 10),
            pt(0, 0),
        ]
    );
}

#[test]
fn polyline_mesh_follows_a_reversed_winding() {
    let mut path = square();
    path.reverse_winding_order();
    let mesh = path.build_polyline_mesh();
    assert_eq!(
        mesh.positions,
        vec![
            pt(0, 0),
            pt(0, 10),
            pt(0, 10),
            pt(10, 10),
            pt(10, 10),
            pt(10, 0),
            pt(10, 0),
            pt(0, 0),
        ]
    );
}

#[test]
fn polyline_mesh_of_an_empty_path_is_empty() {
    let mesh = Path::new().build_polyline_mesh();
    assert_eq!(mesh.topology, Topology::LineList);
    assert!(mesh.positions.is_empty());
}

#[test]
fn polyline_mesh_needs_no_triangulation() {
    let mesh = flat().build_polyline_mesh();
    assert_eq!(mesh.positions.len(), 6);
}

#[test]
fn triangle_mesh_lists_the_corners_of_each_triangle() {
    let mesh = square().build_triangle_mesh().unwrap();
    assert_eq!(mesh.topology, Topology::TriangleList);
    assert_eq!(
        mesh.positions,
        vec![pt(0, 10), pt(0, 0), pt(10, 0), pt(0, 10), pt(10, 0), pt(10, 10)]
    );
}

#[test]
fn triangle_mesh_fails_with_the_triangulation() {
    assert_eq!(flat().build_triangle_mesh().unwrap_err(), TriangulationFailed);
}

#[test]
fn triangle_mesh_of_an_empty_path_is_empty() {
    let mesh = Path::new().build_triangle_mesh().unwrap();
    assert_eq!(mesh.topology, Topology::TriangleList);
    assert!(mesh.positions.is_empty());
}

#[test]
fn collider_holds_vertices_and_triangles() {
    match square().build_collider().unwrap() {
        Collider::Trimesh { vertices, triangles } => {
            assert_eq!(vertices, vec![pt(0, 0), pt(10, 0), pt(10, 10), pt(0, 10)]);
            assert_eq!(triangles, vec![[3, 0, 1], [3, 1, 2]]);
        }
        Collider::Polyline { .. } => panic!("a triangle collider was asked for"),
    }
}

#[test]
fn collider_fails_with_the_triangulation() {
    assert_eq!(flat().build_collider().unwrap_err(), TriangulationFailed);
}

#[test]
fn collider_triangles_are_those_of_the_triangulation() {
    let path = square();
    let triangles = path.triangulate().unwrap();
    match path.build_collider().unwrap() {
        Collider::Trimesh { triangles: held, .. } => assert_eq!(held, triangles),
        Collider::Polyline { .. } => panic!("a triangle collider was asked for"),
    }
}

#[test]
fn polyline_collider_holds_vertices_and_edges() {
    match square().build_polyline_collider() {
        Collider::Polyline { vertices, edges } => {
            assert_eq!(vertices, vec![pt(0, 0), pt(10, 0), pt(10, 10), pt(0, 10)]);
            assert_eq!(edges, vec![[0, 1], [1, 2], [2, 3], [3, 0]]);
        }
        Collider::Trimesh { .. } => panic!("a polyline collider was asked for"),
    }
}

#[test]
fn polyline_collider_needs_no_triangulation() {
    match flat().build_polyline_collider() {
        Collider::Polyline { vertices, edges } => {
            assert_eq!(vertices.len(), 3);
            assert_eq!(edges, vec![[0, 1], [1, 2], [2, 0]]);
        }
        Collider::Trimesh { .. } => panic!("a polyline collider was asked for"),
    }
}
