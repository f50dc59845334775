use mischief_link::geometry::{is_point_in_triangle, sign, Point};
use mischief_link::path::Path;
use mischief_link::triangulate::{is_ear, TriangulationFailed};

fn pt(x: i32, y: i32) -> Point {
    Point { x, y }
}

fn closed(points: &[(i32, i32)]) -> Path {
    let mut path = Path::new();
    path.move_to(pt(points[0].0, points[0].1));
    for p in &points[1..] {
        path.line_to(pt(p.0, p.1));
    }
    path.close();
    path
}

fn double_area_of(path: &Path, t: &[usize; 3]) -> i128 {
    let v = path.vertices();
    sign(v[t[0]], v[t[1]], v[t[2]])
}

fn shoelace(path: &Path, cycle: &[usize]) -> i128 {
    let v = path.vertices();
    let mut sum: i128 = 0;
    for k in 0..cycle.len() {
        let p = v[cycle[k]];
        let q = v[cycle[(k + 1) % cycle.len()]];
        sum += (p.x as i128) * (q.y as i128) - (q.x as i128) * (p.y as i128);
    }
    sum
}

fn boundary(path: &Path) -> Vec<usize> {
    path.indices().iter().map(|e| e[0]).collect()
}

#[test]
fn sign_is_the_cross_product() {
    assert_eq!(sign(pt(0, 0), pt(1, 0), pt(0, 1)), 1);
    assert_eq!(sign(pt(1, 0), pt(0, 0), pt(0, 1)), -1);
    assert_eq!(sign(pt(0, 0), pt(2, 2), pt(5, 5)), 0);
    assert_eq!(sign(pt(3, 1), pt(7, 2), pt(4, 9)), 31);
    assert_eq!(sign(pt(0, 0), pt(4, 0), pt(0, 3)), 12);
}

#[test]
fn sign_does_not_overflow_at_the_corners_of_the_grid() {
    let lo = i32::MIN;
    let hi = i32::MAX;
    let span = (hi as i128) - (lo as i128);
    assert_eq!(sign(pt(hi, lo), pt(hi, hi), pt(lo, lo)), span * span);
    assert_eq!(sign(pt(hi, hi), pt(hi, lo), pt(lo, lo)), -(span * span));
}

#[test]
fn sign_is_unchanged_by_rotation_and_negated_by_a_swap() {
    let (a, b, c) = (pt(-3, 8), pt(11, -2), pt(4, 4));
    assert_eq!(sign(a, b, c), sign(b, c, a));
    assert_eq!(sign(a, b, c), sign(c, a, b));
    assert_eq!(sign(b, a, c), -sign(a, b, c));
}

#[test]
fn point_in_triangle_inside_outside_and_edge() {
    let (a, b, c) = (pt(0, 0), pt(10, 0), pt(0, 10));
    assert!(is_point_in_triangle(pt(2, 2), a, b, c));
    assert!(!is_point_in_triangle(pt(10, 10), a, b, c));
    assert!(!is_point_in_triangle(pt(-1, 5), a, b, c));
    // On an edge, and on a corner: counted as in.
    assert!(is_point_in_triangle(pt(5, 0), a, b, c));
    assert!(is_point_in_triangle(pt(5, 5), a, b, c));
    assert!(is_point_in_triangle(pt(0, 0), a, b, c));
    // On the line of an edge, beyond the corner: out.
    assert!(!is_point_in_triangle(pt(20, 0), a, b, c));
    // The same for a clockwise triangle.
    assert!(is_point_in_triangle(pt(2, 2), a, c, b));
    assert!(!is_point_in_triangle(pt(10, 10), a, c, b));
}

#[test]
fn point_on_all_three_lines_of_a_flat_triangle_is_not_in_it() {
    let (a, b, c) = (pt(0, 0), pt(5, 5), pt(10, 10));
    assert!(!is_point_in_triangle(pt(3, 3), a, b, c));
    assert!(!is_point_in_triangle(pt(20, 20), a, b, c));
    assert!(!is_point_in_triangle(pt(4, 4), pt(4, 4), pt(4, 4), pt(4, 4)));
}

#[test]
fn is_ear_rejects_clockwise_and_flat_corners() {
    let path = closed(&[(0, 0), (4, 0), (8, 0), (8, 8)]);
    let remaining = vec![0, 1, 2, 3];
    // Vertex 1 lies on the line from 0 to 2.
    assert!(!is_ear(&path, &remaining, 1, 0, 2));
    // The corner at 2 turns left, taken backwards it turns right.
    assert!(is_ear(&path, &remaining, 2, 1, 3));
    assert!(!is_ear(&path, &remaining, 2, 3, 1));
}

#[test]
fn is_ear_rejects_a_corner_with_a_vertex_inside() {
    // A dart: vertex 3 lies inside the triangle 0, 1, 2.
    let path = closed(&[(0, 0), (10, 0), (5, 10), (5, 2)]);
    let all = vec![0, 1, 2, 3];
    assert!(!is_ear(&path, &all, 1, 0, 2));
    // Once vertex 3 no longer remains, nothing blocks the corner.
    assert!(is_ear(&path, &vec![0, 1, 2], 1, 0, 2));
    assert!(is_ear(&path, &all, 1, 3, 2));
}

#[test]
fn unit_square_gives_two_triangles_of_area_one() {
    let path = closed(&[(0, 0), (1, 0), (1, 1), (0, 1)]);
    let triangles = path.triangulate().unwrap();
    assert_eq!(triangles, vec![[3, 0, 1], [3, 1, 2]]);
    let doubled: i128 = triangles.iter().map(|t| double_area_of(&path, t)).sum();
    assert_eq!(doubled, 2);
    assert_eq!(doubled as f64 / 2.0, 1.0);
}

#[test]
fn triangle_gives_itself() {
    let path = closed(&[(0, 0), (6, 0), (0, 6)]);
    assert_eq!(path.triangulate(), Ok(vec![[2, 0, 1]]));
}

#[test]
fn fewer_than_three_vertices_give_no_triangle() {
    assert_eq!(Path::new().triangulate(), Ok(vec![]));
    assert_eq!(closed(&[(1, 1)]).triangulate(), Ok(vec![]));
    assert_eq!(closed(&[(1, 1), (5, 5)]).triangulate(), Ok(vec![]));
}

#[test]
fn open_path_is_cut_along_the_starts_of_its_edges() {
    // Four vertices, three edges: the boundary is 0, 1, 2.
    let mut path = Path::new();
    path.move_to(pt(0, 0));
    path.line_to(pt(4, 0));
    path.line_to(pt(4, 4));
    path.line_to(pt(0, 4));
    assert_eq!(path.triangulate(), Ok(vec![[2, 0, 1]]));
}

#[test]
fn l_shaped_hexagon_gives_four_triangles_clear_of_the_notch() {
    let path = closed(&[(0, 0), (4, 0), (4, 2), (2, 2), (2, 4), (0, 4)]);
    let triangles = path.triangulate().unwrap();
    assert_eq!(triangles.len(), 4);
    assert_eq!(triangles, vec![[0, 1, 2], [0, 2, 3], [5, 0, 3], [5, 3, 4]]);
    let v = path.vertices();
    for t in &triangles {
        assert!(double_area_of(&path, t) > 0);
        // The middle of the notch, and a point just inside its corner.
        assert!(!is_point_in_triangle(pt(3, 3), v[t[0]], v[t[1]], v[t[2]]));
        assert!(!is_point_in_triangle(pt(4, 4), v[t[0]], v[t[1]], v[t[2]]));
    }
    let doubled: i128 = triangles.iter().map(|t| double_area_of(&path, t)).sum();
    assert_eq!(doubled, 2 * 12);
}

#[test]
fn collinear_vertices_fail_without_a_triangle() {
    let path = closed(&[(0, 0), (5, 0), (10, 0)]);
    assert_eq!(path.triangulate(), Err(TriangulationFailed));
}

#[test]
fn flat_corner_is_never_cut_off() {
    // Vertex 1 lies on the bottom side of the square.
    let path = closed(&[(0, 0), (5, 0), (10, 0), (10, 10), (0, 10)]);
    let triangles = path.triangulate().unwrap();
    assert_eq!(triangles.len(), 3);
    for t in &triangles {
        assert!(double_area_of(&path, t) > 0);
        assert_ne!(*t, [0, 1, 2]);
    }
    let doubled: i128 = triangles.iter().map(|t| double_area_of(&path, t)).sum();
    assert_eq!(doubled, 200);
}

#[test]
fn triangulation_failure_in_words() {
    assert_eq!(
        TriangulationFailed.message(),
        "Failed to find an ear, is the polygon self-intersecting?"
    );
}

#[test]
fn clockwise_polygon_fails() {
    let path = closed(&[(0, 0), (0, 1), (1, 1), (1, 0)]);
    assert_eq!(path.triangulate(), Err(TriangulationFailed));
}

#[test]
fn reversed_clockwise_polygon_succeeds() {
    let mut path = closed(&[(0, 0), (0, 1), (1, 1), (1, 0)]);
    path.reverse_winding_order();
    let triangles = path.triangulate().unwrap();
    assert_eq!(triangles, vec![[1, 0, 3], [1, 3, 2]]);
}

#[test]
fn self_crossing_polygon_fails() {
    // A bow tie.
    let path = closed(&[(0, 0), (10, 10), (10, 0), (0, 10)]);
    assert_eq!(path.triangulate(), Err(TriangulationFailed));
}

#[test]
fn convex_polygons_give_two_triangles_fewer_than_vertices() {
    let octagon = [(2, 0), (5, 0), (7, 2), (7, 5), (5, 7), (2, 7), (0, 5), (0, 2)];
    for n in 3..=octagon.len() {
        let path = closed(&octagon[..n]);
        let triangles = path.triangulate().unwrap();
        assert_eq!(triangles.len(), n - 2);
        // The first ear is always the first vertex that remains.
        for (i, t) in triangles.iter().enumerate() {
            assert_eq!(*t, [n - 1, i, i + 1]);
        }
    }
}

#[test]
fn convex_polygons_with_vertices_on_their_sides_triangulate() {
    let outlines: Vec<Vec<(i32, i32)>> = vec![
        // A square with a vertex in the middle of each side.
        vec![(0, 0), (2, 0), (4, 0), (4, 2), (4, 4), (2, 4), (0, 4), (0, 2)],
        // A triangle, begun at its top, with three vertices on its base.
        vec![(0, 4), (-4, 0), (-2, 0), (0, 0), (2, 0), (4, 0)],
        // The same, begun in the middle of the base.
        vec![(0, 0), (2, 0), (4, 0), (0, 4), (-4, 0), (-2, 0)],
        // A triangle with a vertex on each side.
        vec![(0, 0), (3, 0), (6, 0), (3, 3), (0, 6), (0, 3)],
    ];
    for points in &outlines {
        let path = closed(points);
        let triangles = path.triangulate().unwrap();
        assert_eq!(triangles.len(), points.len() - 2);
        for t in &triangles {
            assert!(double_area_of(&path, t) > 0);
        }
        let doubled: i128 = triangles.iter().map(|t| double_area_of(&path, t)).sum();
        assert_eq!(doubled, shoelace(&path, &boundary(&path)));
    }
}

#[test]
fn corner_with_vertices_on_the_line_across_it_is_passed_over() {
    // The top corner turns left, but the line across it holds three more
    // vertices: the first ear is the corner after it.
    let path = closed(&[(0, 4), (-4, 0), (-2, 0), (0, 0), (2, 0), (4, 0)]);
    let triangles = path.triangulate().unwrap();
    assert_eq!(triangles[0], [0, 1, 2]);
    assert_eq!(triangles, vec![[0, 1, 2], [0, 2, 3], [0, 3, 4], [5, 0, 4]]);
}

#[test]
fn triangle_areas_add_up_to_the_polygon_area() {
    let outlines: Vec<Vec<(i32, i32)>> = vec![
        vec![(0, 0), (1, 0), (1, 1), (0, 1)],
        vec![(0, 0), (4, 0), (4, 2), (2, 2), (2, 4), (0, 4)],
        vec![(2, 0), (5, 0), (7, 2), (7, 5), (5, 7), (2, 7), (0, 5), (0, 2)],
        vec![(0, 0), (10, 0), (10, 10), (5, 3), (0, 10)],
        vec![(-7, -3), (9, -8), (4, 0), (12, 11), (0, 5), (-10, 9)],
    ];
    for points in &outlines {
        let path = closed(points);
        let triangles = path.triangulate().unwrap();
        let doubled: i128 = triangles.iter().map(|t| double_area_of(&path, t)).sum();
        assert_eq!(doubled, shoelace(&path, &boundary(&path)));
        assert_eq!(triangles.len(), points.len() - 2);
    }
}

#[test]
fn every_triangle_is_counter_clockwise_and_over_boundary_vertices() {
    let path = closed(&[(-7, -3), (9, -8), (4, 0), (12, 11), (0, 5), (-10, 9)]);
    let triangles = path.triangulate().unwrap();
    for t in &triangles {
        assert!(double_area_of(&path, t) > 0);
        for c in t {
            assert!(*c < path.vertices().len());
        }
    }
}

#[test]
fn triangulating_twice_gives_the_same_triangles() {
    let path = closed(&[(0, 0), (10, 0), (10, 10), (5, 3), (0, 10)]);
    assert_eq!(path.triangulate(), path.triangulate());
}

fn wall(mirror: i32) -> Path {
    let mut path = Path::new();
    path.move_to(pt(mirror * -800, -450));
    path.line_to(pt(mirror * -100, -450));
    path.line_to(pt(mirror * -100, -425));
    path.line_to(pt(mirror * -600, -350));
    path.line_to(pt(mirror * -600, 0));
    path.line_to(pt(mirror * -640, 0));
    path.line_to(pt(mirror * -640, -410));
    path.line_to(pt(mirror * -775, -410));
    path.line_to(pt(mirror * -775, 150));
    path.line_to(pt(mirror * -400, 425));
    path.line_to(pt(mirror * -400, 450));
    path.line_to(pt(mirror * -800, 450));
    path.close();
    path
}

#[test]
fn mirrored_walls_both_triangulate_counter_clockwise() {
    let left = wall(1);
    let mut right = wall(-1);
    // Drawn with the same steps, the mirror image runs clockwise.
    assert_eq!(right.triangulate(), Err(TriangulationFailed));
    right.reverse_winding_order();
    let left_triangles = left.triangulate().unwrap();
    let right_triangles = right.triangulate().unwrap();
    assert_eq!(left_triangles.len(), 10);
    assert_eq!(right_triangles.len(), 10);
    for t in &left_triangles {
        assert!(double_area_of(&left, t) > 0);
    }
    for t in &right_triangles {
        assert!(double_area_of(&right, t) > 0);
    }
    let left_area: i128 = left_triangles.iter().map(|t| double_area_of(&left, t)).sum();
    let right_area: i128 = right_triangles.iter().map(|t| double_area_of(&right, t)).sum();
    assert_eq!(left_area, right_area);
    assert_eq!(left_area, shoelace(&left, &boundary(&left)));
}

fn arc_samples(start: Point, end: Point, center: Point, n: u32, clockwise: bool) -> Vec<Point> {
    let (sx, sy) = ((start.x - center.x) as f64, (start.y - center.y) as f64);
    let (ex, ey) = ((end.x - center.x) as f64, (end.y - center.y) as f64);
    let radius = (sx * sx + sy * sy).sqrt();
    let start_angle = sy.atan2(sx);
    let end_angle = ey.atan2(ex);
    let sweep = if clockwise { end_angle - start_angle } else { start_angle - end_angle };
    let step = sweep / n as f64;
    (1..=n)
        .map(|i| {
            let angle = start_angle + i as f64 * step;
            pt(
                center.x + (angle.cos() * radius).round() as i32,
                center.y + (angle.sin() * radius).round() as i32,
            )
        })
        .collect()
}

#[test]
fn rounded_wall_triangulates_after_reversal() {
    let mut path = Path::new();
    path.move_to(pt(8000, -4500));
    path.line_to(pt(1000, -4500));
    path.line_to(pt(1000, -4250));
    path.line_to(pt(6000, -3500));
    path.line_to(pt(6000, -200));
    let last = *path.vertices().last().unwrap();
    path.arc_to(&arc_samples(last, pt(6400, -200), pt(6200, -200), 10, true));
    path.line_to(pt(6400, -3425));
    let last = *path.vertices().last().unwrap();
    path.arc_to(&arc_samples(last, pt(7750, -3425), pt(7075, -3425), 10, false));
    path.line_to(pt(7750, 1500));
    path.line_to(pt(4000, 4250));
    path.line_to(pt(4000, 4500));
    path.line_to(pt(8000, 4500));
    path.close();
    assert_eq!(path.vertices().len(), 10 + 20);
    assert_eq!(path.indices().len(), 10 + 20);
    path.reverse_winding_order();
    let triangles = path.triangulate().unwrap();
    assert_eq!(triangles.len(), 28);
    for t in &triangles {
        assert!(double_area_of(&path, t) > 0);
    }
    let doubled: i128 = triangles.iter().map(|t| double_area_of(&path, t)).sum();
    assert_eq!(doubled, shoelace(&path, &boundary(&path)));
}
