//! Points on the integer grid and the two cross-product predicates that the
//! triangulation rests on.

use vstd::prelude::*;

verus! {

/// A position on the grid.
#[derive(Clone, Copy, PartialEq, Eq, Debug, Structural)]
pub struct Point {
    pub x: i32,
    pub y: i32,
}

/// Twice the signed area of the triangle `a`, `b`, `c`: positive when the
/// three points turn counter-clockwise, negative when they turn clockwise,
/// zero when they lie on one line.
pub open spec fn double_area(a: Point, b: Point, c: Point) -> int {
    (a.x - c.x) * (b.y - c.y) - (b.x - c.x) * (a.y - c.y)
}

/// The cross product of the position vectors of `p` and `q`: one term of the
/// shoelace formula.
pub open spec fn cross(p: Point, q: Point) -> int {
    p.x * q.y - q.x * p.y
}

/// Whether `p` blocks the triangle `a`, `b`, `c`: it lies inside the triangle
/// or on its boundary, and not on all three edge lines at once.
pub open spec fn in_triangle(p: Point, a: Point, b: Point, c: Point) -> bool {
    let d1: int = double_area(p, a, b);
    let d2: int = double_area(p, b, c);
    let d3: int = double_area(p, c, a);
    let has_neg: bool = d1 < 0 || d2 < 0 || d3 < 0;
    let has_pos: bool = d1 > 0 || d2 > 0 || d3 > 0;
    !(has_neg && has_pos) && !(d1 == 0 && d2 == 0 && d3 == 0)
}

/// The cross product of `a - c` and `b - c`: twice the signed area of the
/// triangle `a`, `b`, `c`.
pub fn sign(a: Point, b: Point, c: Point) -> (r: i128)
    ensures
        r == double_area(a, b, c),
{
    let ax: i64 = a.x as i64 - c.x as i64;
    let by: i64 = b.y as i64 - c.y as i64;
    let bx: i64 = b.x as i64 - c.x as i64;
    let ay: i64 = a.y as i64 - c.y as i64;
    assert(-0x1_0000_0000_0000_0000 <= ax * by <= 0x1_0000_0000_0000_0000) by (nonlinear_arith)
        requires
            -0x1_0000_0000 <= ax <= 0x1_0000_0000,
            -0x1_0000_0000 <= by <= 0x1_0000_0000,
    ;
    assert(-0x1_0000_0000_0000_0000 <= bx * ay <= 0x1_0000_0000_0000_0000) by (nonlinear_arith)
        requires
            -0x1_0000_0000 <= bx <= 0x1_0000_0000,
            -0x1_0000_0000 <= ay <= 0x1_0000_0000,
    ;
    (ax as i128) * (by as i128) - (bx as i128) * (ay as i128)
}

/// Tests `point` against the three edges of the triangle `a`, `b`, `c`.
pub fn is_point_in_triangle(point: Point, a: Point, b: Point, c: Point) -> (r: bool)
    ensures
        r == in_triangle(point, a, b, c),
{
    let d1: i128 = sign(point, a, b);
    let d2: i128 = sign(point, b, c);
    let d3: i128 = sign(point, c, a);

    let has_neg = (d1 < 0) || (d2 < 0) || (d3 < 0);
    let has_pos = (d1 > 0) || (d2 > 0) || (d3 > 0);
    let all_eq = (d1 == 0) && (d2 == 0) && (d3 == 0);

    // On the negative side of one edge and the positive side of another: outside.
    if has_neg && has_pos {
        return false;
    }
    // On one side of every edge, and off at least one of the three lines.
    !all_eq
}

/// The signed area of a triangle is the shoelace sum over its three sides.
pub proof fn lemma_double_area_is_shoelace(a: Point, b: Point, c: Point)
    ensures
        double_area(a, b, c) == cross(a, b) + cross(b, c) + cross(c, a),
        cross(c, a) == -cross(a, c),
{
    let ax: int = a.x as int;
    let ay: int = a.y as int;
    let bx: int = b.x as int;
    let by: int = b.y as int;
    let cx: int = c.x as int;
    let cy: int = c.y as int;
    assert((ax - cx) * (by - cy) == ax * by - ax * cy - cx * by + cx * cy) by (nonlinear_arith);
    assert((bx - cx) * (ay - cy) == bx * ay - bx * cy - cx * ay + cx * cy) by (nonlinear_arith);
}

/// Rotating the three corners leaves the signed area as it is.
pub proof fn lemma_double_area_rotate(a: Point, b: Point, c: Point)
    ensures
        double_area(a, b, c) == double_area(b, c, a),
        double_area(a, b, c) == double_area(c, a, b),
{
    lemma_double_area_is_shoelace(a, b, c);
    lemma_double_area_is_shoelace(b, c, a);
    lemma_double_area_is_shoelace(c, a, b);
}

/// Exchanging two corners negates the signed area.
pub proof fn lemma_double_area_swap(a: Point, b: Point, c: Point)
    ensures
        double_area(b, a, c) == -double_area(a, b, c),
        double_area(a, c, b) == -double_area(a, b, c),
        double_area(c, b, a) == -double_area(a, b, c),
{
    lemma_double_area_is_shoelace(b, a, c);
    lemma_double_area_is_shoelace(a, c, b);
    lemma_double_area_is_shoelace(c, b, a);
}

/// Seen from any point `q`, the three triangles over the sides of `a`, `b`,
/// `c` add up to the triangle itself.
pub proof fn lemma_double_area_around(q: Point, a: Point, b: Point, c: Point)
    ensures
        double_area(q, a, b) + double_area(q, b, c) + double_area(q, c, a) == double_area(a, b, c),
{
    lemma_double_area_is_shoelace(a, b, c);
    lemma_double_area_is_shoelace(q, a, b);
    lemma_double_area_is_shoelace(q, b, c);
    lemma_double_area_is_shoelace(q, c, a);
}

/// Two points that each lie on one line with the distinct points `a` and
/// `b` lie on one line with `a`.
pub proof fn lemma_collinear(a: Point, b: Point, c: Point, d: Point)
    requires
        a != b,
        double_area(b, c, a) == 0,
        double_area(b, d, a) == 0,
    ensures
        double_area(c, d, a) == 0,
{
    let ux: int = b.x - a.x;
    let uy: int = b.y - a.y;
    let vx: int = c.x - a.x;
    let vy: int = c.y - a.y;
    let wx: int = d.x - a.x;
    let wy: int = d.y - a.y;
    let uv: int = ux * vy - vx * uy;
    let uw: int = ux * wy - wx * uy;
    let vw: int = vx * wy - wx * vy;
    assert(uv == 0);
    assert(uw == 0);
    // `u` times the area of `v` and `w` is `v` times the area of `u` and
    // `w`, less `w` times the area of `u` and `v`; in each coordinate.
    assert(ux * vw == (ux * vx) * wy - (ux * wx) * vy) by (nonlinear_arith)
        requires
            vw == vx * wy - wx * vy,
    ;
    assert(vx * uw == (ux * vx) * wy - (vx * wx) * uy) by (nonlinear_arith)
        requires
            uw == ux * wy - wx * uy,
    ;
    assert(wx * uv == (ux * wx) * vy - (vx * wx) * uy) by (nonlinear_arith)
        requires
            uv == ux * vy - vx * uy,
    ;
    assert(ux * vw == vx * uw - wx * uv);
    assert(uy * vw == (uy * vx) * wy - (uy * wx) * vy) by (nonlinear_arith)
        requires
            vw == vx * wy - wx * vy,
    ;
    assert(vy * uw == (ux * vy) * wy - (uy * wx) * vy) by (nonlinear_arith)
        requires
            uw == ux * wy - wx * uy,
    ;
    assert(wy * uv == (ux * vy) * wy - (uy * vx) * wy) by (nonlinear_arith)
        requires
            uv == ux * vy - vx * uy,
    ;
    assert(uy * vw == vy * uw - wy * uv);
    assert(vx * uw - wx * uv == 0) by (nonlinear_arith)
        requires
            uv == 0,
            uw == 0,
    ;
    assert(vy * uw - wy * uv == 0) by (nonlinear_arith)
        requires
            uv == 0,
            uw == 0,
    ;
    assert(ux != 0 || uy != 0);
    assert(vw == 0) by (nonlinear_arith)
        requires
            ux * vw == 0,
            uy * vw == 0,
            ux != 0 || uy != 0,
    ;
}

/// For four points seen from a fifth, `q`: the areas over the pairs of `p`,
/// `m`, `n`, each weighted with the area that the third spans with `r`,
/// cancel.
pub proof fn lemma_double_area_exchange(q: Point, p: Point, m: Point, n: Point, r: Point)
    ensures
        double_area(p, m, q) * double_area(n, r, q) + double_area(m, n, q) * double_area(p, r, q)
            + double_area(n, p, q) * double_area(m, r, q) == 0,
{
    let px: int = p.x - q.x;
    let py: int = p.y - q.y;
    let mx: int = m.x - q.x;
    let my: int = m.y - q.y;
    let nx: int = n.x - q.x;
    let ny: int = n.y - q.y;
    let rx: int = r.x - q.x;
    let ry: int = r.y - q.y;
    let pm: int = px * my - mx * py;
    let mn: int = mx * ny - nx * my;
    let np: int = nx * py - px * ny;
    // The three vectors, each weighted with the area of the other two,
    // cancel: in each coordinate the six products of three pair off.
    assert(pm * nx == (px * my) * nx - (mx * py) * nx) by (nonlinear_arith)
        requires
            pm == px * my - mx * py,
    ;
    assert(mn * px == (mx * ny) * px - (nx * my) * px) by (nonlinear_arith)
        requires
            mn == mx * ny - nx * my,
    ;
    assert(np * mx == (nx * py) * mx - (px * ny) * mx) by (nonlinear_arith)
        requires
            np == nx * py - px * ny,
    ;
    assert((px * my) * nx == (nx * my) * px) by (nonlinear_arith);
    assert((mx * py) * nx == (nx * py) * mx) by (nonlinear_arith);
    assert((mx * ny) * px == (px * ny) * mx) by (nonlinear_arith);
    assert(pm * nx + mn * px + np * mx == 0);
    assert(pm * ny == (px * my) * ny - (mx * py) * ny) by (nonlinear_arith)
        requires
            pm == px * my - mx * py,
    ;
    assert(mn * py == (mx * ny) * py - (nx * my) * py) by (nonlinear_arith)
        requires
            mn == mx * ny - nx * my,
    ;
    assert(np * my == (nx * py) * my - (px * ny) * my) by (nonlinear_arith)
        requires
            np == nx * py - px * ny,
    ;
    assert((px * my) * ny == (px * ny) * my) by (nonlinear_arith);
    assert((mx * py) * ny == (mx * ny) * py) by (nonlinear_arith);
    assert((nx * my) * py == (nx * py) * my) by (nonlinear_arith);
    assert(pm * ny + mn * py + np * my == 0);
    let a1: int = pm * nx;
    let a2: int = pm * ny;
    let b1: int = mn * px;
    let b2: int = mn * py;
    let c1: int = np * mx;
    let c2: int = np * my;
    assert(pm * (nx * ry - rx * ny) == a1 * ry - rx * a2) by (nonlinear_arith)
        requires
            a1 == pm * nx,
            a2 == pm * ny,
    ;
    assert(mn * (px * ry - rx * py) == b1 * ry - rx * b2) by (nonlinear_arith)
        requires
            b1 == mn * px,
            b2 == mn * py,
    ;
    assert(np * (mx * ry - rx * my) == c1 * ry - rx * c2) by (nonlinear_arith)
        requires
            c1 == np * mx,
            c2 == np * my,
    ;
    assert((a1 * ry - rx * a2) + (b1 * ry - rx * b2) + (c1 * ry - rx * c2) == 0)
        by (nonlinear_arith)
        requires
            a1 + b1 + c1 == 0,
            a2 + b2 + c2 == 0,
    ;
}

} // verus!
