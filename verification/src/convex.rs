//! Convex outlines, and the law that ear clipping never fails on them.

use vstd::prelude::*;
use crate::geometry::{
    double_area,
    in_triangle,
    lemma_collinear,
    lemma_double_area_around,
    lemma_double_area_exchange,
    lemma_double_area_rotate,
    lemma_double_area_swap,
    Point,
};
use crate::path::{after, before};
use crate::triangulate::{
    ear_at,
    ear_clip,
    is_first_ear,
    lemma_ear_clip_triangles,
    lemma_first_ear_is,
};

verus! {

/// The point of the vertex at position `i` of the boundary `cycle`.
pub open spec fn vertex(points: Seq<Point>, cycle: Seq<usize>, i: int) -> Point {
    points[cycle[i] as int]
}

/// Twice the signed area of the corner at position `m`: of the triangle of
/// the vertex before, the vertex at `m` and the vertex after.
pub open spec fn corner_area(points: Seq<Point>, cycle: Seq<usize>, m: int) -> int {
    double_area(
        vertex(points, cycle, before(cycle.len() as int, m)),
        vertex(points, cycle, m),
        vertex(points, cycle, after(cycle.len() as int, m)),
    )
}

/// Twice the signed area of the triangle of the vertices at the positions
/// `i`, `j` and `k`.
pub open spec fn turn(points: Seq<Point>, cycle: Seq<usize>, i: int, j: int, k: int) -> int {
    double_area(vertex(points, cycle, i), vertex(points, cycle, j), vertex(points, cycle, k))
}

/// Whether the vertices at the positions `i` and `j` lie at different
/// points.
pub open spec fn apart(points: Seq<Point>, cycle: Seq<usize>, i: int, j: int) -> bool {
    vertex(points, cycle, i) != vertex(points, cycle, j)
}

/// No three vertices, taken in boundary order, turn clockwise.
pub open spec fn turns_never_right(points: Seq<Point>, cycle: Seq<usize>) -> bool {
    forall|i: int, j: int, k: int|
        0 <= i < j < k < cycle.len() ==> #[trigger] turn(points, cycle, i, j, k) >= 0
}

/// No two vertices lie at the same point.
pub open spec fn vertices_apart(points: Seq<Point>, cycle: Seq<usize>) -> bool {
    forall|i: int, j: int| 0 <= i < j < cycle.len() ==> #[trigger] apart(points, cycle, i, j)
}

/// Whether the boundary `cycle` is a convex polygon that runs
/// counter-clockwise: it has three or more vertices, all at different
/// points; no three of them, taken in boundary order, turn clockwise; and
/// at some corner the boundary does turn, so that it encloses an area.
/// Vertices in the middle of a straight side are allowed.
pub open spec fn convex(points: Seq<Point>, cycle: Seq<usize>) -> bool {
    &&& cycle.len() >= 3
    &&& turns_never_right(points, cycle)
    &&& vertices_apart(points, cycle)
    &&& exists|m: int| 0 <= m < cycle.len() && corner_area(points, cycle, m) > 0
}

/// Whether the positions `a`, `b`, `c` come in this order on the cycle,
/// wherever on it the count starts.
pub open spec fn in_cyclic_order(a: int, b: int, c: int) -> bool {
    a < b < c || b < c < a || c < a < b
}

/// Three vertices in cyclic order do not turn clockwise.
proof fn lemma_cyclic_turn(points: Seq<Point>, cycle: Seq<usize>, a: int, b: int, c: int)
    requires
        turns_never_right(points, cycle),
        0 <= a < cycle.len(),
        0 <= b < cycle.len(),
        0 <= c < cycle.len(),
        in_cyclic_order(a, b, c),
    ensures
        double_area(vertex(points, cycle, a), vertex(points, cycle, b), vertex(points, cycle, c))
            >= 0,
{
    let pa = vertex(points, cycle, a);
    let pb = vertex(points, cycle, b);
    let pc = vertex(points, cycle, c);
    lemma_double_area_rotate(pa, pb, pc);
    if a < b < c {
        assert(turn(points, cycle, a, b, c) >= 0);
    } else if b < c < a {
        assert(turn(points, cycle, b, c, a) >= 0);
    } else {
        assert(turn(points, cycle, c, a, b) >= 0);
    }
}

/// Two different positions hold different points, and so different vertex
/// indices.
proof fn lemma_apart(points: Seq<Point>, cycle: Seq<usize>, a: int, b: int)
    requires
        vertices_apart(points, cycle),
        0 <= a < cycle.len(),
        0 <= b < cycle.len(),
        a != b,
    ensures
        vertex(points, cycle, a) != vertex(points, cycle, b),
        cycle[a] != cycle[b],
{
    if a < b {
        assert(apart(points, cycle, a, b));
    } else {
        assert(apart(points, cycle, b, a));
    }
}

/// What convexity says of a vertex at position `j` that is none of the
/// corner at `m`: it lies on or left of the two sides of the corner, and
/// on or right of the line from the vertex after the corner to the vertex
/// before it; and the three areas add up to that of the corner.
proof fn lemma_beside_corner(points: Seq<Point>, cycle: Seq<usize>, m: int, j: int)
    requires
        turns_never_right(points, cycle),
        0 <= m < cycle.len(),
        0 <= j < cycle.len(),
        j != m,
        j != before(cycle.len() as int, m),
        j != after(cycle.len() as int, m),
    ensures
        double_area(
            vertex(points, cycle, j),
            vertex(points, cycle, before(cycle.len() as int, m)),
            vertex(points, cycle, m),
        ) >= 0,
        double_area(
            vertex(points, cycle, j),
            vertex(points, cycle, m),
            vertex(points, cycle, after(cycle.len() as int, m)),
        ) >= 0,
        double_area(
            vertex(points, cycle, j),
            vertex(points, cycle, after(cycle.len() as int, m)),
            vertex(points, cycle, before(cycle.len() as int, m)),
        ) <= 0,
        double_area(
            vertex(points, cycle, j),
            vertex(points, cycle, before(cycle.len() as int, m)),
            vertex(points, cycle, m),
        ) + double_area(
            vertex(points, cycle, j),
            vertex(points, cycle, m),
            vertex(points, cycle, after(cycle.len() as int, m)),
        ) + double_area(
            vertex(points, cycle, j),
            vertex(points, cycle, after(cycle.len() as int, m)),
            vertex(points, cycle, before(cycle.len() as int, m)),
        ) == corner_area(points, cycle, m),
{
    let len: int = cycle.len() as int;
    let prev: int = before(len, m);
    let next: int = after(len, m);
    let q = vertex(points, cycle, j);
    let a = vertex(points, cycle, prev);
    let b = vertex(points, cycle, m);
    let c = vertex(points, cycle, next);
    lemma_cyclic_turn(points, cycle, prev, m, j);
    lemma_double_area_rotate(a, b, q);
    lemma_cyclic_turn(points, cycle, m, next, j);
    lemma_double_area_rotate(b, c, q);
    lemma_cyclic_turn(points, cycle, next, j, prev);
    lemma_double_area_around(q, a, b, c);
}

/// A convex boundary has an ear. From a corner that turns left and is no
/// ear, the search goes on to the corner after it, which turns left as
/// well and spans a smaller triangle.
proof fn lemma_ear_exists(points: Seq<Point>, cycle: Seq<usize>, m: int)
    requires
        cycle.len() >= 3,
        turns_never_right(points, cycle),
        vertices_apart(points, cycle),
        0 <= m < cycle.len(),
        corner_area(points, cycle, m) > 0,
    ensures
        exists|k: int| 0 <= k < cycle.len() && ear_at(points, cycle, k),
    decreases corner_area(points, cycle, m),
{
    let len: int = cycle.len() as int;
    let prev: int = before(len, m);
    let next: int = after(len, m);
    let a = vertex(points, cycle, prev);
    let b = vertex(points, cycle, m);
    let c = vertex(points, cycle, next);
    let whole: int = corner_area(points, cycle, m);
    if ear_at(points, cycle, m) {
    } else {
        // Some other vertex lies in the triangle of the corner.
        let j: int = choose|j: int|
            0 <= j < cycle.len() && (#[trigger] cycle[j]) != cycle[m] && cycle[j] != cycle[prev]
                && cycle[j] != cycle[next] && in_triangle(points[cycle[j] as int], a, b, c);
        let q = vertex(points, cycle, j);
        let d1: int = double_area(q, a, b);
        let d2: int = double_area(q, b, c);
        let d3: int = double_area(q, c, a);
        lemma_beside_corner(points, cycle, m, j);
        // It lies right of no side of the triangle, so on the line across the corner.
        assert(d3 == 0);
        lemma_apart(points, cycle, j, prev);
        lemma_apart(points, cycle, j, next);
        // And strictly between the two neighbours of the corner.
        assert(d1 > 0) by {
            if d1 == 0 {
                lemma_double_area_swap(a, q, b);
                lemma_double_area_swap(a, q, c);
                // `b` and `c` both lie on the line through `q` and `a`.
                lemma_collinear(q, a, b, c);
                lemma_double_area_swap(b, c, q);
            }
        }
        assert(d2 > 0) by {
            if d2 == 0 {
                lemma_double_area_swap(c, b, q);
                lemma_double_area_swap(c, a, q);
                // `b` and `a` both lie on the line through `q` and `c`.
                lemma_collinear(q, c, b, a);
                lemma_double_area_rotate(b, a, q);
            }
        }
        let next2: int = after(len, next);
        let r = vertex(points, cycle, next2);
        let smaller: int = corner_area(points, cycle, next);
        if next2 == j {
            lemma_double_area_rotate(q, b, c);
        } else {
            // The vertex after lies on the line across the corner as well.
            lemma_cyclic_turn(points, cycle, next, next2, j);
            lemma_cyclic_turn(points, cycle, next2, j, prev);
            lemma_cyclic_turn(points, cycle, m, next, next2);
            lemma_cyclic_turn(points, cycle, m, next2, j);
            let x: int = double_area(c, r, q);
            let y: int = double_area(r, q, a);
            lemma_double_area_exchange(q, a, b, c, r);
            lemma_double_area_rotate(q, a, b);
            lemma_double_area_rotate(q, b, c);
            lemma_double_area_rotate(q, c, a);
            lemma_double_area_rotate(r, q, a);
            assert(x == 0 && y == 0) by (nonlinear_arith)
                requires
                    d1 * x + d2 * y + d3 * double_area(b, r, q) == 0,
                    d3 == 0,
                    d1 > 0,
                    d2 > 0,
                    x >= 0,
                    y >= 0,
            ;
            // The corner after spans a part of the triangle of `b`, `c`, `q`.
            lemma_double_area_around(r, b, c, q);
            lemma_double_area_rotate(b, c, r);
            lemma_double_area_rotate(b, r, q);
            assert(smaller <= d2);
            assert(smaller > 0) by {
                if smaller == 0 {
                    lemma_apart(points, cycle, next, next2);
                    lemma_double_area_rotate(c, r, q);
                    // `b` and `q` both lie on the line through `c` and `r`.
                    lemma_collinear(c, r, b, q);
                }
            }
        }
        assert(smaller < whole);
        lemma_ear_exists(points, cycle, next);
    }
}

/// Where there is an ear, there is a first one.
proof fn lemma_has_first_ear(points: Seq<Point>, cycle: Seq<usize>, k: int) -> (first: int)
    requires
        0 <= k < cycle.len(),
        ear_at(points, cycle, k),
    ensures
        is_first_ear(points, cycle, first),
    decreases k,
{
    if exists|j: int| 0 <= j < k && ear_at(points, cycle, j) {
        let j: int = choose|j: int| 0 <= j < k && ear_at(points, cycle, j);
        lemma_has_first_ear(points, cycle, j)
    } else {
        k
    }
}

/// A convex boundary of four or more vertices stays convex when an ear is
/// cut off: the corner after the ear turns left in what remains.
proof fn lemma_convex_without_ear(points: Seq<Point>, cycle: Seq<usize>, k: int)
    requires
        convex(points, cycle),
        cycle.len() >= 4,
        0 <= k < cycle.len(),
        ear_at(points, cycle, k),
    ensures
        convex(points, cycle.remove(k)),
{
    let len: int = cycle.len() as int;
    let rest = cycle.remove(k);
    assert forall|i: int| 0 <= i < rest.len() implies #[trigger] rest[i] == cycle[if i < k {
        i
    } else {
        i + 1
    }] by {}
    assert forall|i: int, j: int, l: int| 0 <= i < j < l < rest.len() implies #[trigger] turn(
        points,
        rest,
        i,
        j,
        l,
    ) >= 0 by {
        let i0: int = if i < k { i } else { i + 1 };
        let j0: int = if j < k { j } else { j + 1 };
        let l0: int = if l < k { l } else { l + 1 };
        lemma_cyclic_turn(points, cycle, i0, j0, l0);
    }
    assert forall|i: int, j: int| 0 <= i < j < rest.len() implies #[trigger] apart(
        points,
        rest,
        i,
        j,
    ) by {
        let i0: int = if i < k { i } else { i + 1 };
        let j0: int = if j < k { j } else { j + 1 };
        lemma_apart(points, cycle, i0, j0);
    }
    // The corner after the ear, in what remains.
    let prev: int = before(len, k);
    let next: int = after(len, k);
    let next2: int = after(len, next);
    let a = vertex(points, cycle, prev);
    let b = vertex(points, cycle, k);
    let c = vertex(points, cycle, next);
    let r = vertex(points, cycle, next2);
    lemma_apart(points, cycle, next2, prev);
    lemma_apart(points, cycle, next2, k);
    lemma_apart(points, cycle, next2, next);
    lemma_beside_corner(points, cycle, k, next2);
    // The vertex after next does not block the ear, so it lies off the
    // line across the ear, to the right of it.
    assert(double_area(r, c, a) < 0);
    lemma_double_area_rotate(r, a, c);
    assert(double_area(a, c, r) > 0);
    let at: int = if k == len - 1 { 0 } else { k };
    assert(corner_area(points, rest, at) == double_area(a, c, r));
}

/// Ear clipping cuts every convex polygon of `n` vertices that runs
/// counter-clockwise into exactly `n - 2` triangles.
pub proof fn lemma_convex_triangulates(points: Seq<Point>, cycle: Seq<usize>)
    requires
        convex(points, cycle),
    ensures
        ear_clip(points, cycle) is Some,
        ear_clip(points, cycle)->0.len() == cycle.len() - 2,
    decreases cycle.len(),
{
    let m: int = choose|m: int| 0 <= m < cycle.len() && corner_area(points, cycle, m) > 0;
    lemma_ear_exists(points, cycle, m);
    let some: int = choose|k: int| 0 <= k < cycle.len() && ear_at(points, cycle, k);
    let k: int = lemma_has_first_ear(points, cycle, some);
    lemma_first_ear_is(points, cycle, k);
    if cycle.len() >= 4 {
        lemma_convex_without_ear(points, cycle, k);
        lemma_convex_triangulates(points, cycle.remove(k));
    }
    lemma_ear_clip_triangles(points, cycle);
}

} // verus!
