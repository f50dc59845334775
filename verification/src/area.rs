//! Signed areas by the shoelace formula, and the law that ear clipping keeps
//! the area: the triangles together cover as much as the outline encloses.

use vstd::prelude::*;
use crate::geometry::{cross, double_area, lemma_double_area_is_shoelace, Point};
use crate::path::{after, before};
use crate::triangulate::{ear_clip, first_ear, triangle_at, triangle_double_area};

verus! {

/// The shoelace terms of the segments of `polygon` from position `from` to
/// position `to`, added up.
pub open spec fn chain_sum(polygon: Seq<Point>, from: int, to: int) -> int
    decreases to - from,
{
    if to <= from {
        0
    } else {
        chain_sum(polygon, from, to - 1) + cross(polygon[to - 1], polygon[to])
    }
}

/// Twice the signed area that the closed `polygon` encloses, by the shoelace
/// formula: positive when it runs counter-clockwise.
pub open spec fn shoelace(polygon: Seq<Point>) -> int {
    if polygon.len() == 0 {
        0
    } else {
        chain_sum(polygon, 0, polygon.len() - 1) + cross(polygon[polygon.len() - 1], polygon[0])
    }
}

/// The points that the vertex indices of `cycle` stand for.
pub open spec fn outline(points: Seq<Point>, cycle: Seq<usize>) -> Seq<Point> {
    Seq::new(cycle.len(), |i: int| points[cycle[i] as int])
}

/// Twice the signed area enclosed by the boundary `cycle` over `points`.
pub open spec fn polygon_double_area(points: Seq<Point>, cycle: Seq<usize>) -> int {
    shoelace(outline(points, cycle))
}

/// Twice the signed areas of `triangles`, added up.
pub open spec fn triangles_double_area(points: Seq<Point>, triangles: Seq<[usize; 3]>) -> int
    decreases triangles.len(),
{
    if triangles.len() == 0 {
        0
    } else {
        triangle_double_area(points, triangles[0]) + triangles_double_area(
            points,
            triangles.drop_first(),
        )
    }
}

/// A chain sum splits at any position between its ends.
proof fn lemma_chain_split(polygon: Seq<Point>, from: int, mid: int, to: int)
    requires
        from <= mid <= to,
    ensures
        chain_sum(polygon, from, to) == chain_sum(polygon, from, mid) + chain_sum(
            polygon,
            mid,
            to,
        ),
    decreases to - mid,
{
    if mid < to {
        lemma_chain_split(polygon, from, mid, to - 1);
    }
}

/// Two chains over the same points, one shifted against the other by
/// `shift` positions, have the same sum.
proof fn lemma_chain_shift(p: Seq<Point>, q: Seq<Point>, from: int, to: int, shift: int)
    requires
        from <= to,
        forall|j: int| from <= j <= to ==> q[j] == p[j + shift],
    ensures
        chain_sum(q, from, to) == chain_sum(p, from + shift, to + shift),
    decreases to - from,
{
    if from < to {
        lemma_chain_shift(p, q, from, to - 1, shift);
        assert(q[to - 1] == p[to - 1 + shift]);
        assert(q[to] == p[to + shift]);
    }
}

/// Cutting the corner at position `k` off a polygon lowers its shoelace sum
/// by the signed area of the triangle cut off.
pub proof fn lemma_shoelace_remove(polygon: Seq<Point>, k: int)
    requires
        polygon.len() >= 3,
        0 <= k < polygon.len(),
    ensures
        shoelace(polygon) == shoelace(polygon.remove(k)) + double_area(
            polygon[before(polygon.len() as int, k)],
            polygon[k],
            polygon[after(polygon.len() as int, k)],
        ),
{
    let n: int = polygon.len() as int;
    let rest = polygon.remove(k);
    assert(rest.len() == n - 1);
    assert forall|j: int| 0 <= j < k implies rest[j] == polygon[j] by {}
    assert forall|j: int| k <= j < n - 1 implies rest[j] == polygon[j + 1] by {}
    if k == 0 {
        lemma_chain_shift(polygon, rest, 0, n - 2, 1);
        lemma_chain_split(polygon, 0, 1, n - 1);
        assert(chain_sum(polygon, 0, 1) == chain_sum(polygon, 0, 0) + cross(
            polygon[0],
            polygon[1],
        ));
        lemma_double_area_is_shoelace(polygon[n - 1], polygon[0], polygon[1]);
    } else if k == n - 1 {
        lemma_chain_shift(polygon, rest, 0, n - 2, 0);
        assert(chain_sum(polygon, 0, n - 1) == chain_sum(polygon, 0, n - 2) + cross(
            polygon[n - 2],
            polygon[n - 1],
        ));
        lemma_double_area_is_shoelace(polygon[n - 2], polygon[n - 1], polygon[0]);
    } else {
        // The chain before the corner, the new side across it, the chain after.
        lemma_chain_split(rest, 0, k - 1, n - 2);
        lemma_chain_split(rest, k - 1, k, n - 2);
        lemma_chain_shift(polygon, rest, 0, k - 1, 0);
        lemma_chain_shift(polygon, rest, k, n - 2, 1);
        assert(chain_sum(rest, k - 1, k) == chain_sum(rest, k - 1, k - 1) + cross(
            rest[k - 1],
            rest[k],
        ));
        lemma_chain_split(polygon, 0, k - 1, n - 1);
        lemma_chain_split(polygon, k - 1, k + 1, n - 1);
        assert(chain_sum(polygon, k - 1, k + 1) == chain_sum(polygon, k - 1, k) + cross(
            polygon[k],
            polygon[k + 1],
        ));
        assert(chain_sum(polygon, k - 1, k) == chain_sum(polygon, k - 1, k - 1) + cross(
            polygon[k - 1],
            polygon[k],
        ));
        lemma_double_area_is_shoelace(polygon[k - 1], polygon[k], polygon[k + 1]);
    }
}

/// The triangles that ear clipping cuts from a boundary have, added up,
/// the signed area that the boundary encloses.
pub proof fn lemma_ear_clip_keeps_area(points: Seq<Point>, cycle: Seq<usize>)
    requires
        ear_clip(points, cycle) is Some,
    ensures
        triangles_double_area(points, ear_clip(points, cycle)->0) == polygon_double_area(
            points,
            cycle,
        ),
    decreases cycle.len(),
{
    let polygon = outline(points, cycle);
    if cycle.len() < 3 {
        if cycle.len() == 2 {
            assert(chain_sum(polygon, 0, 1) == chain_sum(polygon, 0, 0) + cross(
                polygon[0],
                polygon[1],
            ));
        }
    } else {
        let k: int = first_ear(points, cycle)->0;
        let cut = triangle_at(cycle, k);
        let rest = ear_clip(points, cycle.remove(k))->0;
        let all = ear_clip(points, cycle)->0;
        assert(all == seq![cut] + rest);
        assert(all[0] == cut);
        assert(all.drop_first() =~= rest);
        lemma_ear_clip_keeps_area(points, cycle.remove(k));
        lemma_shoelace_remove(polygon, k);
        assert(outline(points, cycle.remove(k)) =~= polygon.remove(k));
    }
}

} // verus!
