//! Ear clipping: cutting a closed outline into counter-clockwise triangles,
//! one convex corner at a time.

use vstd::prelude::*;
use crate::area::{lemma_ear_clip_keeps_area, polygon_double_area, triangles_double_area};
use crate::convex::{convex, lemma_convex_triangulates};
use crate::geometry::{double_area, in_triangle, is_point_in_triangle, sign, Point};
use crate::path::{after, before, Path};

verus! {

/// No corner of what is left of the outline is an ear: the outline crosses
/// itself, runs clockwise, or has no area.
#[derive(Clone, Copy, PartialEq, Eq, Debug, Structural)]
pub struct TriangulationFailed;

impl TriangulationFailed {
    /// The error in words.
    pub fn message(&self) -> (text: String)
        ensures
            text@ == "Failed to find an ear, is the polygon self-intersecting?"@,
    {
        "Failed to find an ear, is the polygon self-intersecting?".to_owned()
    }
}

/// Whether the corner at vertex `ear`, between the vertices `prev` and
/// `next`, can be cut off: the corner turns counter-clockwise, and no other
/// vertex of `remaining` blocks the triangle.
pub open spec fn ear_corner(
    points: Seq<Point>,
    remaining: Seq<usize>,
    ear: usize,
    prev: usize,
    next: usize,
) -> bool {
    &&& double_area(points[prev as int], points[ear as int], points[next as int]) > 0
    &&& forall|j: int|
        0 <= j < remaining.len() && (#[trigger] remaining[j]) != ear && remaining[j] != prev
            && remaining[j] != next ==> !in_triangle(
            points[remaining[j] as int],
            points[prev as int],
            points[ear as int],
            points[next as int],
        )
}

/// Whether position `k` of `remaining` is an ear, with the positions before
/// and after it on the cycle as its neighbours.
pub open spec fn ear_at(points: Seq<Point>, remaining: Seq<usize>, k: int) -> bool {
    ear_corner(
        points,
        remaining,
        remaining[k],
        remaining[before(remaining.len() as int, k)],
        remaining[after(remaining.len() as int, k)],
    )
}

/// Whether `k` is the first position of `remaining` that is an ear.
pub open spec fn is_first_ear(points: Seq<Point>, remaining: Seq<usize>, k: int) -> bool {
    &&& 0 <= k < remaining.len()
    &&& ear_at(points, remaining, k)
    &&& forall|j: int| 0 <= j < k ==> !ear_at(points, remaining, j)
}

/// The first position of `remaining` that is an ear, if there is one.
pub open spec fn first_ear(points: Seq<Point>, remaining: Seq<usize>) -> Option<int> {
    if exists|k: int| is_first_ear(points, remaining, k) {
        Some(choose|k: int| is_first_ear(points, remaining, k))
    } else {
        None
    }
}

/// The triangle cut off at position `k`: the vertex before, the vertex at
/// `k`, the vertex after.
pub open spec fn triangle_at(remaining: Seq<usize>, k: int) -> [usize; 3] {
    [
        remaining[before(remaining.len() as int, k)],
        remaining[k],
        remaining[after(remaining.len() as int, k)],
    ]
}

/// Twice the signed area of a triangle of vertex indices: positive when
/// its corners run counter-clockwise.
pub open spec fn triangle_double_area(points: Seq<Point>, triangle: [usize; 3]) -> int {
    double_area(
        points[triangle[0] as int],
        points[triangle[1] as int],
        points[triangle[2] as int],
    )
}

/// `done`, followed by what clipping the rest gave, if it gave anything.
pub open spec fn followed_by(done: Seq<[usize; 3]>, rest: Option<Seq<[usize; 3]>>) -> Option<
    Seq<[usize; 3]>,
> {
    match rest {
        Some(more) => Some(done + more),
        None => None,
    }
}

/// The triangles of the cycle `remaining`: while three or more vertices
/// remain, the first ear is cut off and leaves the cycle. `None` when at
/// some point three or more vertices remain and none of them is an ear.
pub open spec fn ear_clip(points: Seq<Point>, remaining: Seq<usize>) -> Option<Seq<[usize; 3]>>
    decreases remaining.len(),
{
    if remaining.len() < 3 {
        Some(Seq::empty())
    } else {
        match first_ear(points, remaining) {
            Some(k) => followed_by(
                seq![triangle_at(remaining, k)],
                ear_clip(points, remaining.remove(k)),
            ),
            None => None,
        }
    }
}

/// The first ear is the only position that is an ear with none before it.
pub proof fn lemma_first_ear_is(points: Seq<Point>, remaining: Seq<usize>, k: int)
    requires
        is_first_ear(points, remaining, k),
    ensures
        first_ear(points, remaining) == Some(k),
{
    let chosen: int = choose|c: int| is_first_ear(points, remaining, c);
    assert(is_first_ear(points, remaining, chosen));
    if chosen < k {
        assert(!ear_at(points, remaining, chosen));
    }
    if k < chosen {
        assert(!ear_at(points, remaining, k));
    }
}

/// How many triangles a cycle of `vertices` vertices is cut into.
pub open spec fn triangle_count(vertices: nat) -> nat {
    if vertices >= 3 {
        (vertices - 2) as nat
    } else {
        0
    }
}

/// What holds of every triangle that ear clipping gives: there are two
/// fewer triangles than boundary vertices, each turns counter-clockwise with
/// an area above zero, and each corner is a vertex of the boundary.
pub proof fn lemma_ear_clip_triangles(points: Seq<Point>, remaining: Seq<usize>)
    requires
        ear_clip(points, remaining) is Some,
    ensures
        ear_clip(points, remaining)->0.len() == triangle_count(remaining.len()),
        forall|i: int|
            0 <= i < ear_clip(points, remaining)->0.len() ==> triangle_double_area(
                points,
                #[trigger] ear_clip(points, remaining)->0[i],
            ) > 0,
        forall|i: int, c: int|
            0 <= i < ear_clip(points, remaining)->0.len() && 0 <= c < 3 ==> remaining.contains(
                #[trigger] ear_clip(points, remaining)->0[i][c],
            ),
    decreases remaining.len(),
{
    if remaining.len() >= 3 {
        let len: int = remaining.len() as int;
        let k: int = first_ear(points, remaining)->0;
        let cut = triangle_at(remaining, k);
        let fewer = remaining.remove(k);
        let rest = ear_clip(points, fewer)->0;
        let all = ear_clip(points, remaining)->0;
        assert(is_first_ear(points, remaining, k));
        assert(all == seq![cut] + rest);
        lemma_ear_clip_triangles(points, fewer);
        assert forall|i: int| 0 <= i < all.len() implies triangle_double_area(
            points,
            #[trigger] all[i],
        ) > 0 by {
            if i > 0 {
                assert(all[i] == rest[i - 1]);
            }
        }
        assert forall|i: int, c: int| 0 <= i < all.len() && 0 <= c < 3 implies remaining.contains(
            #[trigger] all[i][c],
        ) by {
            if i == 0 {
                assert(remaining[before(len, k)] == cut[0]);
                assert(remaining[k] == cut[1]);
                assert(remaining[after(len, k)] == cut[2]);
            } else {
                assert(all[i] == rest[i - 1]);
                assert(fewer.contains(rest[i - 1][c]));
                let at: int = choose|at: int| 0 <= at < fewer.len() && fewer[at] == rest[i - 1][c];
                if at < k {
                    assert(remaining[at] == fewer[at]);
                } else {
                    assert(remaining[at + 1] == fewer[at]);
                }
            }
        }
    }
}

/// Tests the corner at vertex `ear`, between `prev` and `next`, against the
/// vertices that remain.
pub fn is_ear(path: &Path, remaining: &Vec<usize>, ear: usize, prev: usize, next: usize) -> (r:
    bool)
    requires
        ear < path@.vertices.len(),
        prev < path@.vertices.len(),
        next < path@.vertices.len(),
        forall|j: int| 0 <= j < remaining.len() ==> remaining[j] < path@.vertices.len(),
    ensures
        r == ear_corner(path@.vertices, remaining@, ear, prev, next),
{
    let vertices = path.vertices();
    let ear_pos: Point = vertices[ear];
    let prev_pos: Point = vertices[prev];
    let next_pos: Point = vertices[next];

    // The corner has to turn counter-clockwise, with the inside on its left.
    if sign(prev_pos, ear_pos, next_pos) <= 0 {
        return false;
    }
    // No other vertex may lie in the triangle.

    let count: usize = remaining.len();
    let mut j: usize = 0;
    while j < count
        invariant
            count == remaining.len(),
            j <= count,
            vertices@ == path@.vertices,
            ear_pos == vertices[ear as int],
            prev_pos == vertices[prev as int],
            next_pos == vertices[next as int],
            forall|i: int| 0 <= i < remaining.len() ==> remaining[i] < vertices.len(),
            forall|i: int|
                0 <= i < j && (#[trigger] remaining[i]) != ear && remaining[i] != prev
                    && remaining[i] != next ==> !in_triangle(
                    vertices[remaining[i] as int],
                    prev_pos,
                    ear_pos,
                    next_pos,
                ),
        decreases count - j,
    {
        let i: usize = remaining[j];
        if i != ear && i != prev && i != next {
            if is_point_in_triangle(vertices[i], prev_pos, ear_pos, next_pos) {
                return false;
            }
        }
        j += 1;
    }
    true
}

impl Path {
    /// Cuts the outline into triangles by ear clipping. The boundary is the
    /// cycle of the edges' start vertices, in edge order. Each triangle is
    /// three vertex indices, in counter-clockwise order.
    pub fn triangulate(&self) -> (r: Result<Vec<[usize; 3]>, TriangulationFailed>)
        requires
            self.wf(),
        ensures
            match r {
                Ok(triangles) => ear_clip(self@.vertices, self@.boundary()) == Some(triangles@),
                Err(_) => ear_clip(self@.vertices, self@.boundary()) is None,
            },
            convex(self@.vertices, self@.boundary()) ==> r is Ok,
            r matches Ok(triangles) ==> {
                &&& triangles@.len() == triangle_count(self@.boundary().len())
                &&& forall|i: int, c: int|
                    0 <= i < triangles@.len() && 0 <= c < 3 ==> (#[trigger] triangles@[i][c])
                        < self@.vertices.len()
                &&& forall|i: int|
                    0 <= i < triangles@.len() ==> triangle_double_area(
                        self@.vertices,
                        #[trigger] triangles@[i],
                    ) > 0
                &&& triangles_double_area(self@.vertices, triangles@) == polygon_double_area(
                    self@.vertices,
                    self@.boundary(),
                )
            },
    {
        let ghost points = self@.vertices;
        let edges = self.indices();
        let mut triangles: Vec<[usize; 3]> = Vec::new();
        let mut remaining: Vec<usize> = Vec::new();
        let edge_count: usize = edges.len();
        let mut e: usize = 0;
        while e < edge_count
            invariant
                self.wf(),
                edges@ == self@.indices,
                edge_count == edges.len(),
                e <= edge_count,
                remaining@ == self@.boundary().subrange(0, e as int),
            decreases edge_count - e,
        {
            remaining.push(edges[e][0]);
            e += 1;
            assert(remaining@ =~= self@.boundary().subrange(0, e as int));
        }
        assert(remaining@ =~= self@.boundary());
        assert(followed_by(triangles@, ear_clip(points, remaining@)) =~= ear_clip(
            points,
            remaining@,
        ));

        while remaining.len() >= 3
            invariant
                points == self@.vertices,
                forall|j: int| 0 <= j < remaining.len() ==> remaining[j] < points.len(),
                ear_clip(points, self@.boundary()) == followed_by(
                    triangles@,
                    ear_clip(points, remaining@),
                ),
            decreases remaining.len(),
        {
            // Find and remove one ear.
            let count: usize = remaining.len();
            let mut found_ear = false;
            let mut k: usize = 0;
            while k < count
                invariant_except_break
                    !found_ear,
                    remaining.len() == count,
                    forall|j: int| 0 <= j < k ==> !ear_at(points, remaining@, j),
                    ear_clip(points, self@.boundary()) == followed_by(
                        triangles@,
                        ear_clip(points, remaining@),
                    ),
                invariant
                    count >= 3,
                    k <= count,
                    points == self@.vertices,
                    forall|j: int| 0 <= j < remaining.len() ==> remaining[j] < points.len(),
                ensures
                    found_ear ==> remaining.len() == count - 1 && ear_clip(
                        points,
                        self@.boundary(),
                    ) == followed_by(triangles@, ear_clip(points, remaining@)),
                    !found_ear ==> remaining.len() == count && first_ear(points, remaining@)
                        is None && ear_clip(points, self@.boundary()) == followed_by(
                        triangles@,
                        ear_clip(points, remaining@),
                    ),
                decreases count - k,
            {
                let prev_k: usize = if k == 0 {
                    count - 1
                } else {
                    k - 1
                };
                let next_k: usize = if k + 1 == count {
                    0
                } else {
                    k + 1
                };
                if is_ear(self, &remaining, remaining[k], remaining[prev_k], remaining[next_k]) {
                    proof {
                        lemma_first_ear_is(points, remaining@, k as int);
                        let rest = ear_clip(points, remaining@.remove(k as int));
                        let cut = triangle_at(remaining@, k as int);
                        if rest is Some {
                            assert(triangles@ + (seq![cut] + rest->0) =~= triangles@.push(cut)
                                + rest->0);
                        }
                    }
                    // The triangle runs from the vertex before the ear to the one after it.
                    triangles.push([remaining[prev_k], remaining[k], remaining[next_k]]);
                    // Without the ear a smaller outline is left.
                    remaining.remove(k);
                    found_ear = true;
                    break;
                }
                k += 1;
            }
            if !found_ear {
                proof {
                    if convex(points, self@.boundary()) {
                        lemma_convex_triangulates(points, self@.boundary());
                    }
                }
                return Err(TriangulationFailed);
            }
        }
        proof {
            let done = triangles@;
            assert(done + Seq::<[usize; 3]>::empty() =~= done);
            lemma_ear_clip_triangles(points, self@.boundary());
            lemma_ear_clip_keeps_area(points, self@.boundary());
            assert forall|i: int, c: int| 0 <= i < done.len() && 0 <= c < 3 implies (
            #[trigger] done[i][c]) < points.len() by {
                assert(self@.boundary().contains(done[i][c]));
            }
        }
        Ok(triangles)
    }
}

} // verus!
