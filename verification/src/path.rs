//! The outline builder: an ordered list of vertices and an ordered list of
//! directed edges between them, grown by drawing commands.

use vstd::prelude::*;
use crate::geometry::Point;

verus! {

/// How far the drawing of a path has come.
#[derive(Clone, Copy, PartialEq, Eq, Debug, Structural)]
pub enum Phase {
    /// No vertex yet: only `move_to` applies.
    Empty,
    /// A chain of vertices that `line_to`, `arc_to` and `close` extend.
    Open,
    /// The last vertex is joined back to the first; nothing more is drawn.
    Closed,
}

/// An outline under construction, or a finished one.
pub struct Path {
    vertices: Vec<Point>,
    indices: Vec<[usize; 2]>,
}

/// What a `Path` holds: its vertices, and its edges as pairs of vertex
/// indices, from the first of the pair to the second.
pub struct PathView {
    pub vertices: Seq<Point>,
    pub indices: Seq<[usize; 2]>,
}

impl View for Path {
    type V = PathView;

    closed spec fn view(&self) -> PathView {
        PathView { vertices: self.vertices@, indices: self.indices@ }
    }
}

/// The position before `k` on a cycle of `len` positions.
pub open spec fn before(len: int, k: int) -> int {
    if k == 0 {
        len - 1
    } else {
        k - 1
    }
}

/// The position after `k` on a cycle of `len` positions.
pub open spec fn after(len: int, k: int) -> int {
    if k + 1 == len {
        0
    } else {
        k + 1
    }
}

/// The edges in reverse order, each with its two ends exchanged.
pub open spec fn reversed_edges(edges: Seq<[usize; 2]>) -> Seq<[usize; 2]> {
    Seq::new(edges.len(), |i: int| [edges[edges.len() - 1 - i][1], edges[edges.len() - 1 - i][0]])
}

/// The vertex indices `0`, `1`, ... up to `count - 1`: the boundary of a
/// path that was drawn forward and closed.
pub open spec fn forward_boundary(count: nat) -> Seq<usize> {
    Seq::new(count, |i: int| i as usize)
}

/// The edges that join `count` new vertices, numbered from `first`, each to
/// the vertex before it.
pub open spec fn chain_edges(first: int, count: nat) -> Seq<[usize; 2]> {
    Seq::new(count, |i: int| [(first - 1 + i) as usize, (first + i) as usize])
}

impl PathView {
    /// The phase, read off the two lengths.
    pub open spec fn phase(self) -> Phase {
        if self.vertices.len() == 0 {
            Phase::Empty
        } else if self.indices.len() < self.vertices.len() {
            Phase::Open
        } else {
            Phase::Closed
        }
    }

    /// Every edge joins two existing vertices, and there are as many edges
    /// as the phase allows: none on an empty path, one less than vertices
    /// on an open one, as many as vertices on a closed one.
    pub open spec fn wf(self) -> bool {
        &&& forall|i: int|
            0 <= i < self.indices.len() ==> (#[trigger] self.indices[i])[0] < self.vertices.len()
                && self.indices[i][1] < self.vertices.len()
        &&& self.vertices.len() == 0 ==> self.indices.len() == 0
        &&& self.vertices.len() > 0 ==> self.indices.len() == self.vertices.len() - 1
            || self.indices.len() == self.vertices.len()
    }

    /// The path is a chain drawn forward: edge `i` runs from vertex `i` to
    /// vertex `i + 1`, and the last vertex has no edge yet.
    pub open spec fn is_chain(self) -> bool {
        &&& self.vertices.len() >= 1
        &&& self.indices.len() == self.vertices.len() - 1
        &&& forall|i: int|
            0 <= i < self.indices.len() ==> (#[trigger] self.indices[i])[0] == i
                && self.indices[i][1] == i + 1
    }

    /// The edges form one cycle through every vertex exactly once: there
    /// are as many edges as vertices, each edge ends where the next one
    /// starts, the last one where the first one starts, and no two edges
    /// start at the same vertex.
    pub open spec fn is_cycle(self) -> bool {
        &&& self.vertices.len() >= 1
        &&& self.indices.len() == self.vertices.len()
        &&& forall|i: int|
            0 <= i < self.indices.len() ==> (#[trigger] self.indices[i])[0] < self.vertices.len()
        &&& forall|i: int|
            0 <= i < self.indices.len() ==> (#[trigger] self.indices[i])[1]
                == self.indices[after(self.indices.len() as int, i)][0]
        &&& forall|i: int, j: int|
            0 <= i < j < self.indices.len() ==> (#[trigger] self.indices[i])[0]
                != (#[trigger] self.indices[j])[0]
    }

    /// The vertex indices of the boundary in drawing order: the start of
    /// each edge.
    pub open spec fn boundary(self) -> Seq<usize> {
        Seq::new(self.indices.len(), |i: int| self.indices[i][0])
    }
}

impl Path {
    /// Well-formedness of the path, see [`PathView::wf`].
    pub open spec fn wf(&self) -> bool {
        self@.wf()
    }

    /// An empty path.
    pub fn new() -> (path: Path)
        ensures
            path@.vertices == Seq::<Point>::empty(),
            path@.indices == Seq::<[usize; 2]>::empty(),
            path.wf(),
    {
        Path { vertices: Vec::new(), indices: Vec::new() }
    }

    /// The vertices drawn so far.
    pub fn vertices(&self) -> (vertices: &Vec<Point>)
        ensures
            vertices@ == self@.vertices,
    {
        &self.vertices
    }

    /// The edges drawn so far.
    pub fn indices(&self) -> (indices: &Vec<[usize; 2]>)
        ensures
            indices@ == self@.indices,
    {
        &self.indices
    }

    /// The phase the path is in.
    pub fn phase(&self) -> (phase: Phase)
        ensures
            phase == self@.phase(),
    {
        if self.vertices.len() == 0 {
            Phase::Empty
        } else if self.indices.len() < self.vertices.len() {
            Phase::Open
        } else {
            Phase::Closed
        }
    }

    /// Starts the path at `pos`, which becomes vertex 0.
    pub fn move_to(&mut self, pos: Point)
        requires
            old(self).wf(),
            old(self)@.phase() == Phase::Empty,
        ensures
            final(self)@.vertices == seq![pos],
            final(self)@.indices == Seq::<[usize; 2]>::empty(),
            final(self).wf(),
            final(self)@.phase() == Phase::Open,
            final(self)@.is_chain(),
    {
        self.vertices.push(pos);
    }

    /// Draws a segment from the last vertex to `pos`, which becomes a new
    /// vertex.
    pub fn line_to(&mut self, pos: Point)
        requires
            old(self).wf(),
            old(self)@.phase() == Phase::Open,
        ensures
            final(self)@.vertices == old(self)@.vertices.push(pos),
            final(self)@.indices == old(self)@.indices.push(
                [(old(self)@.vertices.len() - 1) as usize, old(self)@.vertices.len() as usize],
            ),
            final(self).wf(),
            final(self)@.phase() == Phase::Open,
            old(self)@.is_chain() ==> final(self)@.is_chain(),
    {
        let index: usize = self.vertices.len();
        self.vertices.push(pos);
        self.indices.push([index - 1, index]);
    }

    /// Draws the last segment, from the last vertex back to vertex 0.
    pub fn close(&mut self)
        requires
            old(self).wf(),
            old(self)@.phase() == Phase::Open,
        ensures
            final(self)@.vertices == old(self)@.vertices,
            final(self)@.indices == old(self)@.indices.push(
                [(old(self)@.vertices.len() - 1) as usize, 0],
            ),
            final(self).wf(),
            final(self)@.phase() == Phase::Closed,
            old(self)@.is_chain() ==> final(self)@.is_cycle() && final(self)@.boundary()
                == forward_boundary(final(self)@.vertices.len()),
    {
        let index: usize = self.vertices.len();
        self.indices.push([index - 1, 0]);
        assert(old(self)@.is_chain() ==> self@.boundary() =~= forward_boundary(
            self@.vertices.len(),
        ));
    }

    /// Reverses the winding order: the edges come in reverse order, each
    /// with its two ends exchanged. The vertices stay as they are.
    pub fn reverse_winding_order(&mut self)
        requires
            old(self).wf(),
        ensures
            final(self)@.vertices == old(self)@.vertices,
            final(self)@.indices == reversed_edges(old(self)@.indices),
            final(self).wf(),
            final(self)@.phase() == old(self)@.phase(),
            old(self)@.is_cycle() ==> final(self)@.is_cycle(),
    {
        proof {
            if self@.is_cycle() {
                lemma_reversed_cycle(self@);
            }
        }
        let count: usize = self.indices.len();
        let mut reversed: Vec<[usize; 2]> = Vec::new();
        let mut done: usize = 0;
        while done < count
            invariant
                count == self.indices.len(),
                done <= count,
                reversed@ == reversed_edges(self.indices@).subrange(0, done as int),
            decreases count - done,
        {
            let edge: [usize; 2] = self.indices[count - 1 - done];
            reversed.push([edge[1], edge[0]]);
            done += 1;
            assert(reversed@ =~= reversed_edges(self.indices@).subrange(0, done as int));
        }
        assert(reversed@ =~= reversed_edges(self.indices@));
        self.indices = reversed;
    }

    /// Draws a tessellated arc: each of `samples`, in order, becomes a new
    /// vertex joined to the vertex before it.
    pub fn arc_to(&mut self, samples: &Vec<Point>)
        requires
            old(self).wf(),
            old(self)@.phase() == Phase::Open,
        ensures
            final(self)@.vertices == old(self)@.vertices + samples@,
            final(self)@.indices == old(self)@.indices + chain_edges(
                old(self)@.vertices.len() as int,
                samples@.len(),
            ),
            final(self)@.vertices.len() == old(self)@.vertices.len() + samples@.len(),
            final(self)@.indices.len() == old(self)@.indices.len() + samples@.len(),
            final(self).wf(),
            final(self)@.phase() == Phase::Open,
            old(self)@.is_chain() ==> final(self)@.is_chain(),
    {
        let count: usize = samples.len();
        let mut done: usize = 0;
        while done < count
            invariant
                count == samples.len(),
                done <= count,
                self.wf(),
                self@.phase() == Phase::Open,
                old(self)@.is_chain() ==> self@.is_chain(),
                self@.vertices == old(self)@.vertices + samples@.subrange(0, done as int),
                self@.indices == old(self)@.indices + chain_edges(
                    old(self)@.vertices.len() as int,
                    done as nat,
                ),
            decreases count - done,
        {
            self.line_to(samples[done]);
            done += 1;
            assert(self@.vertices =~= old(self)@.vertices + samples@.subrange(0, done as int));
            assert(self@.indices =~= old(self)@.indices + chain_edges(
                old(self)@.vertices.len() as int,
                done as nat,
            ));
        }
        assert(samples@.subrange(0, count as int) =~= samples@);
    }
}

/// Edge `i` of the reversed list is edge `len - 1 - i` backwards.
proof fn lemma_reversed_entry(edges: Seq<[usize; 2]>, i: int)
    requires
        0 <= i < edges.len(),
    ensures
        reversed_edges(edges).len() == edges.len(),
        reversed_edges(edges)[i][0] == edges[edges.len() - 1 - i][1],
        reversed_edges(edges)[i][1] == edges[edges.len() - 1 - i][0],
{
}

/// Whether each of `starts` is followed, cyclically, by the matching one
/// of `ends`, and no two of `starts` are the same.
spec fn linked(starts: Seq<usize>, ends: Seq<usize>) -> bool {
    &&& starts.len() == ends.len()
    &&& forall|i: int|
        0 <= i < starts.len() ==> (#[trigger] ends[i]) == starts[after(starts.len() as int, i)]
    &&& forall|i: int, j: int| 0 <= i < j < starts.len() ==> starts[i] != starts[j]
}

/// Walking a linked cycle backwards links it again.
proof fn lemma_linked_backwards(starts: Seq<usize>, ends: Seq<usize>)
    requires
        linked(starts, ends),
    ensures
        linked(ends.reverse(), starts.reverse()),
{
    let len: int = starts.len() as int;
    let s = ends.reverse();
    let e = starts.reverse();
    assert forall|i: int| 0 <= i < len implies (#[trigger] e[i]) == s[after(len, i)] by {
        let back: int = len - 1 - after(len, i);
        assert(ends[back] == starts[after(len, back)]);
    }
    assert forall|i: int, j: int| 0 <= i < j < len implies s[i] != s[j] by {
        let bi: int = len - 1 - i;
        let bj: int = len - 1 - j;
        assert(ends[bi] == starts[after(len, bi)]);
        assert(ends[bj] == starts[after(len, bj)]);
    }
}

/// A cycle with its winding order reversed is a cycle again, through the
/// same vertices the other way round.
pub proof fn lemma_reversed_cycle(path: PathView)
    requires
        path.is_cycle(),
    ensures
        (PathView { vertices: path.vertices, indices: reversed_edges(path.indices) }).is_cycle(),
{
    let edges = path.indices;
    let len: int = edges.len() as int;
    let turned = reversed_edges(edges);
    let starts = Seq::new(edges.len(), |i: int| edges[i][0]);
    let ends = Seq::new(edges.len(), |i: int| edges[i][1]);
    assert(linked(starts, ends)) by {
        assert forall|i: int| 0 <= i < len implies (#[trigger] ends[i]) == starts[after(
            len,
            i,
        )] by {
            assert(edges[i][1] == edges[after(len, i)][0]);
        }
        assert forall|i: int, j: int| 0 <= i < j < len implies starts[i] != starts[j] by {
            assert(edges[i][0] != edges[j][0]);
        }
    }
    lemma_linked_backwards(starts, ends);
    let s = ends.reverse();
    let e = starts.reverse();
    assert forall|i: int| 0 <= i < len implies (#[trigger] turned[i])[0] == s[i] && turned[i][1]
        == e[i] by {
        lemma_reversed_entry(edges, i);
    }
    assert forall|i: int| 0 <= i < len implies (#[trigger] turned[i])[0]
        < path.vertices.len() by {
        let from: int = after(len, len - 1 - i);
        assert(ends[len - 1 - i] == starts[from]);
        assert(edges[from][0] < path.vertices.len());
    }
    assert forall|i: int| 0 <= i < len implies (#[trigger] turned[i])[1] == turned[after(
        len,
        i,
    )][0] by {
        assert(e[i] == s[after(len, i)]);
    }
    assert forall|i: int, j: int| 0 <= i < j < len implies (#[trigger] turned[i])[0] != (
    #[trigger] turned[j])[0] by {
        assert(s[i] != s[j]);
    }
}

/// Reversing the winding order twice gives back the edge list it started
/// from, element for element.
pub proof fn lemma_reverse_twice(edges: Seq<[usize; 2]>)
    ensures
        reversed_edges(reversed_edges(edges)) == edges,
{
    let twice = reversed_edges(reversed_edges(edges));
    assert(twice.len() == edges.len());
    assert forall|i: int| 0 <= i < edges.len() implies twice[i] == edges[i] by {
        let back: int = edges.len() - 1 - i;
        assert(reversed_edges(edges)[back][0] == edges[i][1]);
        assert(reversed_edges(edges)[back][1] == edges[i][0]);
        assert(twice[i]@ =~= edges[i]@);
        assert(twice[i] =~= edges[i]);
    }
    assert(twice =~= edges);
}

} // verus!
