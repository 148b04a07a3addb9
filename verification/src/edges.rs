//! Edges: an ear clipping uses every side of the polygon once, and every
//! diagonal once in each direction.
//!
//! Each triangle has three directed edges, from each of its vertices to the
//! next.  While ears are clipped, an edge between two surviving vertices is
//! either an edge of the ring, which no triangle has used yet, or the reverse
//! of one, which a triangle has used once.  Clipping an ear uses the two ring
//! edges at the ear and puts the diagonal between its neighbours into the ring,
//! its reverse being the third edge of the triangle.

use vstd::prelude::*;
use crate::geometry::Point;
use crate::clipping::{
    prev_at, next_at, ring_prev, ring_next, full_ring, clip, clipped, is_ear_clipping, tips_of,
    triangle_of, ring_triangle, lemma_clipped, lemma_clip, lemma_index_of, lemma_index_of_member,
    lemma_picks_prefix, lemma_unlink_ring, lemma_neighbours_in_ring, lemma_neighbours_distinct,
};

verus! {

/// One if the condition holds, zero if not.
pub open spec fn one_if(condition: bool) -> int {
    if condition {
        1
    } else {
        0
    }
}

/// How often the `k`-th triangle of the stream has the directed edge from `a`
/// to `b`: its edges run from each of its vertices to the next.
pub open spec fn triangle_edge_count(triangles: Seq<usize>, k: int, a: usize, b: usize) -> int {
    one_if(triangles[3 * k] == a && triangles[3 * k + 1] == b) + one_if(
        triangles[3 * k + 1] == a && triangles[3 * k + 2] == b,
    ) + one_if(triangles[3 * k + 2] == a && triangles[3 * k] == b)
}

/// How often the first `count` triangles of the stream have the directed edge
/// from `a` to `b`.
pub open spec fn edge_count(triangles: Seq<usize>, count: int, a: usize, b: usize) -> int
    decreases count,
{
    if count <= 0 {
        0
    } else {
        edge_count(triangles, count - 1, a, b) + triangle_edge_count(triangles, count - 1, a, b)
    }
}

/// The directed edge from `a` to `b` is a side of the polygon of `n` vertices:
/// `b` follows `a`.
pub open spec fn polygon_edge(n: nat, a: usize, b: usize) -> bool {
    a < n && b < n && (b == a + 1 || (a == n - 1 && b == 0))
}

/// The directed edge from `a` to `b` is an edge of the ring.
pub open spec fn ring_edge(ring: Seq<usize>, a: usize, b: usize) -> bool {
    ring.contains(a) && ring_next(ring, a) == b
}

/// How often the edge from `a` to `b` is spoken for: by the triangles written
/// so far, or by the ring, whose edges are still to be used.
pub open spec fn spoken_for(triangles: Seq<usize>, k: int, ring: Seq<usize>, a: usize, b: usize) -> int {
    edge_count(triangles, k, a, b) + one_if(ring_edge(ring, a, b))
}

/// What holds of the edges while ears are clipped.
///
/// No edge is spoken for twice.  A side of the polygon is spoken for once, its
/// reverse never.  Any other edge is spoken for as often as its reverse.  And a
/// used edge between two surviving vertices is the reverse of a ring edge.
pub open spec fn edges_in_order(n: nat, triangles: Seq<usize>, k: int, ring: Seq<usize>) -> bool {
    forall|a: usize, b: usize|
        #![trigger edge_count(triangles, k, a, b)]
        {
            &&& 0 <= edge_count(triangles, k, a, b)
            &&& spoken_for(triangles, k, ring, a, b) <= 1
            &&& spoken_for(triangles, k, ring, a, b) - one_if(polygon_edge(n, a, b)) == spoken_for(
                triangles,
                k,
                ring,
                b,
                a,
            ) - one_if(polygon_edge(n, b, a))
            &&& polygon_edge(n, a, b) ==> spoken_for(triangles, k, ring, a, b) == 1 && spoken_for(
                triangles,
                k,
                ring,
                b,
                a,
            ) == 0
            &&& ring.contains(a) && ring.contains(b) && edge_count(triangles, k, a, b) >= 1
                ==> ring_edge(ring, b, a)
        }
}

/// The law of the edges, for a finished triangulation of `n` vertices.
///
/// Every side of the polygon is an edge of exactly one triangle, and its
/// reverse of none.  Every other directed edge is an edge of at most one
/// triangle, and of as many as its reverse: a diagonal is used once in each
/// direction.
pub open spec fn edges_paired(n: nat, triangles: Seq<usize>) -> bool {
    forall|a: usize, b: usize|
        #![trigger edge_count(triangles, n - 2, a, b)]
        {
            &&& 0 <= edge_count(triangles, n - 2, a, b) <= 1
            &&& polygon_edge(n, a, b) ==> edge_count(triangles, n - 2, a, b) == 1 && edge_count(
                triangles,
                n - 2,
                b,
                a,
            ) == 0
            &&& !polygon_edge(n, a, b) && !polygon_edge(n, b, a) ==> edge_count(
                triangles,
                n - 2,
                a,
                b,
            ) == edge_count(triangles, n - 2, b, a)
        }
}

/// In the ring of an untouched polygon, the ring edges are the sides of the
/// polygon.
pub proof fn lemma_full_ring_edges(n: nat, a: usize, b: usize)
    requires
        3 <= n <= usize::MAX,
    ensures
        ring_edge(full_ring(n), a, b) <==> polygon_edge(n, a, b),
{
    let ring = full_ring(n);
    assert(ring.no_duplicates());
    if a < n {
        assert(ring[a as int] == a);
        lemma_index_of(ring, a as int);
    } else if ring.contains(a) {
        lemma_index_of_member(ring, a);
    }
}

/// In a ring of more than three vertices, the vertex after the next one is not
/// the one before.
pub proof fn lemma_ring_is_long(ring: Seq<usize>, v: usize)
    requires
        ring.no_duplicates(),
        ring.len() > 3,
        ring.contains(v),
    ensures
        ring_next(ring, ring_next(ring, v)) != ring_prev(ring, v),
        ring_next(ring, ring_prev(ring, v)) == v,
        ring_prev(ring, ring_next(ring, v)) == v,
{
    let m = ring.len() as int;
    let j = ring.index_of(v);
    let jn = if j + 1 < m { j + 1 } else { 0 };
    let jp = if j > 0 { j - 1 } else { m - 1 };
    let jnn = if jn + 1 < m { jn + 1 } else { 0 };
    lemma_index_of(ring, jn);
    lemma_index_of(ring, jp);
    assert(ring_next(ring, v) == ring[jn]);
    assert(ring_prev(ring, v) == ring[jp]);
    assert(ring_next(ring, ring[jn]) == ring[jnn]);
    assert(jnn != jp);
}

/// What a clip does to one edge: the triangle uses the two ring edges at the
/// ear, and the diagonal between the ear's neighbours becomes spoken for in both
/// directions, one by the ring and one by the triangle.
pub proof fn lemma_clip_one_edge(
    triangles: Seq<usize>,
    k: int,
    ring: Seq<usize>,
    ear: usize,
    a: usize,
    b: usize,
)
    requires
        ring.no_duplicates(),
        ring.len() > 3,
        ring.contains(ear),
        k >= 0,
        triangle_of(triangles, k) == ring_triangle(ring, ear),
    ensures
        triangle_edge_count(triangles, k, a, b) == one_if(a == ring_prev(ring, ear) && b == ear)
            + one_if(a == ear && b == ring_next(ring, ear)) + one_if(
            a == ring_next(ring, ear) && b == ring_prev(ring, ear),
        ),
        ring_edge(ring.remove(ring.index_of(ear)), a, b) == (if a == ring_prev(ring, ear) {
            b == ring_next(ring, ear)
        } else {
            a != ear && ring_edge(ring, a, b)
        }),
        spoken_for(triangles, k + 1, ring.remove(ring.index_of(ear)), a, b) == spoken_for(
            triangles,
            k,
            ring,
            a,
            b,
        ) + one_if(a == ring_next(ring, ear) && b == ring_prev(ring, ear)) + one_if(
            a == ring_prev(ring, ear) && b == ring_next(ring, ear),
        ),
{
    let j = ring.index_of(ear);
    lemma_index_of_member(ring, ear);
    lemma_unlink_ring(ring, j);
    lemma_neighbours_in_ring(ring, ear);
    lemma_neighbours_distinct(ring, ear);
    lemma_ring_is_long(ring, ear);
    let rest = ring.remove(j);
    let prev = ring_prev(ring, ear);
    let next = ring_next(ring, ear);
    assert(prev_at(ring, j) == prev && next_at(ring, j) == next);
    assert(rest.contains(a) <==> ring.contains(a) && a != ear);
    if ring.contains(a) && a != ear {
        assert(ring_next(rest, a) == (if ring_next(ring, a) == ear {
            next
        } else {
            ring_next(ring, a)
        }));
        assert(ring_next(ring, a) == ear ==> a == prev);
    }
    assert(edge_count(triangles, k + 1, a, b) == edge_count(triangles, k, a, b)
        + triangle_edge_count(triangles, k, a, b));
}

/// Clipping an ear keeps the edges in order.
#[verifier::rlimit(60)]
pub proof fn lemma_clip_edges(n: nat, triangles: Seq<usize>, k: int, ring: Seq<usize>, ear: usize)
    requires
        3 <= n,
        ring.no_duplicates(),
        ring.len() > 3,
        ring.contains(ear),
        k >= 0,
        triangle_of(triangles, k) == ring_triangle(ring, ear),
        edges_in_order(n, triangles, k, ring),
    ensures
        edges_in_order(n, triangles, k + 1, ring.remove(ring.index_of(ear))),
{
    let j = ring.index_of(ear);
    let rest = ring.remove(j);
    let prev = ring_prev(ring, ear);
    let next = ring_next(ring, ear);
    lemma_index_of_member(ring, ear);
    lemma_unlink_ring(ring, j);
    lemma_neighbours_in_ring(ring, ear);
    lemma_neighbours_distinct(ring, ear);
    lemma_ring_is_long(ring, ear);
    // the diagonal between the neighbours is not spoken for, in either direction
    assert(edge_count(triangles, k, prev, next) == 0 && !ring_edge(ring, prev, next)) by {
        assert(edge_count(triangles, k, prev, next) >= 1 ==> ring_edge(ring, next, prev));
    }
    assert(edge_count(triangles, k, next, prev) == 0 && !ring_edge(ring, next, prev)) by {
        assert(edge_count(triangles, k, next, prev) >= 1 ==> ring_edge(ring, prev, next));
    }
    assert forall|a: usize, b: usize| #![trigger edge_count(triangles, k + 1, a, b)] {
        &&& 0 <= edge_count(triangles, k + 1, a, b)
        &&& spoken_for(triangles, k + 1, rest, a, b) <= 1
        &&& spoken_for(triangles, k + 1, rest, a, b) - one_if(polygon_edge(n, a, b)) == spoken_for(
            triangles,
            k + 1,
            rest,
            b,
            a,
        ) - one_if(polygon_edge(n, b, a))
        &&& polygon_edge(n, a, b) ==> spoken_for(triangles, k + 1, rest, a, b) == 1 && spoken_for(
            triangles,
            k + 1,
            rest,
            b,
            a,
        ) == 0
        &&& rest.contains(a) && rest.contains(b) && edge_count(triangles, k + 1, a, b) >= 1
            ==> ring_edge(rest, b, a)
    } by {
        lemma_clip_one_edge(triangles, k, ring, ear, a, b);
        lemma_clip_one_edge(triangles, k, ring, ear, b, a);
        // what held before, of this edge and of its reverse
        assert(0 <= edge_count(triangles, k, a, b));
        assert(0 <= edge_count(triangles, k, b, a));
        assert(spoken_for(triangles, k, ring, a, b) <= 1);
        assert(spoken_for(triangles, k, ring, b, a) <= 1);
        assert(edge_count(triangles, k + 1, a, b) == edge_count(triangles, k, a, b)
            + triangle_edge_count(triangles, k, a, b));
        if rest.contains(a) && rest.contains(b) && edge_count(triangles, k + 1, a, b) >= 1 {
            if !(a == next && b == prev) {
                assert(edge_count(triangles, k, a, b) >= 1);
                assert(ring_edge(ring, b, a));
            }
        }
    }
}

/// The triangle of a ring of three has the three ring edges as its edges.
pub proof fn lemma_last_triangle_edges(
    triangles: Seq<usize>,
    k: int,
    ring: Seq<usize>,
    tip: usize,
    a: usize,
    b: usize,
)
    requires
        ring.no_duplicates(),
        ring.len() == 3,
        ring.contains(tip),
        k >= 0,
        triangle_of(triangles, k) == ring_triangle(ring, tip),
    ensures
        triangle_edge_count(triangles, k, a, b) == one_if(ring_edge(ring, a, b)),
{
    let j = ring.index_of(tip);
    lemma_index_of_member(ring, tip);
    lemma_index_of(ring, 0);
    lemma_index_of(ring, 1);
    lemma_index_of(ring, 2);
    if ring.contains(a) {
        lemma_index_of_member(ring, a);
    }
}

/// After the first `k` triangles of an ear clipping, the edges are in order.
pub proof fn lemma_edges_so_far(points: Seq<Point>, triangles: Seq<usize>, k: int)
    requires
        points.len() <= usize::MAX,
        is_ear_clipping(points, triangles),
        0 <= k <= points.len() - 3,
    ensures
        edges_in_order(
            points.len(),
            triangles,
            k,
            clipped(points, tips_of(triangles, (points.len() - 3) as nat).take(k)).ring,
        ),
    decreases k,
{
    let n = points.len();
    let picks = tips_of(triangles, (n - 3) as nat);
    if k == 0 {
        assert(picks.take(0) =~= Seq::<usize>::empty());
        let ring = full_ring(n);
        assert forall|a: usize, b: usize| #![trigger edge_count(triangles, 0, a, b)] {
            &&& 0 <= edge_count(triangles, 0, a, b)
            &&& spoken_for(triangles, 0, ring, a, b) <= 1
            &&& spoken_for(triangles, 0, ring, a, b) - one_if(polygon_edge(n, a, b)) == spoken_for(
                triangles,
                0,
                ring,
                b,
                a,
            ) - one_if(polygon_edge(n, b, a))
            &&& polygon_edge(n, a, b) ==> spoken_for(triangles, 0, ring, a, b) == 1 && spoken_for(
                triangles,
                0,
                ring,
                b,
                a,
            ) == 0
            &&& ring.contains(a) && ring.contains(b) && edge_count(triangles, 0, a, b) >= 1
                ==> ring_edge(ring, b, a)
        } by {
            lemma_full_ring_edges(n, a, b);
            lemma_full_ring_edges(n, b, a);
        }
    } else {
        let j = k - 1;
        lemma_edges_so_far(points, triangles, j);
        lemma_picks_prefix(points, picks, j);
        lemma_clipped(points, picks.take(j));
        let s = clipped(points, picks.take(j));
        let ear = picks[j];
        lemma_clip(points, s, ear);
        assert(picks.take(k).drop_last() =~= picks.take(j));
        assert(picks.take(k).last() == ear);
        assert(clipped(points, picks.take(k)) == clip(points, s, ear));
        assert(triangle_of(triangles, j) == ring_triangle(s.ring, ear));
        lemma_clip_edges(n, triangles, j, s.ring, ear);
    }
}

/// In an ear clipping, every side of the polygon is an edge of exactly one
/// triangle, and every diagonal that a triangle has as an edge is an edge of
/// exactly one triangle in each direction.
pub proof fn lemma_clipping_edges(points: Seq<Point>, triangles: Seq<usize>)
    requires
        points.len() <= usize::MAX,
        is_ear_clipping(points, triangles),
    ensures
        edges_paired(points.len(), triangles),
{
    let n = points.len();
    let picks = tips_of(triangles, (n - 3) as nat);
    lemma_edges_so_far(points, triangles, n - 3);
    assert(picks.take(n - 3) =~= picks);
    lemma_clipped(points, picks);
    let ring = clipped(points, picks).ring;
    let tip = triangles[3 * (n - 3) + 1];
    assert(triangle_of(triangles, n - 3) == ring_triangle(ring, tip));
    assert forall|a: usize, b: usize| #![trigger edge_count(triangles, n - 2, a, b)] {
        &&& 0 <= edge_count(triangles, n - 2, a, b) <= 1
        &&& polygon_edge(n, a, b) ==> edge_count(triangles, n - 2, a, b) == 1 && edge_count(
            triangles,
            n - 2,
            b,
            a,
        ) == 0
        &&& !polygon_edge(n, a, b) && !polygon_edge(n, b, a) ==> edge_count(
            triangles,
            n - 2,
            a,
            b,
        ) == edge_count(triangles, n - 2, b, a)
    } by {
        lemma_last_triangle_edges(triangles, n - 3, ring, tip, a, b);
        lemma_last_triangle_edges(triangles, n - 3, ring, tip, b, a);
        assert(edge_count(triangles, n - 2, a, b) == spoken_for(triangles, n - 3, ring, a, b));
        assert(edge_count(triangles, n - 2, b, a) == spoken_for(triangles, n - 3, ring, b, a));
        assert(0 <= edge_count(triangles, n - 3, a, b));
        assert(0 <= edge_count(triangles, n - 3, b, a));
    }
}

} // verus!
