//! Areas: the triangles of an ear clipping add up to the polygon.
//!
//! Twice the signed area of a polygon is the sum, over its edges, of the wedge
//! products of the two ends of each edge.  Unlinking a vertex from a ring takes
//! exactly the triangle at that vertex away from this sum, whatever the points
//! are.  So the triangles that an ear clipping writes have, together, the
//! signed area of the polygon that was clipped.

use vstd::prelude::*;
use crate::geometry::{Point, cross};
use crate::clipping::{
    prev_at, next_at, full_ring, clip, clipped, is_ear_clipping, tips_of, triangle_of,
    ring_triangle, lemma_clipped, lemma_clip, lemma_index_of_member, lemma_picks_prefix,
};

verus! {

/// The wedge product of two points: twice the signed area of the triangle that
/// they make with the origin.
pub open spec fn wedge(a: Point, b: Point) -> int {
    a.0 * b.1 - b.0 * a.1
}

/// The wedge products of the edges of a ring, edge by edge.
pub open spec fn edge_terms(points: Seq<Point>, ring: Seq<usize>) -> Seq<int> {
    Seq::new(ring.len(), |j: int| wedge(points[ring[j] as int], points[next_at(ring, j) as int]))
}

/// The sum of a sequence of integers.
pub open spec fn total(terms: Seq<int>) -> int
    decreases terms.len(),
{
    if terms.len() == 0 {
        0
    } else {
        total(terms.drop_last()) + terms.last()
    }
}

/// Twice the signed area of the polygon that a ring describes: positive for a
/// counter-clockwise polygon.
pub open spec fn twice_area(points: Seq<Point>, ring: Seq<usize>) -> int {
    total(edge_terms(points, ring))
}

/// Twice the signed area of the `k`-th triangle of an index stream.
pub open spec fn twice_triangle_area(points: Seq<Point>, triangles: Seq<usize>, k: int) -> int {
    cross(
        points[triangles[3 * k + 1] as int],
        points[triangles[3 * k] as int],
        points[triangles[3 * k + 2] as int],
    )
}

/// Twice the signed area of the first `count` triangles of an index stream,
/// taken together.
pub open spec fn twice_triangles_area(points: Seq<Point>, triangles: Seq<usize>, count: int) -> int
    decreases count,
{
    if count <= 0 {
        0
    } else {
        twice_triangles_area(points, triangles, count - 1) + twice_triangle_area(
            points,
            triangles,
            count - 1,
        )
    }
}

/// The sum of two sequences, one after the other, is the sum of their sums.
pub proof fn lemma_total_add(a: Seq<int>, b: Seq<int>)
    ensures
        total(a + b) == total(a) + total(b),
    decreases b.len(),
{
    if b.len() == 0 {
        assert(a + b =~= a);
    } else {
        lemma_total_add(a, b.drop_last());
        assert((a + b).drop_last() =~= a + b.drop_last());
    }
}

/// The sums of one, two and three terms.
pub proof fn lemma_total_small(x: int, y: int, z: int)
    ensures
        total(seq![x]) == x,
        total(seq![x, y]) == x + y,
        total(seq![x, y, z]) == x + y + z,
{
    assert(seq![x].drop_last() =~= Seq::<int>::empty());
    assert(seq![x, y].drop_last() =~= seq![x]);
    assert(seq![x, y, z].drop_last() =~= seq![x, y]);
    assert(total(Seq::<int>::empty()) == 0);
    assert(total(seq![x]) == total(seq![x].drop_last()) + x);
    assert(total(seq![x, y]) == total(seq![x, y].drop_last()) + y);
    assert(total(seq![x, y, z]) == total(seq![x, y, z].drop_last()) + z);
}

/// Twice the area of a triangle is the sum of the wedge products of its edges.
pub proof fn lemma_triangle_wedges(a: Point, b: Point, c: Point)
    ensures
        cross(b, a, c) == wedge(a, b) + wedge(b, c) - wedge(a, c),
        wedge(c, a) == -wedge(a, c),
{
    let (ax, ay, bx, by, cx, cy) = (a.0 as int, a.1 as int, b.0 as int, b.1 as int, c.0 as int, c.1 as int);
    assert((bx - ax) * (cy - ay) - (by - ay) * (cx - ax) == (ax * by - bx * ay) + (bx * cy - cx * by)
        - (ax * cy - cx * ay)) by (nonlinear_arith);
    assert(cx * ay - ax * cy == -(ax * cy - cx * ay)) by (nonlinear_arith);
}

/// Unlinking the vertex at position `k` takes the triangle at that vertex away
/// from the area of the ring.
#[verifier::rlimit(40)]
pub proof fn lemma_unlink_area(points: Seq<Point>, ring: Seq<usize>, k: int)
    requires
        ring.len() >= 3,
        0 <= k < ring.len(),
    ensures
        twice_area(points, ring) == twice_area(points, ring.remove(k)) + cross(
            points[ring[k] as int],
            points[prev_at(ring, k) as int],
            points[next_at(ring, k) as int],
        ),
{
    let m = ring.len() as int;
    let rest = ring.remove(k);
    let t = edge_terms(points, ring);
    let u = edge_terms(points, rest);
    let a = points[prev_at(ring, k) as int];
    let b = points[ring[k] as int];
    let c = points[next_at(ring, k) as int];
    ring.remove_ensures(k);
    lemma_triangle_wedges(a, b, c);
    if k == 0 {
        // the first edge and the closing edge go, a new closing edge comes
        let mid = t.subrange(1, m - 1);
        assert(t =~= seq![t[0]] + mid + seq![t[m - 1]]);
        assert(u =~= mid + seq![u[m - 2]]);
        lemma_total_add(seq![t[0]] + mid, seq![t[m - 1]]);
        lemma_total_add(seq![t[0]], mid);
        lemma_total_add(mid, seq![u[m - 2]]);
        lemma_total_small(t[0], t[m - 1], u[m - 2]);
        lemma_total_small(t[m - 1], 0, 0);
        lemma_total_small(u[m - 2], 0, 0);
    } else if k == m - 1 {
        // the last edge and the closing edge go, a new closing edge comes
        let head = t.subrange(0, m - 2);
        assert(t =~= head + seq![t[m - 2], t[m - 1]]);
        assert(u =~= head + seq![u[m - 2]]);
        lemma_total_add(head, seq![t[m - 2], t[m - 1]]);
        lemma_total_add(head, seq![u[m - 2]]);
        lemma_total_small(t[m - 2], t[m - 1], 0);
        lemma_total_small(u[m - 2], 0, 0);
    } else {
        // the two edges at the vertex go, the edge between its neighbours comes
        let head = t.subrange(0, k - 1);
        let tail = t.subrange(k + 1, m);
        assert(t =~= head + seq![t[k - 1], t[k]] + tail);
        assert(u =~= head + seq![u[k - 1]] + tail);
        lemma_total_add(head + seq![t[k - 1], t[k]], tail);
        lemma_total_add(head, seq![t[k - 1], t[k]]);
        lemma_total_add(head + seq![u[k - 1]], tail);
        lemma_total_add(head, seq![u[k - 1]]);
        lemma_total_small(t[k - 1], t[k], 0);
        lemma_total_small(u[k - 1], 0, 0);
    }
}

/// Twice the area of a ring of three is twice the area of the triangle around
/// any of its vertices.
pub proof fn lemma_triangle_area(points: Seq<Point>, ring: Seq<usize>, k: int)
    requires
        ring.len() == 3,
        0 <= k < 3,
    ensures
        twice_area(points, ring) == cross(
            points[ring[k] as int],
            points[prev_at(ring, k) as int],
            points[next_at(ring, k) as int],
        ),
{
    let t = edge_terms(points, ring);
    assert(t =~= seq![t[0], t[1], t[2]]);
    lemma_total_small(t[0], t[1], t[2]);
    let a = points[prev_at(ring, k) as int];
    let b = points[ring[k] as int];
    let c = points[next_at(ring, k) as int];
    lemma_triangle_wedges(a, b, c);
}

/// After the first `k` triangles of an ear clipping, what is left of the ring
/// and the triangles written so far have, together, the area of the polygon.
pub proof fn lemma_clipping_area_so_far(points: Seq<Point>, triangles: Seq<usize>, k: int)
    requires
        points.len() <= usize::MAX,
        is_ear_clipping(points, triangles),
        0 <= k <= points.len() - 3,
    ensures
        twice_area(points, full_ring(points.len())) == twice_area(
            points,
            clipped(points, tips_of(triangles, (points.len() - 3) as nat).take(k)).ring,
        ) + twice_triangles_area(points, triangles, k),
    decreases k,
{
    let picks = tips_of(triangles, (points.len() - 3) as nat);
    if k == 0 {
        assert(picks.take(0) =~= Seq::<usize>::empty());
    } else {
        let j = k - 1;
        lemma_clipping_area_so_far(points, triangles, j);
        lemma_picks_prefix(points, picks, j);
        lemma_clipped(points, picks.take(j));
        let s = clipped(points, picks.take(j));
        let ear = picks[j];
        lemma_clip(points, s, ear);
        lemma_index_of_member(s.ring, ear);
        assert(picks.take(k).drop_last() =~= picks.take(j));
        assert(picks.take(k).last() == ear);
        assert(clipped(points, picks.take(k)) == clip(points, s, ear));
        lemma_unlink_area(points, s.ring, s.ring.index_of(ear));
        assert(triangle_of(triangles, j) == ring_triangle(s.ring, ear));
    }
}

/// The triangles of an ear clipping have, together, the signed area of the
/// polygon.
pub proof fn lemma_clipping_area(points: Seq<Point>, triangles: Seq<usize>)
    requires
        points.len() <= usize::MAX,
        is_ear_clipping(points, triangles),
    ensures
        twice_triangles_area(points, triangles, points.len() - 2) == twice_area(
            points,
            full_ring(points.len()),
        ),
{
    let n = points.len();
    let picks = tips_of(triangles, (n - 3) as nat);
    lemma_clipping_area_so_far(points, triangles, n - 3);
    assert(picks.take(n - 3) =~= picks);
    lemma_clipped(points, picks);
    let ring = clipped(points, picks).ring;
    let tip = triangles[3 * (n - 3) + 1];
    lemma_index_of_member(ring, tip);
    lemma_triangle_area(points, ring, ring.index_of(tip));
    assert(triangle_of(triangles, n - 3) == ring_triangle(ring, tip));
}

/// The last triangle of an ear clipping has what area the clipped ears have
/// left of the polygon.  So it runs counter-clockwise and is not flat exactly
/// when the ears, together, have less area than the polygon.
pub proof fn lemma_last_triangle(points: Seq<Point>, triangles: Seq<usize>)
    requires
        points.len() <= usize::MAX,
        is_ear_clipping(points, triangles),
    ensures
        twice_triangle_area(points, triangles, points.len() - 3) == twice_area(
            points,
            full_ring(points.len()),
        ) - twice_triangles_area(points, triangles, points.len() - 3),
        twice_triangle_area(points, triangles, points.len() - 3) > 0 <==> twice_triangles_area(
            points,
            triangles,
            points.len() - 3,
        ) < twice_area(points, full_ring(points.len())),
{
    lemma_clipping_area(points, triangles);
}

} // verus!
