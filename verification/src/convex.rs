//! Convex polygons, for which ear clipping never fails.
//!
//! A polygon is in convex position when any three of its vertices, taken in
//! polygon order, turn counter-clockwise.  Such a polygon has no reflex vertex,
//! and whatever is clipped from it leaves a polygon of the same kind.  So every
//! surviving vertex is an ear at all times, clipping cannot get stuck, and every
//! triangle that it writes, the last one included, runs counter-clockwise.

use vstd::prelude::*;
use crate::geometry::{Point, cross};
use crate::clipping::{
    ClipState, ring_prev, ring_next, tip_convex, full_ring, initial, reclassify,
    unlink, clip, clipped, picks_valid, stuck_after, shaped, is_ear_clipping, tips_of, triangle_of,
    ring_triangle, triangle_convex, lemma_index_of, lemma_index_of_member, lemma_unlink_ring,
    lemma_neighbours_in_ring, lemma_neighbours_distinct, lemma_picks_prefix,
};

verus! {

/// The vertices `i`, `j`, `k` turn counter-clockwise: `j` lies strictly to the
/// right of the line from `i` to `k`.
pub open spec fn turns_ccw(points: Seq<Point>, i: int, j: int, k: int) -> bool {
    cross(points[j], points[i], points[k]) > 0
}

/// Any three vertices, taken in polygon order, turn counter-clockwise.
pub open spec fn convex_position(points: Seq<Point>) -> bool {
    forall|i: int, j: int, k: int|
        0 <= i < j < k < points.len() ==> #[trigger] turns_ccw(points, i, j, k)
}

/// The ring lists its vertices in increasing order.
pub open spec fn increasing(ring: Seq<usize>) -> bool {
    forall|i: int, j: int| 0 <= i < j < ring.len() ==> ring[i] < ring[j]
}

/// The state of a convex polygon under clipping: nothing is recorded as reflex,
/// and the recorded ears are exactly the surviving vertices.
pub open spec fn all_ears(points: Seq<Point>, s: ClipState) -> bool {
    &&& shaped(points, s)
    &&& increasing(s.ring)
    &&& forall|v: usize| !s.reflex.contains(v)
    &&& forall|v: usize| #[trigger] s.ears.contains(v) <==> s.ring.contains(v)
}

/// Which way three points turn does not depend on which of them comes first.
pub proof fn lemma_turn_rotates(a: Point, b: Point, c: Point)
    ensures
        cross(b, a, c) == cross(c, b, a),
        cross(b, a, c) == cross(a, c, b),
{
    let (ax, ay, bx, by, cx, cy) = (a.0 as int, a.1 as int, b.0 as int, b.1 as int, c.0 as int, c.1 as int);
    assert((bx - ax) * (cy - ay) - (by - ay) * (cx - ax) == (cx - bx) * (ay - by) - (cy - by) * (ax
        - bx)) by (nonlinear_arith);
    assert((bx - ax) * (cy - ay) - (by - ay) * (cx - ax) == (ax - cx) * (by - cy) - (ay - cy) * (bx
        - cx)) by (nonlinear_arith);
}

/// In a ring taken from a polygon in convex position, every corner is convex.
pub proof fn lemma_ring_corner_convex(points: Seq<Point>, ring: Seq<usize>, v: usize)
    requires
        convex_position(points),
        increasing(ring),
        ring.len() >= 3,
        forall|j: int| 0 <= j < ring.len() ==> #[trigger] ring[j] < points.len(),
        ring.contains(v),
    ensures
        tip_convex(points, ring_prev(ring, v), v, ring_next(ring, v)),
{
    let j = ring.index_of(v);
    let last = ring.len() - 1;
    if 0 < j < last {
        assert(turns_ccw(points, ring[j - 1] as int, v as int, ring[j + 1] as int));
    } else if j == 0 {
        assert(turns_ccw(points, v as int, ring[1] as int, ring[last] as int));
        lemma_turn_rotates(points[v as int], points[ring[1] as int], points[ring[last] as int]);
    } else {
        assert(turns_ccw(points, ring[0] as int, ring[last - 1] as int, v as int));
        lemma_turn_rotates(points[ring[0] as int], points[ring[last - 1] as int], points[v as int]);
    }
}

/// A polygon in convex position starts with all its vertices as ears.
pub proof fn lemma_initial_all_ears(points: Seq<Point>)
    requires
        convex_position(points),
        3 <= points.len() <= usize::MAX,
    ensures
        all_ears(points, initial(points)),
{
    let s = initial(points);
    let ring = full_ring(points.len());
    assert(ring.no_duplicates());
    assert forall|v: usize| ring.contains(v) implies tip_convex(
        points,
        ring_prev(ring, v),
        v,
        ring_next(ring, v),
    ) by {
        lemma_ring_corner_convex(points, ring, v);
    }
}

/// Clipping a vertex from a polygon in convex position leaves all the others
/// as ears.
#[verifier::rlimit(40)]
pub proof fn lemma_clip_all_ears(points: Seq<Point>, s: ClipState, ear: usize)
    requires
        convex_position(points),
        all_ears(points, s),
        s.ring.len() > 3,
        s.ears.contains(ear),
    ensures
        all_ears(points, clip(points, s, ear)),
        clip(points, s, ear).ring.len() == s.ring.len() - 1,
{
    reveal(reclassify);
    let j = s.ring.index_of(ear);
    let prev = ring_prev(s.ring, ear);
    let next = ring_next(s.ring, ear);
    let s1 = unlink(s, ear);
    lemma_index_of_member(s.ring, ear);
    lemma_unlink_ring(s.ring, j);
    lemma_neighbours_in_ring(s.ring, ear);
    lemma_neighbours_distinct(s.ring, ear);
    assert forall|a: int, b: int| 0 <= a < b < s1.ring.len() implies s1.ring[a] < s1.ring[b] by {
        let a0 = if a < j { a } else { a + 1 };
        let b0 = if b < j { b } else { b + 1 };
        assert(s1.ring[a] == s.ring[a0] && s1.ring[b] == s.ring[b0]);
    }
    assert forall|a: int| 0 <= a < s1.ring.len() implies #[trigger] s1.ring[a] < points.len() by {
        let a0 = if a < j { a } else { a + 1 };
        assert(s1.ring[a] == s.ring[a0]);
    }
    assert(all_ears(points, s1));
    lemma_ring_corner_convex(points, s1.ring, prev);
    let s2 = reclassify(points, s1, prev);
    assert(s2 == s1);
    lemma_ring_corner_convex(points, s2.ring, next);
}

/// Whatever is clipped from a polygon in convex position, all surviving
/// vertices are ears.
pub proof fn lemma_clipped_all_ears(points: Seq<Point>, picks: Seq<usize>)
    requires
        convex_position(points),
        3 <= points.len() <= usize::MAX,
        picks_valid(points, picks),
    ensures
        all_ears(points, clipped(points, picks)),
        clipped(points, picks).ring.len() + picks.len() == points.len(),
    decreases picks.len(),
{
    if picks.len() == 0 {
        lemma_initial_all_ears(points);
    } else {
        lemma_clipped_all_ears(points, picks.drop_last());
        lemma_clip_all_ears(points, clipped(points, picks.drop_last()), picks.last());
    }
}

/// Clipping ears from a polygon in convex position never gets stuck.
pub proof fn lemma_convex_never_stuck(points: Seq<Point>, picks: Seq<usize>)
    requires
        convex_position(points),
        3 <= points.len() <= usize::MAX,
    ensures
        !stuck_after(points, picks),
{
    if picks_valid(points, picks) {
        lemma_clipped_all_ears(points, picks);
        let s = clipped(points, picks);
        lemma_index_of(s.ring, 0);
        assert(s.ears.contains(s.ring[0]));
    }
}

/// Every triangle of an ear clipping of a polygon in convex position, the last
/// one included, runs counter-clockwise and is not flat.
pub proof fn lemma_convex_clipping_is_ccw(points: Seq<Point>, triangles: Seq<usize>, k: int)
    requires
        convex_position(points),
        points.len() <= usize::MAX,
        is_ear_clipping(points, triangles),
        0 <= k < points.len() - 2,
    ensures
        triangle_convex(points, triangles, k),
{
    let n = points.len();
    let picks = tips_of(triangles, (n - 3) as nat);
    if k < n - 3 {
        lemma_picks_prefix(points, picks, k);
        lemma_clipped_all_ears(points, picks.take(k));
        let s = clipped(points, picks.take(k));
        assert(triangle_of(triangles, k) == ring_triangle(s.ring, picks[k]));
        lemma_ring_corner_convex(points, s.ring, picks[k]);
    } else {
        lemma_clipped_all_ears(points, picks);
        let s = clipped(points, picks);
        let tip = triangles[3 * (n - 3) + 1];
        assert(triangle_of(triangles, n - 3) == ring_triangle(s.ring, tip));
        lemma_ring_corner_convex(points, s.ring, tip);
    }
}

} // verus!
