//! The ear-clipping process as a mathematical state machine.
//!
//! A polygon that is being clipped is described by three things: the ring of
//! vertices that survive, in polygon order; the set of vertices known to be
//! reflex; and the set of vertices known to be ears.  Clipping an ear removes it
//! from the ring and re-examines its two neighbours, nothing else.  Which ear is
//! clipped is left open, so a triangulation is specified as a relation: a
//! triangle stream is an ear clipping of a polygon when each of its triangles
//! but the last is an ear of the state that the earlier ones lead to.

use vstd::prelude::*;
use crate::geometry::{Point, convex, inside_triangle};

verus! {

/// The state of a polygon in the middle of being clipped.
pub struct ClipState {
    /// The surviving vertices, as indices into the point list, in polygon order.
    pub ring: Seq<usize>,
    /// The vertices recorded as reflex.
    pub reflex: Set<usize>,
    /// The vertices recorded as ears.
    pub ears: Set<usize>,
}

/// The vertex before position `j` of the ring, wrapping around at the start.
pub open spec fn prev_at(ring: Seq<usize>, j: int) -> usize {
    if j > 0 {
        ring[j - 1]
    } else {
        ring[ring.len() - 1]
    }
}

/// The vertex after position `j` of the ring, wrapping around at the end.
pub open spec fn next_at(ring: Seq<usize>, j: int) -> usize {
    if j + 1 < ring.len() {
        ring[j + 1]
    } else {
        ring[0]
    }
}

/// The ring neighbour before vertex `v`.
pub open spec fn ring_prev(ring: Seq<usize>, v: usize) -> usize {
    prev_at(ring, ring.index_of(v))
}

/// The ring neighbour after vertex `v`.
pub open spec fn ring_next(ring: Seq<usize>, v: usize) -> usize {
    next_at(ring, ring.index_of(v))
}

/// The corner `prev, tip, next` turns the convex way.
pub open spec fn tip_convex(points: Seq<Point>, prev: usize, tip: usize, next: usize) -> bool {
    convex(points[tip as int], points[prev as int], points[next as int])
}

/// No reflex vertex, other than the two neighbours, lies strictly inside the
/// triangle `prev, tip, next`.
pub open spec fn tip_clear(
    points: Seq<Point>,
    reflex: Set<usize>,
    prev: usize,
    tip: usize,
    next: usize,
) -> bool {
    forall|r: usize|
        #[trigger] reflex.contains(r) && r != prev && r != next ==> !inside_triangle(
            points[r as int],
            points[prev as int],
            points[tip as int],
            points[next as int],
        )
}

/// An ear is a convex corner whose triangle is clear of reflex vertices.
pub open spec fn tip_is_ear(
    points: Seq<Point>,
    reflex: Set<usize>,
    prev: usize,
    tip: usize,
    next: usize,
) -> bool {
    tip_convex(points, prev, tip, next) && tip_clear(points, reflex, prev, tip, next)
}

/// The ring `0, 1, .., n - 1` of an untouched polygon.
pub open spec fn full_ring(n: nat) -> Seq<usize> {
    Seq::new(n, |i: int| i as usize)
}

/// The reflex vertices of a ring: those whose corner is not convex.
pub open spec fn reflex_of(points: Seq<Point>, ring: Seq<usize>) -> Set<usize> {
    Set::new(
        |v: usize|
            ring.contains(v) && !tip_convex(points, ring_prev(ring, v), v, ring_next(ring, v)),
    )
}

/// The ears of a ring, judged against a given reflex set.
pub open spec fn ears_of(points: Seq<Point>, ring: Seq<usize>, reflex: Set<usize>) -> Set<usize> {
    Set::new(
        |v: usize|
            ring.contains(v) && tip_is_ear(
                points,
                reflex,
                ring_prev(ring, v),
                v,
                ring_next(ring, v),
            ),
    )
}

/// The state before anything is clipped: every vertex survives, the reflex set
/// holds every vertex that is not convex, and the ears are judged against that
/// complete reflex set.
pub open spec fn initial(points: Seq<Point>) -> ClipState {
    let ring = full_ring(points.len());
    let reflex = reflex_of(points, ring);
    ClipState { ring, reflex, ears: ears_of(points, ring, reflex) }
}

/// Re-examines one vertex after the ring around it has changed.
///
/// A recorded ear stays one only if it still is an ear.  Any other vertex whose
/// corner is convex leaves the reflex set, and becomes an ear if its triangle is
/// clear of what is then left of the reflex set.  A vertex never enters the
/// reflex set.
#[verifier::opaque]
pub open spec fn reclassify(points: Seq<Point>, s: ClipState, v: usize) -> ClipState {
    let prev = ring_prev(s.ring, v);
    let next = ring_next(s.ring, v);
    if s.ears.contains(v) {
        if tip_is_ear(points, s.reflex, prev, v, next) {
            s
        } else {
            ClipState { ring: s.ring, reflex: s.reflex, ears: s.ears.remove(v) }
        }
    } else if tip_convex(points, prev, v, next) {
        let reflex = s.reflex.remove(v);
        if tip_clear(points, reflex, prev, v, next) {
            ClipState { ring: s.ring, reflex, ears: s.ears.insert(v) }
        } else {
            ClipState { ring: s.ring, reflex, ears: s.ears }
        }
    } else {
        s
    }
}

/// The state with `ear` unlinked from the ring and dropped from the ear set,
/// before its neighbours are looked at again.
pub open spec fn unlink(s: ClipState, ear: usize) -> ClipState {
    ClipState {
        ring: s.ring.remove(s.ring.index_of(ear)),
        reflex: s.reflex,
        ears: s.ears.remove(ear),
    }
}

/// Clips `ear`: unlinks it, then re-examines its former predecessor and then
/// its former successor.
pub open spec fn clip(points: Seq<Point>, s: ClipState, ear: usize) -> ClipState {
    let prev = ring_prev(s.ring, ear);
    let next = ring_next(s.ring, ear);
    reclassify(points, reclassify(points, unlink(s, ear), prev), next)
}

/// The state reached from the untouched polygon by clipping `picks` in order.
pub open spec fn clipped(points: Seq<Point>, picks: Seq<usize>) -> ClipState
    decreases picks.len(),
{
    if picks.len() == 0 {
        initial(points)
    } else {
        clip(points, clipped(points, picks.drop_last()), picks.last())
    }
}

/// Every pick was a recorded ear of the state it was clipped from, and that
/// state still had more than three vertices.
pub open spec fn picks_valid(points: Seq<Point>, picks: Seq<usize>) -> bool
    decreases picks.len(),
{
    picks.len() == 0 || {
        let before = clipped(points, picks.drop_last());
        &&& picks_valid(points, picks.drop_last())
        &&& before.ring.len() > 3
        &&& before.ears.contains(picks.last())
    }
}

/// Clipping `picks` leads to a state with more than three vertices and no ear:
/// the situation in which triangulation gives up.
pub open spec fn stuck_after(points: Seq<Point>, picks: Seq<usize>) -> bool {
    &&& picks_valid(points, picks)
    &&& clipped(points, picks).ring.len() > 3
    &&& forall|v: usize| !clipped(points, picks).ears.contains(v)
}

/// The `k`-th triangle of a flat index stream.
pub open spec fn triangle_of(triangles: Seq<usize>, k: int) -> (usize, usize, usize) {
    (triangles[3 * k], triangles[3 * k + 1], triangles[3 * k + 2])
}

/// The middle indices of the first `count` triangles of a stream.
pub open spec fn tips_of(triangles: Seq<usize>, count: nat) -> Seq<usize> {
    Seq::new(count, |k: int| triangles[3 * k + 1])
}

/// The triangle around `tip` in a ring: predecessor, tip, successor.
pub open spec fn ring_triangle(ring: Seq<usize>, tip: usize) -> (usize, usize, usize) {
    (ring_prev(ring, tip), tip, ring_next(ring, tip))
}

/// `triangles` is an ear clipping of the polygon `points`.
///
/// With `n` points there are `n - 2` triangles.  The tips of the first `n - 3`
/// are a valid sequence of picks, and each of those triangles is the ring
/// triangle of its tip at the moment it was clipped.  The last triangle is the
/// ring triangle of one of the three vertices that are left.
pub open spec fn is_ear_clipping(points: Seq<Point>, triangles: Seq<usize>) -> bool {
    let n = points.len();
    let picks = tips_of(triangles, (n - 3) as nat);
    &&& n >= 3
    &&& triangles.len() == 3 * (n - 2)
    &&& picks_valid(points, picks)
    &&& forall|k: int|
        0 <= k < n - 3 ==> #[trigger] triangle_of(triangles, k) == ring_triangle(
            clipped(points, picks.take(k)).ring,
            picks[k],
        )
    &&& clipped(points, picks).ring.contains(triangles[3 * (n - 3) + 1])
    &&& triangle_of(triangles, n - 3) == ring_triangle(
        clipped(points, picks).ring,
        triangles[3 * (n - 3) + 1],
    )
}

/// The part of well-formedness that does not look at the points' positions.
///
/// The ring has at least three vertices, all of them indices of points, none
/// twice.  The reflex set and the ear set lie inside the ring and share no
/// vertex.
pub open spec fn shaped(points: Seq<Point>, s: ClipState) -> bool {
    &&& s.ring.len() >= 3
    &&& s.ring.no_duplicates()
    &&& forall|j: int| 0 <= j < s.ring.len() ==> #[trigger] s.ring[j] < points.len()
    &&& forall|v: usize| #[trigger] s.reflex.contains(v) ==> s.ring.contains(v)
    &&& forall|v: usize| #[trigger] s.ears.contains(v) ==> s.ring.contains(v)
    &&& forall|v: usize| #[trigger] s.ears.contains(v) ==> !s.reflex.contains(v)
}

/// Every recorded ear, but for the vertices `a` and `b`, is an ear of the ring
/// as it stands: convex, and clear of the recorded reflex vertices.
pub open spec fn ears_sound_except(points: Seq<Point>, s: ClipState, a: usize, b: usize) -> bool {
    forall|v: usize| #[trigger]
        s.ears.contains(v) && v != a && v != b ==> tip_is_ear(
            points,
            s.reflex,
            ring_prev(s.ring, v),
            v,
            ring_next(s.ring, v),
        )
}

/// Every recorded ear is an ear of the ring as it stands.
pub open spec fn ears_sound(points: Seq<Point>, s: ClipState) -> bool {
    forall|v: usize| #[trigger]
        s.ears.contains(v) ==> tip_is_ear(
            points,
            s.reflex,
            ring_prev(s.ring, v),
            v,
            ring_next(s.ring, v),
        )
}

/// What holds of every state that clipping can reach.
pub open spec fn well_formed(points: Seq<Point>, s: ClipState) -> bool {
    shaped(points, s) && ears_sound(points, s)
}

/// In a ring without repetition, a vertex is found where it stands.
pub proof fn lemma_index_of(ring: Seq<usize>, j: int)
    requires
        ring.no_duplicates(),
        0 <= j < ring.len(),
    ensures
        ring.index_of(ring[j]) == j,
        ring.contains(ring[j]),
{
}

/// A vertex of the ring stands at the position where it is found.
pub proof fn lemma_index_of_member(ring: Seq<usize>, v: usize)
    requires
        ring.contains(v),
    ensures
        0 <= ring.index_of(v) < ring.len(),
        ring[ring.index_of(v)] == v,
{
}

/// The neighbours of a ring vertex are ring vertices.
pub proof fn lemma_neighbours_in_ring(ring: Seq<usize>, v: usize)
    requires
        ring.contains(v),
    ensures
        ring.contains(ring_prev(ring, v)),
        ring.contains(ring_next(ring, v)),
{
    let j = ring.index_of(v);
    if j > 0 {
        assert(ring[j - 1] == ring_prev(ring, v));
    } else {
        assert(ring[ring.len() - 1] == ring_prev(ring, v));
    }
    if j + 1 < ring.len() {
        assert(ring[j + 1] == ring_next(ring, v));
    } else {
        assert(ring[0] == ring_next(ring, v));
    }
}

/// In a ring of three or more without repetition, a vertex and its two
/// neighbours are three different vertices.
pub proof fn lemma_neighbours_distinct(ring: Seq<usize>, v: usize)
    requires
        ring.no_duplicates(),
        ring.len() >= 3,
        ring.contains(v),
    ensures
        ring_prev(ring, v) != v,
        ring_next(ring, v) != v,
        ring_prev(ring, v) != ring_next(ring, v),
{
}

/// What unlinking the vertex at position `j` does to the neighbours of the
/// others: whoever had it as a neighbour now has its neighbour on the far side,
/// and nobody else notices.
#[verifier::rlimit(40)]
pub proof fn lemma_unlink_ring(ring: Seq<usize>, j: int)
    requires
        ring.no_duplicates(),
        ring.len() > 3,
        0 <= j < ring.len(),
    ensures
        ring.remove(j).len() == ring.len() - 1,
        ring.remove(j).no_duplicates(),
        forall|v: usize| #[trigger] ring.remove(j).contains(v) <==> ring.contains(v) && v != ring[j],
        forall|v: usize|
            #![trigger ring_prev(ring.remove(j), v)]
            ring.contains(v) && v != ring[j] ==> ring_prev(ring.remove(j), v) == (if ring_prev(
                ring,
                v,
            ) == ring[j] {
                prev_at(ring, j)
            } else {
                ring_prev(ring, v)
            }),
        forall|v: usize|
            #![trigger ring_next(ring.remove(j), v)]
            ring.contains(v) && v != ring[j] ==> ring_next(ring.remove(j), v) == (if ring_next(
                ring,
                v,
            ) == ring[j] {
                next_at(ring, j)
            } else {
                ring_next(ring, v)
            }),
        forall|v: usize|
            ring.contains(v) && #[trigger] ring_prev(ring, v) == ring[j] ==> v == next_at(ring, j),
        forall|v: usize|
            ring.contains(v) && #[trigger] ring_next(ring, v) == ring[j] ==> v == prev_at(ring, j),
{
    let after = ring.remove(j);
    ring.remove_ensures(j);
    assert forall|a: int, b: int| 0 <= a < after.len() && 0 <= b < after.len() && a != b implies after[a]
        != after[b] by {
        let a0 = if a < j { a } else { a + 1 };
        let b0 = if b < j { b } else { b + 1 };
        assert(after[a] == ring[a0]);
        assert(after[b] == ring[b0]);
    }
    assert forall|v: usize| #[trigger] after.contains(v) <==> ring.contains(v) && v != ring[j] by {
        if after.contains(v) {
            let a = after.index_of(v);
            let a0 = if a < j { a } else { a + 1 };
            assert(ring[a0] == v);
        }
        if ring.contains(v) && v != ring[j] {
            let i = ring.index_of(v);
            let a = if i < j { i } else { i - 1 };
            assert(after[a] == v);
        }
    }
    assert forall|v: usize| ring.contains(v) && v != ring[j] implies ring_prev(after, v) == (
    if ring_prev(ring, v) == ring[j] {
        prev_at(ring, j)
    } else {
        ring_prev(ring, v)
    }) && ring_next(after, v) == (if ring_next(ring, v) == ring[j] {
        next_at(ring, j)
    } else {
        ring_next(ring, v)
    }) by {
        let i = ring.index_of(v);
        let a = if i < j { i } else { i - 1 };
        assert(after[a] == v);
        lemma_index_of(after, a);
        lemma_index_of(ring, i);
        lemma_index_of(ring, j);
        let pi = if i > 0 { i - 1 } else { ring.len() - 1 };
        let ni = if i + 1 < ring.len() { i + 1 } else { 0 };
        assert(ring_prev(ring, v) == ring[pi]);
        assert(ring_next(ring, v) == ring[ni]);
        assert(ring[pi] == ring[j] <==> pi == j);
        assert(ring[ni] == ring[j] <==> ni == j);
    }
    assert forall|v: usize| ring.contains(v) && #[trigger] ring_prev(ring, v) == ring[j] implies v
        == next_at(ring, j) by {
        let i = ring.index_of(v);
        let pi = if i > 0 { i - 1 } else { ring.len() - 1 };
        assert(ring[pi] == ring[j] <==> pi == j);
    }
    assert forall|v: usize| ring.contains(v) && #[trigger] ring_next(ring, v) == ring[j] implies v
        == prev_at(ring, j) by {
        let i = ring.index_of(v);
        let ni = if i + 1 < ring.len() { i + 1 } else { 0 };
        assert(ring[ni] == ring[j] <==> ni == j);
    }
}

/// Re-examining a vertex of the ring keeps the shape of the state, leaves the
/// ring alone, and makes the record sound at that vertex.
pub proof fn lemma_reclassify(points: Seq<Point>, s: ClipState, v: usize, other: usize)
    requires
        shaped(points, s),
        s.ring.contains(v),
        ears_sound_except(points, s, v, other),
    ensures
        reclassify(points, s, v).ring == s.ring,
        shaped(points, reclassify(points, s, v)),
        ears_sound_except(points, reclassify(points, s, v), other, other),
        other == v ==> ears_sound(points, reclassify(points, s, v)),
        forall|r: usize| #[trigger]
            reclassify(points, s, v).reflex.contains(r) ==> s.reflex.contains(r),
{
    reveal(reclassify);
    let t = reclassify(points, s, v);
    assert forall|w: usize| #[trigger] t.ears.contains(w) && w != other implies tip_is_ear(
        points,
        t.reflex,
        ring_prev(t.ring, w),
        w,
        ring_next(t.ring, w),
    ) by {
        if w != v {
            assert(s.ears.contains(w));
            assert(tip_is_ear(points, s.reflex, ring_prev(s.ring, w), w, ring_next(s.ring, w)));
        }
    }
    if other == v {
        assert forall|w: usize| #[trigger] t.ears.contains(w) implies tip_is_ear(
            points,
            t.reflex,
            ring_prev(t.ring, w),
            w,
            ring_next(t.ring, w),
        ) by {
            if w != v {
                assert(s.ears.contains(w));
                assert(tip_is_ear(points, s.reflex, ring_prev(s.ring, w), w, ring_next(s.ring, w)));
            }
        }
    }
}

/// Clipping a recorded ear from a well-formed state with more than three
/// vertices gives a well-formed state whose ring is the old one without the ear.
#[verifier::rlimit(40)]
pub proof fn lemma_clip(points: Seq<Point>, s: ClipState, ear: usize)
    requires
        well_formed(points, s),
        s.ring.len() > 3,
        s.ears.contains(ear),
    ensures
        well_formed(points, clip(points, s, ear)),
        clip(points, s, ear).ring == s.ring.remove(s.ring.index_of(ear)),
        clip(points, s, ear).ring.len() == s.ring.len() - 1,
        forall|v: usize| #[trigger]
            clip(points, s, ear).ring.contains(v) <==> s.ring.contains(v) && v != ear,
{
    let j = s.ring.index_of(ear);
    let prev = ring_prev(s.ring, ear);
    let next = ring_next(s.ring, ear);
    let s1 = unlink(s, ear);
    lemma_unlink_ring(s.ring, j);
    lemma_neighbours_in_ring(s.ring, ear);
    lemma_neighbours_distinct(s.ring, ear);
    assert forall|a: int| 0 <= a < s1.ring.len() implies #[trigger] s1.ring[a] < points.len() by {
        let a0 = if a < j { a } else { a + 1 };
        assert(s1.ring[a] == s.ring[a0]);
    }
    assert(shaped(points, s1));
    assert forall|w: usize| #[trigger] s1.ears.contains(w) && w != prev && w != next implies tip_is_ear(
        points,
        s1.reflex,
        ring_prev(s1.ring, w),
        w,
        ring_next(s1.ring, w),
    ) by {
        assert(s.ears.contains(w));
        assert(s.ring.contains(w));
        assert(tip_is_ear(points, s.reflex, ring_prev(s.ring, w), w, ring_next(s.ring, w)));
    }
    lemma_reclassify(points, s1, prev, next);
    let s2 = reclassify(points, s1, prev);
    lemma_reclassify(points, s2, next, next);
}

/// The untouched polygon is a well-formed state.
pub proof fn lemma_initial(points: Seq<Point>)
    requires
        3 <= points.len() <= usize::MAX,
    ensures
        well_formed(points, initial(points)),
        initial(points).ring.len() == points.len(),
        forall|v: usize| v < points.len() ==> #[trigger] initial(points).ring.contains(v),
{
    let ring = full_ring(points.len());
    assert forall|v: usize| v < points.len() implies #[trigger] ring.contains(v) by {
        assert(ring[v as int] == v);
    }
}

/// Every state reached by valid picks is well formed, has lost one vertex per
/// pick, and each vertex of the polygon is either still in its ring or among the
/// picks.
#[verifier::rlimit(40)]
pub proof fn lemma_clipped(points: Seq<Point>, picks: Seq<usize>)
    requires
        3 <= points.len() <= usize::MAX,
        picks_valid(points, picks),
    ensures
        well_formed(points, clipped(points, picks)),
        clipped(points, picks).ring.len() + picks.len() == points.len(),
        forall|v: usize|
            v < points.len() ==> #[trigger] clipped(points, picks).ring.contains(v)
                || picks.contains(v),
        forall|k: int| 0 <= k < picks.len() ==> #[trigger] picks[k] < points.len(),
        forall|k: int|
            0 <= k < picks.len() ==> !clipped(points, picks).ring.contains(#[trigger] picks[k]),
    decreases picks.len(),
{
    if picks.len() == 0 {
        lemma_initial(points);
    } else {
        let before = picks.drop_last();
        let ear = picks.last();
        let s = clipped(points, before);
        lemma_clipped(points, before);
        lemma_clip(points, s, ear);
        lemma_index_of_member(s.ring, ear);
        let t = clipped(points, picks);
        assert forall|v: usize| v < points.len() implies #[trigger] t.ring.contains(v)
            || picks.contains(v) by {
            if v == ear {
                assert(picks[picks.len() - 1] == v);
            } else if !s.ring.contains(v) {
                let k = before.index_of(v);
                assert(picks[k] == v);
            }
        }
        assert forall|k: int| 0 <= k < picks.len() implies #[trigger] picks[k] < points.len()
            && !t.ring.contains(picks[k]) by {
            if k < before.len() {
                assert(picks[k] == before[k]);
            }
        }
    }
}

/// Re-examining a vertex of the ring keeps the shape of the state.
pub proof fn lemma_reclassify_shape(points: Seq<Point>, s: ClipState, v: usize)
    requires
        shaped(points, s),
        s.ring.contains(v),
    ensures
        reclassify(points, s, v).ring == s.ring,
        shaped(points, reclassify(points, s, v)),
{
    reveal(reclassify);
}

/// Clipping leaves the ring as unlinking left it.
pub proof fn lemma_clip_ring(points: Seq<Point>, s: ClipState, ear: usize)
    ensures
        clip(points, s, ear).ring == unlink(s, ear).ring,
{
    reveal(reclassify);
}

/// The triangle `0, 1, 2` is an ear clipping of any three points.
pub proof fn lemma_triangle_is_clipping(points: Seq<Point>, triangles: Seq<usize>)
    requires
        points.len() == 3,
        triangles == seq![0usize, 1usize, 2usize],
    ensures
        is_ear_clipping(points, triangles),
{
    let ring = full_ring(3);
    assert(ring[1] == 1usize);
    assert(ring.contains(1usize));
    assert(ring.no_duplicates());
    lemma_index_of(ring, 1);
    assert(ring[0] == 0usize);
    assert(ring[2] == 2usize);
    assert(tips_of(triangles, 0) =~= Seq::<usize>::empty());
}

/// Every prefix of a valid sequence of picks is valid, and the pick that
/// follows it is a recorded ear of the state it leads to.
pub proof fn lemma_picks_prefix(points: Seq<Point>, picks: Seq<usize>, k: int)
    requires
        picks_valid(points, picks),
        0 <= k <= picks.len(),
    ensures
        picks_valid(points, picks.take(k)),
        k < picks.len() ==> clipped(points, picks.take(k)).ring.len() > 3 && clipped(
            points,
            picks.take(k),
        ).ears.contains(picks[k]),
    decreases picks.len(),
{
    if k == picks.len() {
        assert(picks.take(k) =~= picks);
    } else {
        let before = picks.drop_last();
        if k == before.len() {
            assert(picks.take(k) =~= before);
        } else {
            lemma_picks_prefix(points, before, k);
            assert(before.take(k) =~= picks.take(k));
        }
    }
}

/// The ring triangle of a ring vertex consists of three different ring
/// vertices.
pub proof fn lemma_ring_triangle(points: Seq<Point>, s: ClipState, tip: usize)
    requires
        shaped(points, s),
        s.ring.contains(tip),
    ensures
        ring_prev(s.ring, tip) < points.len(),
        tip < points.len(),
        ring_next(s.ring, tip) < points.len(),
        ring_prev(s.ring, tip) != tip,
        ring_next(s.ring, tip) != tip,
        ring_prev(s.ring, tip) != ring_next(s.ring, tip),
{
    lemma_neighbours_in_ring(s.ring, tip);
    lemma_neighbours_distinct(s.ring, tip);
    lemma_index_of_member(s.ring, tip);
    lemma_index_of_member(s.ring, ring_prev(s.ring, tip));
    lemma_index_of_member(s.ring, ring_next(s.ring, tip));
}

/// An ear clipping of `n` points has `3 * (n - 2)` indices, each of them below
/// `n`, and every index below `n` occurs in it.
#[verifier::rlimit(40)]
pub proof fn lemma_clipping_covers(points: Seq<Point>, triangles: Seq<usize>)
    requires
        points.len() <= usize::MAX,
        is_ear_clipping(points, triangles),
    ensures
        triangles.len() == 3 * (points.len() - 2),
        forall|i: int| 0 <= i < triangles.len() ==> #[trigger] triangles[i] < points.len(),
        forall|v: usize| v < points.len() ==> triangles.contains(v),
{
    let n = points.len();
    let count = (n - 3) as nat;
    let picks = tips_of(triangles, count);
    let last = clipped(points, picks);
    let tip = triangles[3 * (n - 3) + 1];
    lemma_clipped(points, picks);
    lemma_ring_triangle(points, last, tip);
    assert forall|i: int| 0 <= i < triangles.len() implies #[trigger] triangles[i] < n by {
        let k = i / 3;
        if k < n - 3 {
            lemma_picks_prefix(points, picks, k);
            lemma_clipped(points, picks.take(k));
            let s = clipped(points, picks.take(k));
            lemma_ring_triangle(points, s, picks[k]);
            assert(triangle_of(triangles, k) == ring_triangle(s.ring, picks[k]));
        } else {
            assert(k == n - 3);
            assert(triangle_of(triangles, n - 3) == ring_triangle(last.ring, tip));
        }
    }
    assert forall|v: usize| v < n implies triangles.contains(v) by {
        if picks.contains(v) {
            let k = picks.index_of(v);
            assert(triangles[3 * k + 1] == v);
        } else {
            assert(last.ring.contains(v));
            let j = last.ring.index_of(v);
            let jt = last.ring.index_of(tip);
            lemma_index_of_member(last.ring, tip);
            assert(triangle_of(triangles, n - 3) == ring_triangle(last.ring, tip));
            if j == jt {
                assert(triangles[3 * (n - 3) + 1] == v);
            } else if v == ring_prev(last.ring, tip) {
                assert(triangles[3 * (n - 3)] == v);
            } else {
                assert(v == ring_next(last.ring, tip));
                assert(triangles[3 * (n - 3) + 2] == v);
            }
        }
    }
}

/// The `k`-th triangle of the stream turns the convex way at its middle
/// vertex: its three points are not on one line and run counter-clockwise.
pub open spec fn triangle_convex(points: Seq<Point>, triangles: Seq<usize>, k: int) -> bool {
    convex(
        points[triangles[3 * k + 1] as int],
        points[triangles[3 * k] as int],
        points[triangles[3 * k + 2] as int],
    )
}

/// In an ear clipping, every triangle but the last was an ear when it was
/// clipped: its corner is strictly convex, so its three points are not on one
/// line and run counter-clockwise, and no vertex then recorded as reflex, other
/// than its two ends, lies strictly inside it.
pub proof fn lemma_clipped_triangles_are_ears(points: Seq<Point>, triangles: Seq<usize>, k: int)
    requires
        points.len() <= usize::MAX,
        is_ear_clipping(points, triangles),
        0 <= k < points.len() - 3,
    ensures
        triangle_convex(points, triangles, k),
        tip_clear(
            points,
            clipped(points, tips_of(triangles, (points.len() - 3) as nat).take(k)).reflex,
            triangles[3 * k],
            triangles[3 * k + 1],
            triangles[3 * k + 2],
        ),
{
    let picks = tips_of(triangles, (points.len() - 3) as nat);
    lemma_picks_prefix(points, picks, k);
    lemma_clipped(points, picks.take(k));
    let s = clipped(points, picks.take(k));
    assert(triangle_of(triangles, k) == ring_triangle(s.ring, picks[k]));
    assert(s.ears.contains(picks[k]));
}

/// No reachable state records a vertex both as reflex and as an ear.
pub proof fn lemma_sets_disjoint(points: Seq<Point>, picks: Seq<usize>, v: usize)
    requires
        3 <= points.len() <= usize::MAX,
        picks_valid(points, picks),
    ensures
        !(clipped(points, picks).ears.contains(v) && clipped(points, picks).reflex.contains(v)),
{
    lemma_clipped(points, picks);
}

} // verus!
