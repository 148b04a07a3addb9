//! Ear-clipping triangulation of simple polygons on the integer grid.

use vstd::prelude::*;
use std::collections::HashSet;
use crate::geometry::{Point, is_convex, is_in_triangle, inside_triangle};
use crate::clipping::{
    ClipState, prev_at, next_at, tip_convex, tip_clear, full_ring, reflex_of, ears_of, initial,
    lemma_index_of, lemma_index_of_member, lemma_neighbours_in_ring, lemma_reclassify_shape,
    shaped, reclassify, ring_prev, ring_next, unlink, clip, clipped, picks_valid, stuck_after,
    triangle_of, tips_of, ring_triangle, is_ear_clipping, lemma_initial, lemma_unlink_ring,
    lemma_clip_ring, lemma_triangle_is_clipping, lemma_clipping_covers, triangle_convex,
    lemma_clipped_triangles_are_ears, lemma_neighbours_distinct,
};
use crate::area::{twice_area, twice_triangles_area, lemma_clipping_area};
use crate::convex::{convex_position, lemma_convex_never_stuck};
use crate::edges::{edges_paired, lemma_clipping_edges};
use crate::error::TrdlError;

verus! {

/// One entry of the vertex list: a vertex of the polygon with the links to the
/// vertices before and after it among those that survive, and what is recorded
/// of its corner.
#[derive(Debug, Clone, Copy, PartialEq, Eq)]
pub struct Vertex {
    pub index: usize,
    pub prev_index: usize,
    pub next_index: usize,
    pub is_convex: bool,
    pub is_ear: bool,
}

impl Vertex {
    /// A vertex with the given links, recorded as neither convex nor an ear.
    pub fn new(index: usize, prev_index: usize, next_index: usize) -> (v: Vertex)
        ensures
            v == (Vertex { index, prev_index, next_index, is_convex: false, is_ear: false }),
    {
        Vertex { index, prev_index, next_index, is_convex: false, is_ear: false }
    }
}

/// How a vertex is classified: reflex, convex, or an ear (which is convex too).
#[derive(Debug, Clone, Copy, PartialEq, Eq, Structural)]
pub enum VertexType {
    Reflex,
    Convex,
    Ear,
}

/// The vertex list holds the ring: each ring vertex is linked to its ring
/// neighbours, and every entry sits at its own index.
pub open spec fn linked(vertices: Seq<Vertex>, ring: Seq<usize>) -> bool {
    &&& ring.no_duplicates()
    &&& forall|i: int| 0 <= i < vertices.len() ==> (#[trigger] vertices[i]).index == i
    &&& forall|j: int|
        0 <= j < ring.len() ==> {
            let v = #[trigger] ring[j];
            &&& v < vertices.len()
            &&& vertices[v as int].prev_index == prev_at(ring, j)
            &&& vertices[v as int].next_index == next_at(ring, j)
        }
}

/// The vertex list of an untouched polygon of `n` vertices: vertex `i` is linked
/// to `i - 1` and `i + 1`, the first and the last to each other.
pub fn make_vertex_vec(n: usize) -> (vertices: Vec<Vertex>)
    requires
        n >= 2,
    ensures
        vertices.len() == n,
        forall|i: int|
            0 <= i < n ==> #[trigger] vertices[i] == (Vertex {
                index: i as usize,
                prev_index: if i == 0 { (n - 1) as usize } else { (i - 1) as usize },
                next_index: if i == n - 1 { 0 } else { (i + 1) as usize },
                is_convex: false,
                is_ear: false,
            }),
{
    let mut vertices: Vec<Vertex> = Vec::with_capacity(n);
    vertices.push(Vertex::new(0, n - 1, 1));
    let mut i: usize = 1;
    while i < n - 1
        invariant
            n >= 2,
            1 <= i <= n - 1,
            vertices.len() == i,
            vertices[0] == (Vertex {
                index: 0,
                prev_index: (n - 1) as usize,
                next_index: 1,
                is_convex: false,
                is_ear: false,
            }),
            forall|k: int|
                1 <= k < i ==> #[trigger] vertices[k] == (Vertex {
                    index: k as usize,
                    prev_index: (k - 1) as usize,
                    next_index: (k + 1) as usize,
                    is_convex: false,
                    is_ear: false,
                }),
        decreases n - i,
    {
        vertices.push(Vertex::new(i, i - 1, i + 1));
        i += 1;
    }
    vertices.push(Vertex::new(n - 1, n - 2, 0));
    vertices
}

/// Unlinks vertex `i_test`: its two neighbours become each other's neighbours.
/// The entry of `i_test` itself is left as it was.
pub fn remove_vertex(vertices: &mut Vec<Vertex>, i_test: usize)
    requires
        i_test < old(vertices).len(),
        old(vertices)[i_test as int].prev_index < old(vertices).len(),
        old(vertices)[i_test as int].next_index < old(vertices).len(),
    ensures
        final(vertices).len() == old(vertices).len(),
        forall|i: int|
            0 <= i < old(vertices).len() ==> #[trigger] final(vertices)[i] == (Vertex {
                prev_index: if i == old(vertices)[i_test as int].next_index {
                    old(vertices)[i_test as int].prev_index
                } else {
                    old(vertices)[i].prev_index
                },
                next_index: if i == old(vertices)[i_test as int].prev_index {
                    old(vertices)[i_test as int].next_index
                } else {
                    old(vertices)[i].next_index
                },
                ..old(vertices)[i]
            }),
{
    let prev_index = vertices[i_test].prev_index;
    let next_index = vertices[i_test].next_index;
    vertices[prev_index].next_index = next_index;
    vertices[next_index].prev_index = prev_index;
}

/// Appends the triangle `(i_prev, i_test, i_next)` to a flat index stream.
pub fn push_triangle(triangles: &mut Vec<usize>, i_test: usize, i_prev: usize, i_next: usize)
    ensures
        final(triangles)@ == old(triangles)@.push(i_prev).push(i_test).push(i_next),
{
    triangles.push(i_prev);
    triangles.push(i_test);
    triangles.push(i_next);
}

/// Tells whether the triangle at `v_test` is clear of reflex vertices: whether
/// no member of `reflex_set`, other than the two neighbours of `v_test`, lies
/// strictly inside the triangle of `v_test` and its neighbours.  For a convex
/// vertex this decides whether it is an ear.
pub fn is_ear(points: &Vec<Point>, reflex_set: &HashSet<usize>, v_test: &Vertex) -> (r: bool)
    requires
        v_test.index < points.len(),
        v_test.prev_index < points.len(),
        v_test.next_index < points.len(),
        forall|k: usize| reflex_set@.contains(k) ==> k < points.len(),
    ensures
        r == tip_clear(points@, reflex_set@, v_test.prev_index, v_test.index, v_test.next_index),
{
    broadcast use vstd::std_specs::hash::group_hash_axioms;

    for r in it: reflex_set.iter()
        invariant
            v_test.index < points.len(),
            v_test.prev_index < points.len(),
            v_test.next_index < points.len(),
            forall|k: usize| reflex_set@.contains(k) ==> k < points.len(),
            it.seq().unref().to_set() == reflex_set@,
            forall|j: int|
                0 <= j < it.index() ==> clear_of(
                    points@,
                    *(#[trigger] it.seq()[j]),
                    v_test.prev_index,
                    v_test.index,
                    v_test.next_index,
                ),
            it.index() == it.seq().len() ==> tip_clear(
                points@,
                reflex_set@,
                v_test.prev_index,
                v_test.index,
                v_test.next_index,
            ),
    {
        assert(it.seq().unref()[it.index() as int] == *r);
        assert(it.seq().unref().to_set().contains(*r));
        if *r == v_test.prev_index || *r == v_test.next_index {
            // a neighbour is a corner of the triangle, never inside it
        } else if is_in_triangle(
            &points[*r],
            &points[v_test.prev_index],
            &points[v_test.index],
            &points[v_test.next_index],
        ) {
            return false;
        }
        assert forall|x: usize|
            it.index() + 1 == it.seq().len() && #[trigger] reflex_set@.contains(x) && x
                != v_test.prev_index && x != v_test.next_index implies !inside_triangle(
            points@[x as int],
            points@[v_test.prev_index as int],
            points@[v_test.index as int],
            points@[v_test.next_index as int],
        ) by {
            assert(it.seq().unref().to_set().contains(x));
            let j = choose|j: int| 0 <= j < it.seq().unref().len() && it.seq().unref()[j] == x;
            assert(*it.seq()[j] == x);
        }
    }
    true
}

/// One reflex vertex does not spoil the triangle `prev, tip, next`: it is one of
/// the two neighbours, or it is not strictly inside.
pub open spec fn clear_of(points: Seq<Point>, r: usize, prev: usize, tip: usize, next: usize) -> bool {
    r == prev || r == next || !inside_triangle(
        points[r as int],
        points[prev as int],
        points[tip as int],
        points[next as int],
    )
}

/// Classifies a vertex against a reflex set: `Reflex` if its corner is not
/// convex, `Ear` if it is convex and its triangle is clear, `Convex` otherwise.
pub fn classify_vertex(points: &Vec<Point>, v_test: &Vertex, reflex_set: &HashSet<usize>) -> (t:
    VertexType)
    requires
        v_test.index < points.len(),
        v_test.prev_index < points.len(),
        v_test.next_index < points.len(),
        forall|k: usize| reflex_set@.contains(k) ==> k < points.len(),
    ensures
        t == vertex_type(points@, reflex_set@, v_test.prev_index, v_test.index, v_test.next_index),
{
    if is_convex(
        &points[v_test.index],
        &points[v_test.prev_index],
        &points[v_test.next_index],
    ) {
        if is_ear(points, reflex_set, v_test) {
            VertexType::Ear
        } else {
            VertexType::Convex
        }
    } else {
        VertexType::Reflex
    }
}

/// The class of the corner `prev, tip, next` against a reflex set.
pub open spec fn vertex_type(
    points: Seq<Point>,
    reflex: Set<usize>,
    prev: usize,
    tip: usize,
    next: usize,
) -> VertexType {
    if !tip_convex(points, prev, tip, next) {
        VertexType::Reflex
    } else if tip_clear(points, reflex, prev, tip, next) {
        VertexType::Ear
    } else {
        VertexType::Convex
    }
}

/// The flags of the ring vertices agree with the recorded sets: a vertex is
/// flagged an ear exactly when it is in the ear set, and flagged convex exactly
/// when it is not in the reflex set.
pub open spec fn flagged(vertices: Seq<Vertex>, s: ClipState) -> bool {
    forall|j: int|
        0 <= j < s.ring.len() ==> {
            let v = #[trigger] s.ring[j];
            &&& vertices[v as int].is_ear == s.ears.contains(v)
            &&& vertices[v as int].is_convex == !s.reflex.contains(v)
        }
}

/// Classifies every vertex of an untouched polygon.  A first pass collects the
/// reflex vertices; a second pass, which needs that set complete, flags the
/// convex vertices and collects the ears.  Returns the ear set and the reflex
/// set, in this order.
#[verifier::rlimit(40)]
pub fn fill_sets(points: &Vec<Point>, vertices: &mut Vec<Vertex>) -> (sets: (
    HashSet<usize>,
    HashSet<usize>,
))
    requires
        points.len() >= 3,
        old(vertices).len() == points.len(),
        linked(old(vertices)@, full_ring(points.len() as nat)),
        forall|i: int|
            0 <= i < old(vertices).len() ==> !(#[trigger] old(vertices)[i]).is_convex && !old(
                vertices,
            )[i].is_ear,
    ensures
        sets.0@ == initial(points@).ears,
        sets.1@ == initial(points@).reflex,
        final(vertices).len() == points.len(),
        linked(final(vertices)@, initial(points@).ring),
        flagged(final(vertices)@, initial(points@)),
{
    broadcast use vstd::std_specs::hash::group_hash_axioms;

    let n = points.len();
    let ghost ring = full_ring(n as nat);
    let ghost start = vertices@;
    let mut ear_set: HashSet<usize> = HashSet::new();
    let mut reflex_set: HashSet<usize> = HashSet::new();
    proof {
        assert forall|v: usize| v < n implies #[trigger] ring.contains(v) && ring.index_of(v) == v by {
            assert(ring[v as int] == v);
            lemma_index_of(ring, v as int);
        }
    }
    let mut i: usize = 0;
    while i < n
        invariant
            n == points.len(),
            n >= 3,
            i <= n,
            vertices@ == start,
            start.len() == n,
            ring == full_ring(n as nat),
            linked(start, ring),
            forall|v: usize| v < n ==> #[trigger] ring.contains(v) && ring.index_of(v) == v,
            forall|v: usize|
                #[trigger] reflex_set@.contains(v) <==> v < i && reflex_of(points@, ring).contains(v),
        decreases n - i,
    {
        assert(ring[i as int] == i);
        let t = classify_vertex(points, &vertices[i], &reflex_set);
        if t == VertexType::Reflex {
            reflex_set.insert(i);
        }
        i += 1;
    }
    assert(reflex_set@ =~= reflex_of(points@, ring)) by {
        assert forall|v: usize| reflex_of(points@, ring).contains(v) implies v < n by {
            lemma_index_of_member(ring, v);
        }
    }
    let mut i: usize = 0;
    while i < n
        invariant
            n == points.len(),
            n >= 3,
            i <= n,
            vertices.len() == n,
            start.len() == n,
            ring == full_ring(n as nat),
            linked(start, ring),
            linked(vertices@, ring),
            reflex_set@ == reflex_of(points@, ring),
            forall|v: usize| reflex_set@.contains(v) ==> v < n,
            forall|v: usize| v < n ==> #[trigger] ring.contains(v) && ring.index_of(v) == v,
            forall|k: int|
                i <= k < n ==> !(#[trigger] vertices[k]).is_convex && !vertices[k].is_ear,
            forall|k: int|
                0 <= k < i ==> (#[trigger] vertices[k]).is_convex == !reflex_set@.contains(
                    k as usize,
                ) && vertices[k].is_ear == ear_set@.contains(k as usize),
            forall|v: usize|
                #[trigger] ear_set@.contains(v) <==> v < i && ears_of(
                    points@,
                    ring,
                    reflex_set@,
                ).contains(v),
        decreases n - i,
    {
        assert(ring[i as int] == i);
        let ghost before = vertices@;
        match classify_vertex(points, &vertices[i], &reflex_set) {
            VertexType::Reflex => (),
            VertexType::Convex => {
                vertices[i].is_convex = true;
            },
            VertexType::Ear => {
                vertices[i].is_convex = true;
                vertices[i].is_ear = true;
                ear_set.insert(i);
            },
        }
        assert(linked(vertices@, ring)) by {
            assert forall|j: int| 0 <= j < ring.len() implies {
                let v = #[trigger] ring[j];
                &&& v < vertices@.len()
                &&& vertices@[v as int].prev_index == prev_at(ring, j)
                &&& vertices@[v as int].next_index == next_at(ring, j)
            } by {
                assert(before[ring[j] as int].prev_index == prev_at(ring, j));
            }
        }
        i += 1;
    }
    assert(ear_set@ =~= ears_of(points@, ring, reflex_set@)) by {
        assert forall|v: usize| ears_of(points@, ring, reflex_set@).contains(v) implies v < n by {
            lemma_index_of_member(ring, v);
        }
    }
    assert(flagged(vertices@, initial(points@))) by {
        assert forall|j: int| 0 <= j < ring.len() implies {
            let v = #[trigger] ring[j];
            &&& vertices@[v as int].is_ear == ear_set@.contains(v)
            &&& vertices@[v as int].is_convex == !reflex_set@.contains(v)
        } by {
            assert(ring[j] == j);
        }
    }
    (ear_set, reflex_set)
}

/// The vertex list and the two sets hold the clipping state `s`.
pub open spec fn holds(
    points: Seq<Point>,
    vertices: Seq<Vertex>,
    ear_set: Set<usize>,
    reflex_set: Set<usize>,
    s: ClipState,
) -> bool {
    &&& vertices.len() == points.len()
    &&& shaped(points, s)
    &&& linked(vertices, s.ring)
    &&& flagged(vertices, s)
    &&& ear_set == s.ears
    &&& reflex_set == s.reflex
}

/// Looks again at vertex `i` after one of its neighbours was unlinked, and
/// brings its flags and the two sets up to date.
#[verifier::rlimit(40)]
fn update_neighbour(
    points: &Vec<Point>,
    vertices: &mut Vec<Vertex>,
    ear_set: &mut HashSet<usize>,
    reflex_set: &mut HashSet<usize>,
    i: usize,
    Ghost(s): Ghost<ClipState>,
)
    requires
        holds(points@, old(vertices)@, old(ear_set)@, old(reflex_set)@, s),
        s.ring.contains(i),
    ensures
        holds(
            points@,
            final(vertices)@,
            final(ear_set)@,
            final(reflex_set)@,
            reclassify(points@, s, i),
        ),
{
    broadcast use vstd::std_specs::hash::group_hash_axioms;

    let ghost j = s.ring.index_of(i);
    let ghost before = vertices@;
    proof {
        lemma_index_of_member(s.ring, i);
        lemma_neighbours_in_ring(s.ring, i);
        lemma_index_of_member(s.ring, ring_prev(s.ring, i));
        lemma_index_of_member(s.ring, ring_next(s.ring, i));
        assert(s.ring[j] == i);
    }
    let v = vertices[i];
    assert(v.prev_index == ring_prev(s.ring, i));
    assert(v.next_index == ring_next(s.ring, i));
    if v.is_ear {
        let still = is_convex(&points[i], &points[v.prev_index], &points[v.next_index])
            && is_ear(points, reflex_set, &v);
        if !still {
            vertices[i].is_ear = false;
            forget(ear_set, i);
        }
    } else if is_convex(&points[i], &points[v.prev_index], &points[v.next_index]) {
        if !v.is_convex {
            vertices[i].is_convex = true;
            forget(reflex_set, i);
        }
        assert(reflex_set@ =~= s.reflex.remove(i));
        if is_ear(points, reflex_set, &v) {
            vertices[i].is_ear = true;
            ear_set.insert(i);
        }
    }
    proof {
        reveal(reclassify);
        let t = reclassify(points@, s, i);
        lemma_reclassify_shape(points@, s, i);
        assert(ear_set@ =~= t.ears);
        assert(reflex_set@ =~= t.reflex);
        assert forall|k: int| 0 <= k < s.ring.len() implies {
            let w = #[trigger] s.ring[k];
            &&& w < vertices@.len()
            &&& vertices@[w as int].prev_index == prev_at(s.ring, k)
            &&& vertices@[w as int].next_index == next_at(s.ring, k)
            &&& vertices@[w as int].is_ear == t.ears.contains(w)
            &&& vertices@[w as int].is_convex == !t.reflex.contains(w)
        } by {
            let w = s.ring[k];
            assert(before[w as int].prev_index == prev_at(s.ring, k));
            assert(before[w as int].is_ear == s.ears.contains(w));
        }
    }
}

/// Takes some member of a set, whichever the set hands out first.
fn pick(set: &HashSet<usize>) -> (r: Option<usize>)
    ensures
        r matches Some(v) ==> set@.contains(v),
        r is None ==> forall|v: usize| !set@.contains(v),
{
    broadcast use vstd::std_specs::hash::group_hash_axioms;

    for k in it: set.iter()
        invariant
            it.index() == 0,
            it.seq().unref().to_set() == set@,
            it.seq().len() == 0 ==> forall|v: usize| !set@.contains(v),
    {
        assert(it.seq().unref()[0] == *k);
        assert(it.seq().unref().to_set().contains(*k));
        return Some(*k);
    }
    None
}

/// The triangles written so far are the ring triangles of `picks`, each taken
/// in the state that the picks before it lead to.
pub open spec fn records(points: Seq<Point>, triangles: Seq<usize>, picks: Seq<usize>) -> bool {
    &&& triangles.len() == 3 * picks.len()
    &&& forall|k: int|
        0 <= k < picks.len() ==> #[trigger] triangle_of(triangles, k) == ring_triangle(
            clipped(points, picks.take(k)).ring,
            picks[k],
        )
}

/// Triangulates the polygon `points`, whose vertices are expected in
/// counter-clockwise order, by clipping ears.
///
/// The result is a flat list of indices into `points`, three to a triangle.
/// Fewer than three points are refused with `NotEnoughVertices`.  A triangle is
/// returned as it stands.  Otherwise a recorded ear is clipped, its triangle
/// written, and its two neighbours re-examined, until three vertices are left;
/// they make the last triangle.  Which ear is clipped is not fixed.  Every
/// triangle but the last is strictly convex at its middle vertex, together the
/// triangles have the signed area of the polygon, and they fit together: every
/// side of the polygon is an edge of one triangle, every diagonal of two, once
/// in each direction.  If more
/// than three vertices are left and none is recorded as an ear, the polygon is
/// refused with `NonSimplePolygon`; this does not happen to a polygon in convex
/// position.
#[verifier::rlimit(40)]
pub fn triangulate(points: &Vec<Point>) -> (result: Result<Vec<usize>, TrdlError>)
    ensures
        points.len() < 3 <==> result matches Err(TrdlError::NotEnoughVertices),
        points.len() == 3 ==> (result matches Ok(t) && t@ == seq![0usize, 1usize, 2usize]),
        result matches Ok(t) ==> is_ear_clipping(points@, t@),
        result matches Ok(t) ==> t@.len() == 3 * (points.len() - 2),
        result matches Ok(t) ==> forall|i: int| 0 <= i < t@.len() ==> #[trigger] t@[i] < points.len(),
        result matches Ok(t) ==> forall|v: usize| v < points.len() ==> t@.contains(v),
        result matches Ok(t) ==> forall|k: int|
            0 <= k < points.len() - 3 ==> #[trigger] triangle_convex(points@, t@, k),
        result matches Ok(t) ==> twice_triangles_area(points@, t@, points.len() - 2) == twice_area(
            points@,
            full_ring(points.len() as nat),
        ),
        result matches Ok(t) ==> edges_paired(points.len() as nat, t@),
        result matches Err(e) ==> e is NotEnoughVertices || e is NonSimplePolygon,
        result matches Err(TrdlError::NonSimplePolygon) ==> exists|picks: Seq<usize>|
            stuck_after(points@, picks),
        points.len() >= 3 && convex_position(points@) ==> result is Ok,
{
    let mut n = points.len();
    if n < 4 {
        if n == 3 {
            let t: Vec<usize> = vec![0, 1, 2];
            proof {
                lemma_triangle_is_clipping(points@, t@);
                lemma_clipping_covers(points@, t@);
                lemma_clipping_area(points@, t@);
                lemma_clipping_edges(points@, t@);
            }
            return Ok(t);
        } else {
            return Err(TrdlError::NotEnoughVertices);
        }
    }
    let mut vertices = make_vertex_vec(n);
    proof {
        let ring = full_ring(n as nat);
        assert(linked(vertices@, ring)) by {
            assert forall|j: int| 0 <= j < ring.len() implies {
                let v = #[trigger] ring[j];
                &&& v < vertices@.len()
                &&& vertices@[v as int].prev_index == prev_at(ring, j)
                &&& vertices@[v as int].next_index == next_at(ring, j)
            } by {
                assert(vertices@[j].index == j);
            }
        }
    }
    let (mut ear_set, mut reflex_set) = fill_sets(points, &mut vertices);
    let mut triangles: Vec<usize> = Vec::new();
    let ghost mut picks: Seq<usize> = Seq::empty();
    proof {
        lemma_initial(points@);
    }
    loop
        invariant
            n > 3,
            points.len() <= usize::MAX,
            picks_valid(points@, picks),
            n + picks.len() == points.len(),
            clipped(points@, picks).ring.len() == n,
            holds(points@, vertices@, ear_set@, reflex_set@, clipped(points@, picks)),
            records(points@, triangles@, picks),
        decreases n,
    {
        let ghost s = clipped(points@, picks);
        let ear_index = match pick(&ear_set) {
            Some(i) => i,
            None => {
                proof {
                    assert(stuck_after(points@, picks));
                    if convex_position(points@) {
                        lemma_convex_never_stuck(points@, picks);
                    }
                }
                return Err(TrdlError::NonSimplePolygon);
            },
        };
        proof {
            lemma_ring_vertex(vertices@, s.ring, ear_index);
        }
        forget(&mut ear_set, ear_index);
        let prev_index = vertices[ear_index].prev_index;
        let next_index = vertices[ear_index].next_index;
        let ghost old_triangles = triangles@;
        let ghost old_vertices = vertices@;
        push_triangle(&mut triangles, ear_index, prev_index, next_index);
        remove_vertex(&mut vertices, ear_index);
        n -= 1;
        let ghost more = picks.push(ear_index);
        let ghost s1 = unlink(s, ear_index);
        proof {
            lemma_records_push(points@, old_triangles, triangles@, picks, ear_index);
            lemma_unlink_holds(points@, old_vertices, vertices@, s, ear_index);
            lemma_clip_ring(points@, s, ear_index);
        }
        if n == 3 {
            let last_index = match pick(&ear_set) {
                Some(i) => i,
                None => prev_index,
            };
            proof {
                lemma_ring_vertex(vertices@, s1.ring, last_index);
            }
            let last_prev = vertices[last_index].prev_index;
            let last_next = vertices[last_index].next_index;
            let ghost before_last = triangles@;
            push_triangle(&mut triangles, last_index, last_prev, last_next);
            proof {
                lemma_records_finish(points@, before_last, triangles@, more, last_index);
                lemma_clipping_covers(points@, triangles@);
                lemma_clipping_area(points@, triangles@);
                lemma_clipping_edges(points@, triangles@);
                assert forall|k: int| 0 <= k < points.len() - 3 implies #[trigger] triangle_convex(
                    points@,
                    triangles@,
                    k,
                ) by {
                    lemma_clipped_triangles_are_ears(points@, triangles@, k);
                }
            }
            return Ok(triangles);
        }
        update_neighbour(
            points,
            &mut vertices,
            &mut ear_set,
            &mut reflex_set,
            prev_index,
            Ghost(s1),
        );
        let ghost s2 = reclassify(points@, s1, prev_index);
        proof {
            lemma_reclassify_shape(points@, s1, prev_index);
        }
        update_neighbour(
            points,
            &mut vertices,
            &mut ear_set,
            &mut reflex_set,
            next_index,
            Ghost(s2),
        );
        proof {
            lemma_reclassify_shape(points@, s2, next_index);
            picks = more;
        }
    }
}

/// Removes `v` from a set.
fn forget(set: &mut HashSet<usize>, v: usize)
    ensures
        final(set)@ == old(set)@.remove(v),
{
    broadcast use vstd::std_specs::hash::group_hash_axioms;

    set.remove(&v);
}

/// The links of a ring vertex are its ring neighbours, which are ring vertices.
proof fn lemma_ring_vertex(vertices: Seq<Vertex>, ring: Seq<usize>, v: usize)
    requires
        linked(vertices, ring),
        ring.contains(v),
    ensures
        v < vertices.len(),
        vertices[v as int].prev_index == ring_prev(ring, v),
        vertices[v as int].next_index == ring_next(ring, v),
        ring.contains(ring_prev(ring, v)),
        ring.contains(ring_next(ring, v)),
        ring_prev(ring, v) < vertices.len(),
        ring_next(ring, v) < vertices.len(),
{
    lemma_index_of_member(ring, v);
    lemma_neighbours_in_ring(ring, v);
    lemma_index_of_member(ring, ring_prev(ring, v));
    lemma_index_of_member(ring, ring_next(ring, v));
    assert(ring[ring.index_of(v)] == v);
}

/// Writing the ring triangle of a valid pick extends the record by that pick.
proof fn lemma_records_push(
    points: Seq<Point>,
    before: Seq<usize>,
    after: Seq<usize>,
    picks: Seq<usize>,
    ear: usize,
)
    requires
        records(points, before, picks),
        picks_valid(points, picks),
        clipped(points, picks).ring.len() > 3,
        clipped(points, picks).ears.contains(ear),
        after == before.push(ring_prev(clipped(points, picks).ring, ear)).push(ear).push(
            ring_next(clipped(points, picks).ring, ear),
        ),
    ensures
        records(points, after, picks.push(ear)),
        picks_valid(points, picks.push(ear)),
        clipped(points, picks.push(ear)) == clip(points, clipped(points, picks), ear),
{
    let more = picks.push(ear);
    assert(more.drop_last() =~= picks);
    assert(more.take(picks.len() as int) =~= picks);
    assert forall|k: int| 0 <= k < more.len() implies #[trigger] triangle_of(after, k)
        == ring_triangle(clipped(points, more.take(k)).ring, more[k]) by {
        if k < picks.len() {
            assert(more.take(k) =~= picks.take(k));
            assert(triangle_of(after, k) == triangle_of(before, k));
        }
    }
}

/// Writing the ring triangle of one of the last three vertices completes an
/// ear clipping.
proof fn lemma_records_finish(
    points: Seq<Point>,
    before: Seq<usize>,
    after: Seq<usize>,
    picks: Seq<usize>,
    last: usize,
)
    requires
        points.len() >= 3,
        picks.len() + 3 == points.len(),
        records(points, before, picks),
        picks_valid(points, picks),
        clipped(points, picks).ring.contains(last),
        after == before.push(ring_prev(clipped(points, picks).ring, last)).push(last).push(
            ring_next(clipped(points, picks).ring, last),
        ),
    ensures
        is_ear_clipping(points, after),
{
    let count = (points.len() - 3) as nat;
    assert(tips_of(after, count) =~= picks) by {
        assert forall|k: int| 0 <= k < count implies tips_of(after, count)[k] == picks[k] by {
            assert(triangle_of(before, k).1 == picks[k]);
        }
    }
    assert forall|k: int| 0 <= k < count implies #[trigger] triangle_of(after, k) == ring_triangle(
        clipped(points, picks.take(k)).ring,
        picks[k],
    ) by {
        assert(triangle_of(after, k) == triangle_of(before, k));
    }
}

/// Unlinking an ear in the vertex list matches unlinking it in the state, up
/// to the ear set, which the caller updates.
#[verifier::rlimit(40)]
proof fn lemma_unlink_holds(
    points: Seq<Point>,
    before: Seq<Vertex>,
    after: Seq<Vertex>,
    s: ClipState,
    ear: usize,
)
    requires
        before.len() == points.len(),
        after.len() == before.len(),
        shaped(points, s),
        s.ring.len() > 3,
        s.ears.contains(ear),
        linked(before, s.ring),
        flagged(before, s),
        forall|i: int|
            0 <= i < before.len() ==> #[trigger] after[i] == (Vertex {
                prev_index: if i == before[ear as int].next_index {
                    before[ear as int].prev_index
                } else {
                    before[i].prev_index
                },
                next_index: if i == before[ear as int].prev_index {
                    before[ear as int].next_index
                } else {
                    before[i].next_index
                },
                ..before[i]
            }),
    ensures
        shaped(points, unlink(s, ear)),
        linked(after, unlink(s, ear).ring),
        flagged(after, unlink(s, ear)),
        unlink(s, ear).ring.contains(ring_prev(s.ring, ear)),
        unlink(s, ear).ring.contains(ring_next(s.ring, ear)),
{
    let j = s.ring.index_of(ear);
    let ring = s.ring;
    let t = unlink(s, ear);
    lemma_index_of_member(ring, ear);
    lemma_unlink_ring(ring, j);
    lemma_neighbours_in_ring(ring, ear);
    lemma_neighbours_distinct(ring, ear);
    assert forall|a: int| 0 <= a < t.ring.len() implies {
        let v = #[trigger] t.ring[a];
        &&& v < points.len()
        &&& v < after.len()
        &&& after[v as int].prev_index == prev_at(t.ring, a)
        &&& after[v as int].next_index == next_at(t.ring, a)
        &&& after[v as int].is_ear == t.ears.contains(v)
        &&& after[v as int].is_convex == !t.reflex.contains(v)
    } by {
        let a0 = if a < j { a } else { a + 1 };
        let v = t.ring[a];
        assert(v == ring[a0]);
        lemma_index_of(ring, a0);
        lemma_index_of(t.ring, a);
        assert(ring.contains(v));
        assert(before[v as int].prev_index == prev_at(ring, a0));
        assert(ring_prev(ring, v) == prev_at(ring, a0));
        assert(ring_next(ring, v) == next_at(ring, a0));
        assert(ring_prev(t.ring, v) == prev_at(t.ring, a));
        assert(ring_next(t.ring, v) == next_at(t.ring, a));
        assert(before[ear as int].prev_index == prev_at(ring, j));
        assert(before[ear as int].next_index == next_at(ring, j));
    }
}

} // verus!
