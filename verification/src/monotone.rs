//! Groundwork for triangulation by monotone pieces: the half-edge list of a
//! polygon, the classification of its vertices for a downward sweep, the queue
//! that hands the vertices out from the top, diagonals, and the status of the
//! sweep line.

use vstd::prelude::*;
use std::cmp::Ordering;
use vstd::std_specs::cmp::PartialOrdSpecImpl;

verus! {

/// A point of the plane.  Points are ordered from the bottom up: a point is
/// below another if its y is smaller or, at the same y, if its x is larger.
#[derive(Debug, Clone, Copy, PartialEq, Eq, Structural)]
pub struct Point {
    pub x: i32,
    pub y: i32,
}

/// `a` is below `b` in the order of the sweep.
pub open spec fn below(a: Point, b: Point) -> bool {
    a.y < b.y || (a.y == b.y && a.x > b.x)
}

impl PartialOrdSpecImpl for Point {
    open spec fn obeys_partial_cmp_spec() -> bool {
        true
    }

    open spec fn partial_cmp_spec(&self, other: &Point) -> Option<Ordering> {
        if below(*self, *other) {
            Some(Ordering::Less)
        } else if below(*other, *self) {
            Some(Ordering::Greater)
        } else {
            Some(Ordering::Equal)
        }
    }
}

impl PartialOrd for Point {
    fn partial_cmp(&self, other: &Point) -> (r: Option<Ordering>) {
        if self.y < other.y {
            Some(Ordering::Less)
        } else if self.y > other.y {
            Some(Ordering::Greater)
        } else if self.x > other.x {
            Some(Ordering::Less)
        } else if self.x < other.x {
            Some(Ordering::Greater)
        } else {
            Some(Ordering::Equal)
        }
    }
}

/// One directed edge of the polygon or of a diagonal: the point it starts from
/// and the indices, in the edge list, of the edges after and before it.
#[derive(Debug, Clone, Copy, PartialEq, Eq, Structural)]
pub struct HalfEdge {
    pub origin: Point,
    pub next_index: usize,
    pub prev_index: usize,
}

/// What a vertex means to the sweep.
#[derive(Debug, Clone, Copy, PartialEq, Eq, Structural)]
pub enum VertexType {
    Start,
    End,
    Split,
    Merge,
    Regular,
}

/// A vertex as the sweep sees it: its point, its type, and the edge that
/// starts there.
#[derive(Debug, Clone, Copy, PartialEq, Eq, Structural)]
pub struct Vertex {
    pub point: Point,
    pub vertex_type: VertexType,
    pub edge_index: usize,
}

impl Vertex {
    /// A regular vertex.
    pub fn new_regular(point: Point, edge_index: usize) -> (v: Vertex)
        ensures
            v == (Vertex { point, vertex_type: VertexType::Regular, edge_index }),
    {
        Vertex { point, vertex_type: VertexType::Regular, edge_index }
    }

    /// A vertex of the given type.
    pub fn new(point: Point, vertex_type: VertexType, edge_index: usize) -> (v: Vertex)
        ensures
            v == (Vertex { point, vertex_type, edge_index }),
    {
        Vertex { point, vertex_type, edge_index }
    }
}

/// The type of a vertex, from its point and those of its two neighbours.
///
/// With both neighbours below, the vertex is a start if the next one lies to
/// the right, a split otherwise.  With neither neighbour below, it is a merge if
/// the next one lies to the right, an end otherwise.  With one neighbour below
/// and one not, it is regular.
pub open spec fn vertex_type_of(prev: Point, current: Point, next: Point) -> VertexType {
    if below(prev, current) && below(next, current) {
        if next.x > current.x {
            VertexType::Start
        } else {
            VertexType::Split
        }
    } else if !below(prev, current) && !below(next, current) {
        if next.x > current.x {
            VertexType::Merge
        } else {
            VertexType::End
        }
    } else {
        VertexType::Regular
    }
}

/// The edges that a polygon of the given points starts with: edge `i` leaves
/// point `i`, follows edge `i - 1` and is followed by edge `i + 1`, and the
/// first and the last edge follow each other.
pub open spec fn polygon_edges(points: Seq<Point>) -> Seq<HalfEdge> {
    Seq::new(
        points.len(),
        |i: int|
            HalfEdge {
                origin: points[i],
                next_index: if i == points.len() - 1 {
                    0
                } else {
                    (i + 1) as usize
                },
                prev_index: if i == 0 {
                    (points.len() - 1) as usize
                } else {
                    (i - 1) as usize
                },
            },
    )
}

/// The edges of the points as they are first written: edge `i` leaves point
/// `i`, follows edge `i - 1` and is followed by edge `i + 1`; the first edge
/// follows the last.
pub open spec fn open_edges(points: Seq<Point>) -> Seq<HalfEdge> {
    Seq::new(
        points.len(),
        |i: int|
            HalfEdge {
                origin: points[i],
                next_index: (i + 1) as usize,
                prev_index: if i == 0 {
                    (points.len() - 1) as usize
                } else {
                    (i - 1) as usize
                },
            },
    )
}

/// The edge list with the edge at index `last` followed by the edge at index 0.
pub open spec fn ring_closed(edges: Seq<HalfEdge>, last: int) -> Seq<HalfEdge> {
    edges.update(last, HalfEdge { next_index: 0, ..edges[last] })
}

/// Every link of the edge list stays inside the list.
pub open spec fn links_valid(edges: Seq<HalfEdge>) -> bool {
    forall|i: int|
        0 <= i < edges.len() ==> (#[trigger] edges[i]).next_index < edges.len()
            && edges[i].prev_index < edges.len()
}

/// The place of a vertex type in the order of the queue.
pub open spec fn type_rank(t: VertexType) -> int {
    match t {
        VertexType::Start => 0,
        VertexType::End => 1,
        VertexType::Split => 2,
        VertexType::Merge => 3,
        VertexType::Regular => 4,
    }
}

/// `a` comes no later than `b` in the order of the queue: vertices are ordered
/// by their points, from the bottom up, then by type, then by edge index.
pub open spec fn vertex_le(a: Vertex, b: Vertex) -> bool {
    below(a.point, b.point) || (a.point == b.point && (type_rank(a.vertex_type) < type_rank(
        b.vertex_type,
    ) || (a.vertex_type == b.vertex_type && a.edge_index <= b.edge_index)))
}

/// The queue is in order, so that its last vertex is the topmost.
pub open spec fn queue_sorted(queue: Seq<Vertex>) -> bool {
    forall|i: int, j: int| 0 <= i < j < queue.len() ==> vertex_le(queue[i], queue[j])
}

/// The order of the queue is total and transitive.
pub proof fn lemma_vertex_order(a: Vertex, b: Vertex, c: Vertex)
    ensures
        vertex_le(a, b) || vertex_le(b, a),
        vertex_le(a, b) && vertex_le(b, c) ==> vertex_le(a, c),
        vertex_le(a, b) && vertex_le(b, a) ==> a == b,
{
}

fn rank(t: VertexType) -> (r: u8)
    ensures
        r == type_rank(t),
{
    match t {
        VertexType::Start => 0,
        VertexType::End => 1,
        VertexType::Split => 2,
        VertexType::Merge => 3,
        VertexType::Regular => 4,
    }
}

fn is_below(a: Point, b: Point) -> (r: bool)
    ensures
        r == below(a, b),
{
    a.y < b.y || (a.y == b.y && a.x > b.x)
}

fn comes_before(a: &Vertex, b: &Vertex) -> (r: bool)
    ensures
        r == vertex_le(*a, *b),
{
    if is_below(a.point, b.point) {
        true
    } else if is_below(b.point, a.point) {
        false
    } else {
        let ra = rank(a.vertex_type);
        let rb = rank(b.vertex_type);
        ra < rb || (ra == rb && a.edge_index <= b.edge_index)
    }
}

/// An edge that the sweep line crosses, with the vertex that helps it.  In the
/// status of the sweep line, edges are told apart and ordered by the x of
/// their origin alone.
#[derive(Debug, Clone, Copy, PartialEq, Eq, Structural)]
pub struct TEdge {
    pub edge: HalfEdge,
    pub helper: Vertex,
}

/// The status is in order from left to right, and no two of its edges start
/// at the same x.
pub open spec fn status_sorted(status: Seq<TEdge>) -> bool {
    forall|i: int, j: int|
        0 <= i < j < status.len() ==> status[i].edge.origin.x < status[j].edge.origin.x
}

/// The state of a sweep over a polygon.
pub struct Triangulator {
    /// The vertices of the polygon, counter-clockwise.
    pub points: Vec<Point>,
    /// The edges of the polygon and of the diagonals added so far.
    pub edge_list: Vec<HalfEdge>,
    /// The vertices still to be visited, the topmost last.
    pub vertex_queue: Vec<Vertex>,
    /// The edges that the sweep line crosses, from left to right.
    pub status: Vec<TEdge>,
    /// The edge that was put into the status last.
    pub prev_t_edge: Option<TEdge>,
}

impl Triangulator {
    /// The queue and the status are in order.
    pub open spec fn well_formed(&self) -> bool {
        queue_sorted(self.vertex_queue@) && status_sorted(self.status@)
    }

    /// A sweep over `points` that has not begun: no edges, no queue, no status.
    pub fn new(points: Vec<Point>) -> (this: Self)
        ensures
            this.points == points,
            this.edge_list@.len() == 0,
            this.vertex_queue@.len() == 0,
            this.status@.len() == 0,
            this.prev_t_edge is None,
            this.well_formed(),
    {
        Triangulator {
            points,
            edge_list: Vec::new(),
            vertex_queue: Vec::new(),
            status: Vec::new(),
            prev_t_edge: None,
        }
    }

    /// Prepares the sweep over a polygon: builds its edge list and queues its
    /// vertices.
    pub fn triangulate(points: Vec<Point>) -> (this: Self)
        requires
            points.len() >= 1,
        ensures
            this.points == points,
            this.edge_list@ == polygon_edges(points@),
            this.well_formed(),
            this.vertex_queue@.to_multiset() == classified(
                polygon_edges(points@),
                points.len() as int,
            ).to_multiset(),
            this.status@.len() == 0,
            this.prev_t_edge is None,
    {
        let mut this = Self::new(points);
        this.build_edge_list();
        this.build_vertex_queue();
        proof {
            assert(Seq::<Vertex>::empty() + classified(this.edge_list@, this.edge_list@.len() as int)
                =~= classified(this.edge_list@, this.edge_list@.len() as int));
        }
        this
    }

    /// Appends the edges of the polygon to the edge list, and closes the ring
    /// by letting the edge at index `n - 1` of the list, where `n` is the
    /// number of points, be followed by the edge at index 0.  On an empty edge
    /// list this gives the edges of the polygon.
    pub fn build_edge_list(&mut self)
        requires
            old(self).points.len() >= 1,
        ensures
            final(self).edge_list@ == ring_closed(
                old(self).edge_list@ + open_edges(old(self).points@),
                old(self).points.len() - 1,
            ),
            old(self).edge_list@.len() == 0 ==> final(self).edge_list@ == polygon_edges(
                old(self).points@,
            ) && links_valid(final(self).edge_list@),
            final(self).points == old(self).points,
            final(self).vertex_queue == old(self).vertex_queue,
            final(self).status == old(self).status,
            final(self).prev_t_edge == old(self).prev_t_edge,
    {
        let n = self.points.len();
        let ghost base = self.edge_list@;
        let ghost added = open_edges(self.points@);
        self.edge_list.push(HalfEdge { origin: self.points[0], prev_index: n - 1, next_index: 1 });
        let mut i: usize = 1;
        while i < n
            invariant
                n == self.points.len(),
                1 <= i <= n,
                added == open_edges(self.points@),
                self.edge_list@ == base + added.take(i as int),
                self.points == old(self).points,
                self.vertex_queue == old(self).vertex_queue,
                self.status == old(self).status,
                self.prev_t_edge == old(self).prev_t_edge,
            decreases n - i,
        {
            let p = self.points[i];
            self.edge_list.push(HalfEdge { origin: p, prev_index: i - 1, next_index: i + 1 });
            proof {
                assert(added.take(i + 1) =~= added.take(i as int).push(added[i as int]));
                assert(self.edge_list@ =~= base + added.take(i + 1));
            }
            i += 1;
        }
        proof {
            assert(added.take(n as int) =~= added);
        }
        self.edge_list[n - 1].next_index = 0;
        proof {
            assert(self.edge_list@ =~= ring_closed(base + added, n - 1));
            if base.len() == 0 {
                assert(self.edge_list@ =~= polygon_edges(old(self).points@));
            }
        }
    }

    /// Classifies every vertex of the edge list and puts it into the queue.
    pub fn build_vertex_queue(&mut self)
        requires
            old(self).well_formed(),
            links_valid(old(self).edge_list@),
        ensures
            final(self).well_formed(),
            final(self).vertex_queue@.to_multiset() == (old(self).vertex_queue@ + classified(
                old(self).edge_list@,
                old(self).edge_list@.len() as int,
            )).to_multiset(),
            final(self).points == old(self).points,
            final(self).edge_list == old(self).edge_list,
            final(self).status == old(self).status,
            final(self).prev_t_edge == old(self).prev_t_edge,
    {
        broadcast use vstd::seq_lib::group_to_multiset_ensures;

        let n = self.edge_list.len();
        let ghost edges = self.edge_list@;
        let ghost start = self.vertex_queue@;
        let mut index: usize = 0;
        proof {
            assert(start + classified(edges, 0) =~= start);
        }
        while index < n
            invariant
                n == edges.len(),
                index <= n,
                self.edge_list@ == edges,
                links_valid(edges),
                self.well_formed(),
                self.vertex_queue@.to_multiset() == (start + classified(
                    edges,
                    index as int,
                )).to_multiset(),
                self.points == old(self).points,
                self.edge_list == old(self).edge_list,
                self.status == old(self).status,
                self.prev_t_edge == old(self).prev_t_edge,
            decreases n - index,
        {
            let vertex = self.classify_vertex(index);
            self.queue_push(vertex);
            proof {
                let so_far = start + classified(edges, index as int);
                assert(start + classified(edges, index + 1) =~= so_far.push(vertex));
                vstd::seq_lib::to_multiset_build(so_far, vertex);
            }
            index += 1;
        }
    }

    /// Puts a vertex into the queue, at its place in the order.
    #[verifier::rlimit(40)]
    pub fn queue_push(&mut self, vertex: Vertex)
        requires
            old(self).well_formed(),
        ensures
            final(self).well_formed(),
            final(self).vertex_queue@.to_multiset() == old(self).vertex_queue@.to_multiset().insert(
                vertex,
            ),
            final(self).vertex_queue@.len() == old(self).vertex_queue@.len() + 1,
            final(self).points == old(self).points,
            final(self).edge_list == old(self).edge_list,
            final(self).status == old(self).status,
            final(self).prev_t_edge == old(self).prev_t_edge,
    {
        broadcast use vstd::seq_lib::group_to_multiset_ensures;

        let ghost before = self.vertex_queue@;
        let mut at: usize = self.vertex_queue.len();
        while at > 0 && !comes_before(&self.vertex_queue[at - 1], &vertex)
            invariant
                at <= self.vertex_queue@.len(),
                self.vertex_queue@ == before,
                self.points == old(self).points,
                self.edge_list == old(self).edge_list,
                self.status == old(self).status,
                self.prev_t_edge == old(self).prev_t_edge,
                forall|k: int| at <= k < before.len() ==> vertex_le(vertex, #[trigger] before[k]),
            decreases at,
        {
            proof {
                lemma_vertex_order(before[at - 1], vertex, vertex);
            }
            at -= 1;
        }
        self.vertex_queue.insert(at, vertex);
        proof {
            let after = self.vertex_queue@;
            assert forall|i: int, j: int| 0 <= i < j < after.len() implies vertex_le(
                after[i],
                after[j],
            ) by {
                if j < at {
                    assert(after[i] == before[i] && after[j] == before[j]);
                } else if j == at {
                    assert(after[i] == before[i]);
                    if i < at - 1 {
                        lemma_vertex_order(before[i], before[at - 1], vertex);
                    }
                } else if i == at {
                    assert(after[j] == before[j - 1]);
                } else if i > at {
                    assert(after[i] == before[i - 1] && after[j] == before[j - 1]);
                } else {
                    assert(after[i] == before[i] && after[j] == before[j - 1]);
                }
            }
        }
    }

    /// Takes the topmost vertex out of the queue, if there is one.
    pub fn queue_pop(&mut self) -> (top: Option<Vertex>)
        requires
            old(self).well_formed(),
        ensures
            final(self).well_formed(),
            old(self).vertex_queue@.len() == 0 ==> top is None && final(self).vertex_queue@
                == old(self).vertex_queue@,
            old(self).vertex_queue@.len() > 0 ==> top == Some(old(self).vertex_queue@.last())
                && final(self).vertex_queue@ == old(self).vertex_queue@.drop_last(),
            top matches Some(v) ==> forall|k: int|
                0 <= k < old(self).vertex_queue@.len() ==> vertex_le(
                    #[trigger] old(self).vertex_queue@[k],
                    v,
                ),
            final(self).points == old(self).points,
            final(self).edge_list == old(self).edge_list,
            final(self).status == old(self).status,
            final(self).prev_t_edge == old(self).prev_t_edge,
    {
        let top = self.vertex_queue.pop();
        proof {
            if let Some(v) = top {
                assert forall|k: int| 0 <= k < old(self).vertex_queue@.len() implies vertex_le(
                    #[trigger] old(self).vertex_queue@[k],
                    v,
                ) by {
                    lemma_vertex_order(v, v, v);
                }
            }
        }
        top
    }

    /// Adds the diagonal from the origin of edge `start_index` to the origin of
    /// edge `end_index`, as two new edges at the end of the list: one from
    /// start to end, which takes the place of `start_index` behind its
    /// predecessor and leads into `end_index`, and its twin from end to start.
    pub fn insert_edge(&mut self, start_index: usize, end_index: usize)
        requires
            start_index < old(self).edge_list@.len(),
            end_index < old(self).edge_list@.len(),
            old(self).edge_list@[start_index as int].prev_index < old(self).edge_list@.len(),
            old(self).edge_list@[end_index as int].prev_index < old(self).edge_list@.len(),
            old(self).edge_list@.len() + 2 <= usize::MAX,
        ensures
            final(self).edge_list@ == with_diagonal(
                old(self).edge_list@,
                start_index as int,
                end_index as int,
            ),
            final(self).points == old(self).points,
            final(self).vertex_queue == old(self).vertex_queue,
            final(self).status == old(self).status,
            final(self).prev_t_edge == old(self).prev_t_edge,
    {
        let new_index = self.edge_list.len();
        let twin_index = new_index + 1;

        let new_edge = HalfEdge {
            origin: self.edge_list[start_index].origin,
            prev_index: self.edge_list[start_index].prev_index,
            next_index: end_index,
        };

        let twin_edge = HalfEdge {
            origin: self.edge_list[end_index].origin,
            prev_index: self.edge_list[end_index].prev_index,
            next_index: start_index,
        };

        self.edge_list[new_edge.prev_index].next_index = new_index;
        self.edge_list[start_index].prev_index = twin_index;

        self.edge_list[twin_edge.prev_index].next_index = twin_index;
        self.edge_list[end_index].prev_index = new_index;

        self.edge_list.push(new_edge);
        self.edge_list.push(twin_edge);
        proof {
            assert(self.edge_list@ =~= with_diagonal(
                old(self).edge_list@,
                start_index as int,
                end_index as int,
            ));
        }
    }

    /// Finds the place of `x` in the status: the number of edges that start
    /// left of it.
    fn status_rank(&self, x: i32) -> (at: usize)
        requires
            status_sorted(self.status@),
        ensures
            at == rank_of(self.status@, x),
            at <= self.status@.len(),
    {
        let mut at: usize = 0;
        proof {
            lemma_rank(self.status@, x);
        }
        while at < self.status.len() && self.status[at].edge.origin.x < x
            invariant
                at <= self.status@.len(),
                at <= rank_of(self.status@, x) <= self.status@.len(),
                forall|k: int|
                    0 <= k < rank_of(self.status@, x) ==> (#[trigger] self.status@[k]).edge.origin.x
                        < x,
                forall|k: int|
                    rank_of(self.status@, x) <= k < self.status@.len() ==> (
                    #[trigger] self.status@[k]).edge.origin.x >= x,
            decreases self.status@.len() - at,
        {
            at += 1;
        }
        at
    }

    /// Puts an edge into the status, unless the status holds an edge that
    /// starts at the same x.  Tells whether the edge was put in.
    pub fn status_insert(&mut self, t_edge: TEdge) -> (added: bool)
        requires
            status_sorted(old(self).status@),
        ensures
            added == !status_has(old(self).status@, t_edge.edge.origin.x),
            final(self).status@ == status_with(old(self).status@, t_edge),
            status_sorted(final(self).status@),
            final(self).points == old(self).points,
            final(self).edge_list == old(self).edge_list,
            final(self).vertex_queue == old(self).vertex_queue,
            final(self).prev_t_edge == old(self).prev_t_edge,
    {
        let x = t_edge.edge.origin.x;
        let at = self.status_rank(x);
        proof {
            lemma_rank(self.status@, x);
        }
        if at < self.status.len() && self.status[at].edge.origin.x == x {
            false
        } else {
            self.status.insert(at, t_edge);
            true
        }
    }

    /// Takes the edge that starts at the same x as `t_edge` out of the status,
    /// if there is one.  Tells whether there was.
    pub fn status_remove(&mut self, t_edge: &TEdge) -> (removed: bool)
        requires
            status_sorted(old(self).status@),
        ensures
            removed == status_has(old(self).status@, t_edge.edge.origin.x),
            final(self).status@ == status_without(old(self).status@, t_edge.edge.origin.x),
            status_sorted(final(self).status@),
            final(self).points == old(self).points,
            final(self).edge_list == old(self).edge_list,
            final(self).vertex_queue == old(self).vertex_queue,
            final(self).prev_t_edge == old(self).prev_t_edge,
    {
        let x = t_edge.edge.origin.x;
        let at = self.status_rank(x);
        proof {
            lemma_rank(self.status@, x);
        }
        if at < self.status.len() && self.status[at].edge.origin.x == x {
            self.status.remove(at);
            true
        } else {
            false
        }
    }

    /// The edge of the status that lies directly left of `x`: the rightmost of
    /// those that start left of it.
    pub fn status_left_of(&self, x: i32) -> (left: Option<TEdge>)
        requires
            status_sorted(self.status@),
        ensures
            left == left_neighbour(self.status@, x),
    {
        let at = self.status_rank(x);
        if at == 0 {
            None
        } else {
            Some(self.status[at - 1])
        }
    }

    /// Visits a start vertex: the edge that starts there enters the status,
    /// helped by the vertex itself.
    pub fn handle_start_vertex(&mut self, vertex: &Vertex)
        requires
            old(self).well_formed(),
            vertex.edge_index < old(self).edge_list@.len(),
        ensures
            final(self).well_formed(),
            final(self).prev_t_edge == Some(
                TEdge { edge: old(self).edge_list@[vertex.edge_index as int], helper: *vertex },
            ),
            final(self).status@ == status_with(
                old(self).status@,
                TEdge { edge: old(self).edge_list@[vertex.edge_index as int], helper: *vertex },
            ),
            final(self).points == old(self).points,
            final(self).edge_list == old(self).edge_list,
            final(self).vertex_queue == old(self).vertex_queue,
    {
        let t_edge = TEdge { edge: self.edge_list[vertex.edge_index], helper: *vertex };
        self.prev_t_edge = Some(t_edge);
        self.status_insert(t_edge);
    }

    /// Visits an end vertex: if the edge put into the status last is helped by
    /// a merge vertex, a diagonal is drawn to that vertex; the edge then
    /// leaves the status.
    pub fn handle_end_vertex(&mut self, vertex: &Vertex)
        requires
            old(self).well_formed(),
            old(self).prev_t_edge matches Some(t_edge) && (t_edge.helper.vertex_type
                == VertexType::Merge ==> {
                let edges = old(self).edge_list@;
                &&& vertex.edge_index < edges.len()
                &&& t_edge.helper.edge_index < edges.len()
                &&& edges[vertex.edge_index as int].prev_index < edges.len()
                &&& edges[t_edge.helper.edge_index as int].prev_index < edges.len()
                &&& edges.len() + 2 <= usize::MAX
            }),
        ensures
            final(self).well_formed(),
            final(self).prev_t_edge is None,
            final(self).status@ == status_without(
                old(self).status@,
                old(self).prev_t_edge->0.edge.origin.x,
            ),
            final(self).edge_list@ == (if old(self).prev_t_edge->0.helper.vertex_type
                == VertexType::Merge {
                with_diagonal(
                    old(self).edge_list@,
                    vertex.edge_index as int,
                    old(self).prev_t_edge->0.helper.edge_index as int,
                )
            } else {
                old(self).edge_list@
            }),
            final(self).points == old(self).points,
            final(self).vertex_queue == old(self).vertex_queue,
    {
        let t_edge = match self.prev_t_edge {
            Some(t_edge) => t_edge,
            None => {
                return ;
            },
        };
        match t_edge.helper.vertex_type {
            VertexType::Merge => {
                self.insert_edge(vertex.edge_index, t_edge.helper.edge_index);
            },
            _ => {},
        }
        self.status_remove(&t_edge);
        self.prev_t_edge = None;
    }

    /// Visits a split vertex: the edge that starts there enters the status,
    /// helped by the vertex itself, and the vertex becomes the helper of the
    /// edge directly to its left.
    #[verifier::rlimit(40)]
    pub fn handle_split_vertex(&mut self, vertex: &Vertex)
        requires
            old(self).well_formed(),
            vertex.edge_index < old(self).edge_list@.len(),
            left_neighbour(
                old(self).status@,
                old(self).edge_list@[vertex.edge_index as int].origin.x,
            ) is Some,
        ensures
            final(self).well_formed(),
            final(self).prev_t_edge == Some(
                TEdge { edge: old(self).edge_list@[vertex.edge_index as int], helper: *vertex },
            ),
            final(self).status@ == split_status(
                old(self).status@,
                TEdge { edge: old(self).edge_list@[vertex.edge_index as int], helper: *vertex },
            ),
            final(self).points == old(self).points,
            final(self).edge_list == old(self).edge_list,
            final(self).vertex_queue == old(self).vertex_queue,
    {
        let edge = TEdge { edge: self.edge_list[vertex.edge_index], helper: *vertex };
        self.prev_t_edge = Some(edge);
        self.status_insert(edge);
        proof {
            lemma_left_neighbour_kept(old(self).status@, edge);
        }
        let mut left = match self.status_left_of(edge.edge.origin.x) {
            Some(left) => left,
            None => {
                return ;
            },
        };
        self.status_remove(&left);
        left.helper = *vertex;
        self.status_insert(left);
    }

    /// Classifies the vertex at which the edge `index` starts.
    pub fn classify_vertex(&self, index: usize) -> (vertex: Vertex)
        requires
            index < self.edge_list@.len(),
            self.edge_list@[index as int].prev_index < self.edge_list@.len(),
            self.edge_list@[index as int].next_index < self.edge_list@.len(),
        ensures
            vertex == classify(self.edge_list@, index as int),
    {
        let edge = self.edge_list[index];
        let current = edge.origin;
        let prev = self.edge_list[edge.prev_index].origin;
        let next = self.edge_list[edge.next_index].origin;

        let mut vertex = Vertex::new_regular(current, index);

        let prev_below = prev < current;
        let next_below = next < current;

        if prev_below && next_below {
            if next.x > current.x {
                // both below, interior below
                vertex.vertex_type = VertexType::Start;
            } else {
                // both below, interior above
                vertex.vertex_type = VertexType::Split;
            }
        } else if !prev_below && !next_below {
            if next.x > current.x {
                // both above, interior below
                vertex.vertex_type = VertexType::Merge;
            } else {
                // both above, interior above
                vertex.vertex_type = VertexType::End;
            }
        }
        vertex
    }
}

/// The vertex at which edge `index` starts, classified by the origins of the
/// edges before and after it.
pub open spec fn classify(edges: Seq<HalfEdge>, index: int) -> Vertex {
    let edge = edges[index];
    Vertex {
        point: edge.origin,
        vertex_type: vertex_type_of(
            edges[edge.prev_index as int].origin,
            edge.origin,
            edges[edge.next_index as int].origin,
        ),
        edge_index: index as usize,
    }
}

/// The classified vertices of the first `count` edges, in the order of the
/// edges.
pub open spec fn classified(edges: Seq<HalfEdge>, count: int) -> Seq<Vertex> {
    Seq::new(count as nat, |i: int| classify(edges, i))
}

/// The edge list with a diagonal from the origin of edge `start` to the origin
/// of edge `end`.
///
/// Two edges are added at the end of the list.  The first leaves the origin of
/// `start`, follows what `start` followed, and is followed by `end`.  Its twin
/// leaves the origin of `end`, follows what `end` followed, and is followed by
/// `start`.  The old neighbours are linked to the new edges accordingly, one
/// link after the other.
pub open spec fn with_diagonal(edges: Seq<HalfEdge>, start: int, end: int) -> Seq<HalfEdge> {
    let new_index = edges.len() as usize;
    let twin_index = (edges.len() + 1) as usize;
    let new_edge = HalfEdge {
        origin: edges[start].origin,
        prev_index: edges[start].prev_index,
        next_index: end as usize,
    };
    let twin_edge = HalfEdge {
        origin: edges[end].origin,
        prev_index: edges[end].prev_index,
        next_index: start as usize,
    };
    let e1 = edges.update(
        new_edge.prev_index as int,
        HalfEdge { next_index: new_index, ..edges[new_edge.prev_index as int] },
    );
    let e2 = e1.update(start, HalfEdge { prev_index: twin_index, ..e1[start] });
    let e3 = e2.update(
        twin_edge.prev_index as int,
        HalfEdge { next_index: twin_index, ..e2[twin_edge.prev_index as int] },
    );
    let e4 = e3.update(end, HalfEdge { prev_index: new_index, ..e3[end] });
    e4.push(new_edge).push(twin_edge)
}

/// The number of edges of the status that start left of `x`.
pub open spec fn rank_of(status: Seq<TEdge>, x: i32) -> int
    decreases status.len(),
{
    if status.len() == 0 {
        0
    } else {
        rank_of(status.drop_last(), x) + if status.last().edge.origin.x < x {
            1int
        } else {
            0int
        }
    }
}

/// The status holds an edge that starts at `x`.
pub open spec fn status_has(status: Seq<TEdge>, x: i32) -> bool {
    exists|i: int| 0 <= i < status.len() && (#[trigger] status[i]).edge.origin.x == x
}

/// The status after an edge was put in: unchanged where it holds an edge that
/// starts at the same x, and with the edge at its place otherwise.
pub open spec fn status_with(status: Seq<TEdge>, t_edge: TEdge) -> Seq<TEdge> {
    if status_has(status, t_edge.edge.origin.x) {
        status
    } else {
        status.insert(rank_of(status, t_edge.edge.origin.x), t_edge)
    }
}

/// The status without the edge that starts at `x`, if it holds one.
pub open spec fn status_without(status: Seq<TEdge>, x: i32) -> Seq<TEdge> {
    if status_has(status, x) {
        status.remove(rank_of(status, x))
    } else {
        status
    }
}

/// The rightmost edge of the status that starts left of `x`.
pub open spec fn left_neighbour(status: Seq<TEdge>, x: i32) -> Option<TEdge> {
    if rank_of(status, x) == 0 {
        None
    } else {
        Some(status[rank_of(status, x) - 1])
    }
}

/// The status after a split vertex: its edge is put in, and the edge directly
/// left of it gets the vertex as its helper.
pub open spec fn split_status(status: Seq<TEdge>, t_edge: TEdge) -> Seq<TEdge> {
    let entered = status_with(status, t_edge);
    let left = left_neighbour(entered, t_edge.edge.origin.x)->0;
    status_with(
        status_without(entered, left.edge.origin.x),
        TEdge { edge: left.edge, helper: t_edge.helper },
    )
}

/// In a status in order, the edges left of `x` are exactly the first
/// `rank_of` ones.
pub proof fn lemma_rank(status: Seq<TEdge>, x: i32)
    requires
        status_sorted(status),
    ensures
        0 <= rank_of(status, x) <= status.len(),
        forall|k: int| 0 <= k < rank_of(status, x) ==> (#[trigger] status[k]).edge.origin.x < x,
        forall|k: int|
            rank_of(status, x) <= k < status.len() ==> (#[trigger] status[k]).edge.origin.x >= x,
        status_has(status, x) <==> rank_of(status, x) < status.len() && status[rank_of(
            status,
            x,
        )].edge.origin.x == x,
    decreases status.len(),
{
    if status.len() > 0 {
        let rest = status.drop_last();
        lemma_rank(rest, x);
        let r = rank_of(rest, x);
        assert forall|k: int| 0 <= k < rank_of(status, x) implies (#[trigger] status[k]).edge.origin.x
            < x by {
            if k < rest.len() {
                assert(status[k] == rest[k]);
                if k >= r {
                    assert(status[k].edge.origin.x < status.last().edge.origin.x);
                }
            }
        }
        assert forall|k: int| rank_of(status, x) <= k < status.len() implies (
        #[trigger] status[k]).edge.origin.x >= x by {
            if k < rest.len() {
                assert(status[k] == rest[k]);
            }
        }
    }
}

/// Putting an edge into the status keeps what lies left of it.
#[verifier::rlimit(40)]
pub proof fn lemma_left_neighbour_kept(status: Seq<TEdge>, t_edge: TEdge)
    requires
        status_sorted(status),
    ensures
        left_neighbour(status_with(status, t_edge), t_edge.edge.origin.x) == left_neighbour(
            status,
            t_edge.edge.origin.x,
        ),
        status_sorted(status_with(status, t_edge)),
{
    let x = t_edge.edge.origin.x;
    let after = status_with(status, t_edge);
    lemma_rank(status, x);
    lemma_status_with_sorted(status, t_edge);
    lemma_rank(after, x);
    let r = rank_of(status, x);
    let q = rank_of(after, x);
    if !status_has(status, x) {
        assert(after[r] == t_edge);
        if q < r {
            assert(after[q] == status[q]);
        }
        if q > r {
            assert(after[r].edge.origin.x < x);
        }
        if r > 0 {
            assert(after[r - 1] == status[r - 1]);
        }
    }
}

/// Putting an edge into a status in order leaves it in order.
pub proof fn lemma_status_with_sorted(status: Seq<TEdge>, t_edge: TEdge)
    requires
        status_sorted(status),
    ensures
        status_sorted(status_with(status, t_edge)),
{
    let x = t_edge.edge.origin.x;
    lemma_rank(status, x);
    let r = rank_of(status, x);
    let after = status_with(status, t_edge);
    if !status_has(status, x) {
        assert forall|i: int, j: int| 0 <= i < j < after.len() implies after[i].edge.origin.x
            < after[j].edge.origin.x by {
            let i0 = if i < r { i } else { i - 1 };
            let j0 = if j < r { j } else { j - 1 };
            if i != r {
                assert(after[i] == status[i0]);
            }
            if j != r {
                assert(after[j] == status[j0]);
            }
        }
    }
}

} // verus!
