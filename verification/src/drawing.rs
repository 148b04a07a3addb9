//! The geometry compiler: from paths to the attribute streams of a renderer.
//!
//! A drawing collects, for every triangle that its paths give rise to, three
//! vertices with a depth, two control points for each of the three edges, a
//! fill colour, a stroke colour, the stroke thickness of each edge, and whether
//! the triangle is filled.  The streams are flat: three consecutive entries
//! belong to one triangle.
//!
//! Positions are written on a grid six times as fine as that of the paths.
//! On it the middle of every segment and the thirds of every edge are grid
//! points, so nothing that is written is rounded.

use vstd::prelude::*;
use std::collections::HashMap;
use crate::geometry::Point;
use crate::error::TrdlError;
use crate::path::{Path, Color};
use crate::triangulation::triangulate;
use crate::clipping::{is_ear_clipping, stuck_after};
use crate::convex::convex_position;

verus! {

/// A point on one of the finer grids of the output.  The vertices of a path
/// lie on the grid of the path.  The middle of a segment lies on the middle
/// grid, which is twice as fine.  The streams are written on the stream grid,
/// which is three times as fine again, so that the thirds of any segment
/// between points of the middle grid are points of it.
pub type WidePoint = (i64, i64);

/// The number of depth levels.  The `k`-th path of a drawing is drawn at depth
/// `MAX_DEPTH - k`, out of `MAX_DEPTH`.
pub const MAX_DEPTH: i64 = 500_000;

/// How far, in steps of the path's grid, the third corner of a segment's
/// triangle is set off from a segment that runs along an axis.
pub const OFFSET: i64 = 5;

/// Steps of the stream grid per step of the path's grid.
pub const FINE: i64 = 6;

/// A path vertex as a point of the middle grid.
pub open spec fn doubled(p: Point) -> WidePoint {
    ((2 * p.0) as i64, (2 * p.1) as i64)
}

/// A point of the middle grid as a point of the stream grid.
pub open spec fn tripled(m: WidePoint) -> WidePoint {
    ((3 * m.0) as i64, (3 * m.1) as i64)
}

/// A path vertex as a point of the stream grid.
pub open spec fn widen(p: Point) -> WidePoint {
    ((FINE * p.0) as i64, (FINE * p.1) as i64)
}

/// The control points that make a cubic curve of the straight line from
/// `first` to `last`: the points a third and two thirds of the way along it.
/// The two ends are given on the middle grid, the control points on the stream
/// grid, where they are exact.
pub open spec fn line_control_points(first: WidePoint, last: WidePoint) -> (WidePoint, WidePoint) {
    (
        ((2 * first.0 + last.0) as i64, (2 * first.1 + last.1) as i64),
        ((first.0 + 2 * last.0) as i64, (first.1 + 2 * last.1) as i64),
    )
}

/// The control points of a line can be written: none of their coordinates
/// leaves the range of the stream grid.
pub open spec fn thirds_fit(first: WidePoint, last: WidePoint) -> bool {
    &&& i64::MIN <= 2 * first.0 + last.0 <= i64::MAX
    &&& i64::MIN <= 2 * first.1 + last.1 <= i64::MAX
    &&& i64::MIN <= first.0 + 2 * last.0 <= i64::MAX
    &&& i64::MIN <= first.1 + 2 * last.1 <= i64::MAX
}

/// The control points lie on the line from `first` to `last`, a third and two
/// thirds of the way along it: three times the step from `first` to the first
/// control point is the step from `first` to `last`, and so on.
pub proof fn lemma_control_points_are_thirds(first: WidePoint, last: WidePoint)
    requires
        thirds_fit(first, last),
    ensures
        ({
            let (c1, c2) = line_control_points(first, last);
            &&& 3 * (c1.0 - 3 * first.0) == 3 * last.0 - 3 * first.0
            &&& 3 * (c1.1 - 3 * first.1) == 3 * last.1 - 3 * first.1
            &&& 3 * (c2.0 - 3 * first.0) == 2 * (3 * last.0 - 3 * first.0)
            &&& 3 * (c2.1 - 3 * first.1) == 2 * (3 * last.1 - 3 * first.1)
        }),
{
}

/// Chooses the control points that draw the straight line from `first` to
/// `last` as a cubic curve.  The ends are taken on the middle grid; the control
/// points are given on the stream grid.
pub fn bezier_line_control_points(first: WidePoint, last: WidePoint) -> (cps: (WidePoint, WidePoint))
    requires
        thirds_fit(first, last),
    ensures
        cps == line_control_points(first, last),
{
    let v1: WidePoint = (
        (2 * (first.0 as i128) + last.0 as i128) as i64,
        (2 * (first.1 as i128) + last.1 as i128) as i64,
    );
    let v2: WidePoint = (
        (first.0 as i128 + 2 * (last.0 as i128)) as i64,
        (first.1 as i128 + 2 * (last.1 as i128)) as i64,
    );
    (v1, v2)
}

/// Writes `value` three times: once for each vertex of a triangle.
pub fn push3(vec: &mut Vec<u32>, value: Color)
    ensures
        final(vec)@ == old(vec)@ + thrice(value),
{
    vec.push(value[0]);
    vec.push(value[1]);
    vec.push(value[2]);

    vec.push(value[0]);
    vec.push(value[1]);
    vec.push(value[2]);

    vec.push(value[0]);
    vec.push(value[1]);
    vec.push(value[2]);
    proof {
        assert(vec@ =~= old(vec)@ + thrice(value));
    }
}

/// A colour, three times over.
pub open spec fn thrice(value: Color) -> Seq<u32> {
    seq![
        value[0],
        value[1],
        value[2],
        value[0],
        value[1],
        value[2],
        value[0],
        value[1],
        value[2],
    ]
}

/// The directed edge from vertex `i` to vertex `j` runs along the boundary of a
/// polygon whose last vertex is `max`: `j` follows `i`, or `i` is the last
/// vertex and `j` the first.
pub open spec fn boundary_edge(i: usize, j: usize, max: usize) -> bool {
    (j == 0 && i == max) || j == i + 1
}

/// Tells which edges of the triangle `i0, i1, i2` lie on the boundary of the
/// polygon whose last vertex is `max`.  The answers are given in the order in
/// which the edge stream wants them: first for the edge from `i1` to `i2`, then
/// for the edge from `i2` to `i0`, then for the edge from `i0` to `i1`.
pub fn triangle_edges(i0: usize, i1: usize, i2: usize, max: usize) -> (edges: (bool, bool, bool))
    ensures
        edges.0 == boundary_edge(i1, i2, max),
        edges.1 == boundary_edge(i2, i0, max),
        edges.2 == boundary_edge(i0, i1, max),
{
    let e2 = i1 == 0 && i0 == max || (i1 > i0 && i1 - i0 == 1);
    let e0 = i2 == 0 && i1 == max || (i2 > i1 && i2 - i1 == 1);
    let e1 = i0 == 0 && i2 == max || (i0 > i2 && i0 - i2 == 1);
    (e0, e1, e2)
}

/// The third corner that makes a triangle of the segment from `p0` to `p1`,
/// as a point of the middle grid.
///
/// For a slanted segment it lies at the middle of the segment in x, and in y at
/// the height of the end that keeps the triangle counter-clockwise.  For a
/// segment along an axis it lies at the middle of the segment, set off by
/// `OFFSET` to the side that keeps the triangle counter-clockwise.  Two equal
/// points have no such corner.
pub open spec fn extra_point(p0: Point, p1: Point) -> Option<WidePoint> {
    let mid_x = (p0.0 + p1.0) as i64;
    let mid_y = (p0.1 + p1.1) as i64;
    if p1.0 > p0.0 {
        if p1.1 > p0.1 {
            Some((mid_x, (2 * p1.1) as i64))
        } else if p1.1 < p0.1 {
            Some((mid_x, (2 * p0.1) as i64))
        } else {
            Some((mid_x, (2 * p0.1 + 2 * OFFSET) as i64))
        }
    } else if p1.0 < p0.0 {
        if p1.1 > p0.1 {
            Some((mid_x, (2 * p0.1) as i64))
        } else if p1.1 < p0.1 {
            Some((mid_x, (2 * p1.1) as i64))
        } else {
            Some((mid_x, (2 * p0.1 - 2 * OFFSET) as i64))
        }
    } else {
        if p1.1 > p0.1 {
            Some(((2 * p0.0 - 2 * OFFSET) as i64, mid_y))
        } else if p1.1 < p0.1 {
            Some(((2 * p0.0 + 2 * OFFSET) as i64, mid_y))
        } else {
            None
        }
    }
}

/// The point `e` of the middle grid lies strictly to the left of the line from
/// `p0` to `p1`, so that `p0`, `p1`, `e` make a counter-clockwise triangle that
/// is not flat.
pub open spec fn strictly_left(e: WidePoint, p0: Point, p1: Point) -> bool {
    (e.0 - 2 * p0.0) * (2 * p1.1 - 2 * p0.1) - (e.1 - 2 * p0.1) * (2 * p1.0 - 2 * p0.0) < 0
}

/// The extra point of a segment lies strictly to the left of the segment.
pub proof fn lemma_extra_point_left(p0: Point, p1: Point)
    requires
        p0 != p1,
    ensures
        extra_point(p0, p1) matches Some(e) && strictly_left(e, p0, p1),
{
    let dx = p1.0 - p0.0;
    let dy = p1.1 - p0.1;
    let e = extra_point(p0, p1)->0;
    let ex = e.0 - 2 * p0.0;
    let ey = e.1 - 2 * p0.1;
    assert(2 * p1.1 - 2 * p0.1 == 2 * dy && 2 * p1.0 - 2 * p0.0 == 2 * dx);
    if dx != 0 {
        assert(ex == dx);
        if dy != 0 {
            // ey is 2 * dy or 0, whichever leaves the product negative
            assert(ex * (2 * dy) - ey * (2 * dx) < 0) by (nonlinear_arith)
                requires
                    ex == dx,
                    dx != 0,
                    dy != 0,
                    (dx > 0) == (dy > 0) ==> ey == 2 * dy,
                    (dx > 0) != (dy > 0) ==> ey == 0,
            ;
        } else {
            assert(ex * (2 * dy) - ey * (2 * dx) < 0) by (nonlinear_arith)
                requires
                    dy == 0,
                    dx != 0,
                    dx > 0 ==> ey == 10,
                    dx < 0 ==> ey == -10,
            ;
        }
    } else {
        assert(ey == dy);
        assert(ex * (2 * dy) - ey * (2 * dx) < 0) by (nonlinear_arith)
            requires
                dx == 0,
                dy != 0,
                dy > 0 ==> ex == -10,
                dy < 0 ==> ex == 10,
        ;
    }
}

/// Makes a third point such that the three points form a triangle, wound
/// counter-clockwise and not flat.  The point is given on the middle grid.
/// Fails with `NonSimplePolygon` where the two points are the same.
pub fn make_extra_point(p0: Point, p1: Point) -> (r: Result<WidePoint, TrdlError>)
    ensures
        r matches Ok(p) ==> extra_point(p0, p1) == Some(p) && strictly_left(p, p0, p1),
        r matches Err(e) ==> extra_point(p0, p1) is None && e is NonSimplePolygon,
        r is Err <==> p0 == p1,
{
    let mid_x: i64 = p0.0 as i64 + p1.0 as i64;
    let mid_y: i64 = p0.1 as i64 + p1.1 as i64;
    let x0: i64 = 2 * (p0.0 as i64);
    let y0: i64 = 2 * (p0.1 as i64);
    let y1: i64 = 2 * (p1.1 as i64);
    proof {
        if p0 != p1 {
            lemma_extra_point_left(p0, p1);
        }
    }
    if p1.0 > p0.0 {
        if p1.1 > p0.1 {
            Ok((mid_x, y1))
        } else if p1.1 < p0.1 {
            Ok((mid_x, y0))
        } else {
            Ok((mid_x, y0 + 2 * OFFSET))
        }
    } else if p1.0 < p0.0 {
        if p1.1 > p0.1 {
            Ok((mid_x, y0))
        } else if p1.1 < p0.1 {
            Ok((mid_x, y1))
        } else {
            Ok((mid_x, y0 - 2 * OFFSET))
        }
    } else {
        if p1.1 > p0.1 {
            Ok((x0 - 2 * OFFSET, mid_y))
        } else if p1.1 < p0.1 {
            Ok((x0 + 2 * OFFSET, mid_y))
        } else {
            Err(TrdlError::NonSimplePolygon)
        }
    }
}

/// The key under which the control points of the directed edge from vertex
/// `i0` to vertex `i1` are kept.  Different edges have different keys.
pub open spec fn edge_key(i0: usize, i1: usize) -> u128 {
    (i0 * 0x1_0000_0000_0000_0000 + i1) as u128
}

/// Computes the key of a directed edge.
fn pair_key(i0: usize, i1: usize) -> (key: u128)
    ensures
        key == edge_key(i0, i1),
{
    (i0 as u128) * 0x1_0000_0000_0000_0000u128 + (i1 as u128)
}

/// Different directed edges have different keys.
pub proof fn lemma_edge_key_injective(a0: usize, a1: usize, b0: usize, b1: usize)
    requires
        edge_key(a0, a1) == edge_key(b0, b1),
    ensures
        a0 == b0,
        a1 == b1,
{
}

/// The three stream entries of a vertex: x, y and depth.
pub open spec fn corner(p: WidePoint, depth: i64) -> Seq<i64> {
    seq![p.0, p.1, depth]
}

/// The two stream entries of a control point: x and y.
pub open spec fn flat(p: WidePoint) -> Seq<i64> {
    seq![p.0, p.1]
}

/// For straight edges the control points are computed from the end points, for
/// curves they are given.  This writes the vertex `i0` of `polygon`, and the
/// control points of the edge from `i0` to `i1`: those kept in
/// `control_point_map` under that edge, if there are any, and otherwise the
/// control points of a straight line, which are then kept for the next time.
pub fn get_control_points(
    polygon: &Vec<Point>,
    i0: usize,
    i1: usize,
    depth: i64,
    control_point_map: &mut HashMap<u128, (WidePoint, WidePoint)>,
    vs: &mut Vec<i64>,
    cp1s: &mut Vec<i64>,
    cp2s: &mut Vec<i64>,
)
    requires
        i0 < polygon.len(),
        i1 < polygon.len(),
    ensures
        final(vs)@ == old(vs)@ + corner(widen(polygon[i0 as int]), depth),
        final(cp1s)@ == old(cp1s)@ + flat(
            kept_or_line(old(control_point_map)@, polygon@, i0, i1).0,
        ),
        final(cp2s)@ == old(cp2s)@ + flat(
            kept_or_line(old(control_point_map)@, polygon@, i0, i1).1,
        ),
        final(control_point_map)@ == old(control_point_map)@.insert(
            edge_key(i0, i1),
            kept_or_line(old(control_point_map)@, polygon@, i0, i1),
        ),
{
    broadcast use vstd::std_specs::hash::group_hash_axioms;

    let p0 = polygon[i0];
    let p1 = polygon[i1];
    let v0: WidePoint = (2 * (p0.0 as i64), 2 * (p0.1 as i64));
    let v1: WidePoint = (2 * (p1.0 as i64), 2 * (p1.1 as i64));
    vs.push(FINE * (p0.0 as i64));
    vs.push(FINE * (p0.1 as i64));
    vs.push(depth);
    let key = pair_key(i0, i1);
    let cp1;
    let cp2;
    let mut insert = false;
    if let Some(cp12) = control_point_map.get(&key) {
        cp1 = cp12.0;
        cp2 = cp12.1;
    } else {
        let (a, b) = bezier_line_control_points(v0, v1);
        cp1 = a;
        cp2 = b;
        insert = true;
    }
    if insert {
        control_point_map.insert(key, (cp1, cp2));
    }
    cp1s.push(cp1.0);
    cp1s.push(cp1.1);
    cp2s.push(cp2.0);
    cp2s.push(cp2.1);
    proof {
        assert(vs@ =~= old(vs)@ + corner(widen(polygon[i0 as int]), depth));
        assert(cp1s@ =~= old(cp1s)@ + flat(cp1));
        assert(cp2s@ =~= old(cp2s)@ + flat(cp2));
        assert(control_point_map@ =~= old(control_point_map)@.insert(key, (cp1, cp2)));
    }
}

/// The control points of the edge from `i0` to `i1`: those that `kept` holds
/// for it, or else those of the straight line between the two vertices.
pub open spec fn kept_or_line(
    kept: Map<u128, (WidePoint, WidePoint)>,
    polygon: Seq<Point>,
    i0: usize,
    i1: usize,
) -> (WidePoint, WidePoint) {
    if kept.contains_key(edge_key(i0, i1)) {
        kept[edge_key(i0, i1)]
    } else {
        line_control_points(doubled(polygon[i0 as int]), doubled(polygon[i1 as int]))
    }
}

/// The seven attribute streams, as sequences.
pub struct Streams {
    /// Three entries per vertex: x, y, depth.
    pub vertices: Seq<i64>,
    /// Two entries per vertex: the first control point of the edge that starts
    /// there.
    pub control_point_1s: Seq<i64>,
    /// Two entries per vertex: the second control point of that edge.
    pub control_point_2s: Seq<i64>,
    /// Three entries per vertex: the fill colour.
    pub fill_colors: Seq<u32>,
    /// One entry per vertex: the stroke thickness of an edge, or zero.
    pub stroke_edges: Seq<u32>,
    /// Three entries per vertex: the stroke colour.
    pub stroke_colors: Seq<u32>,
    /// One entry per vertex: one if the triangle is filled, zero if not.
    pub do_fill: Seq<i32>,
}

impl Streams {
    /// Streams without entries.
    pub open spec fn empty() -> Streams {
        Streams {
            vertices: Seq::empty(),
            control_point_1s: Seq::empty(),
            control_point_2s: Seq::empty(),
            fill_colors: Seq::empty(),
            stroke_edges: Seq::empty(),
            stroke_colors: Seq::empty(),
            do_fill: Seq::empty(),
        }
    }

    /// These streams with those of `more` behind them.
    pub open spec fn followed_by(self, more: Streams) -> Streams {
        Streams {
            vertices: self.vertices + more.vertices,
            control_point_1s: self.control_point_1s + more.control_point_1s,
            control_point_2s: self.control_point_2s + more.control_point_2s,
            fill_colors: self.fill_colors + more.fill_colors,
            stroke_edges: self.stroke_edges + more.stroke_edges,
            stroke_colors: self.stroke_colors + more.stroke_colors,
            do_fill: self.do_fill + more.do_fill,
        }
    }

    /// The streams hold `count` triangles: each has as many entries as that
    /// takes.
    pub open spec fn holds_triangles(self, count: int) -> bool {
        &&& self.vertices.len() == 9 * count
        &&& self.control_point_1s.len() == 6 * count
        &&& self.control_point_2s.len() == 6 * count
        &&& self.fill_colors.len() == 9 * count
        &&& self.stroke_edges.len() == 3 * count
        &&& self.stroke_colors.len() == 9 * count
        &&& self.do_fill.len() == 3 * count
    }
}

/// The colour written where a path has none.
pub open spec fn no_color() -> Color {
    [0u32, 0u32, 0u32]
}

/// The segment from vertex `i0` to vertex `i1` of a closed path is one of its
/// own segments and was given control points.
pub open spec fn explicit_segment(path: Path, i0: usize, i1: usize) -> bool {
    let n = path.vertex_seq().len();
    &&& i0 < n
    &&& path.control_1_seq()[i0 as int] is Some
    &&& (i0 + 1 < n && i1 == i0 + 1) || (i0 + 1 == n && i1 == 0)
}

/// The control points of the directed edge from vertex `i0` to vertex `i1` of a
/// closed path: those given for it, where it is a curved segment of the path,
/// and those of a straight line otherwise.
pub open spec fn edge_curve(path: Path, i0: usize, i1: usize) -> (WidePoint, WidePoint) {
    if explicit_segment(path, i0, i1) {
        (
            widen(path.control_1_seq()[i0 as int]->0),
            widen(path.control_2_seq()[i0 as int]->0),
        )
    } else {
        line_control_points(
            doubled(path.vertex_seq()[i0 as int]),
            doubled(path.vertex_seq()[i1 as int]),
        )
    }
}

/// The thickness written for an edge: that of the stroke on the boundary, zero
/// inside.
pub open spec fn edge_thickness(on_boundary: bool, thickness: u32) -> u32 {
    if on_boundary {
        thickness
    } else {
        0
    }
}

/// What the triangle `a, b, c` of a closed path adds to the streams.
pub open spec fn closed_patch(path: Path, a: usize, b: usize, c: usize, depth: i64) -> Streams {
    let points = path.vertex_seq();
    let max = (points.len() - 1) as usize;
    Streams {
        vertices: corner(widen(points[a as int]), depth) + corner(widen(points[b as int]), depth)
            + corner(widen(points[c as int]), depth),
        control_point_1s: flat(edge_curve(path, a, b).0) + flat(edge_curve(path, b, c).0) + flat(
            edge_curve(path, c, a).0,
        ),
        control_point_2s: flat(edge_curve(path, a, b).1) + flat(edge_curve(path, b, c).1) + flat(
            edge_curve(path, c, a).1,
        ),
        fill_colors: match path.fill() {
            Some(color) => thrice(color),
            None => thrice(no_color()),
        },
        stroke_edges: match path.stroke_style() {
            Some(stroke) => seq![
                edge_thickness(boundary_edge(b, c, max), stroke.1),
                edge_thickness(boundary_edge(c, a, max), stroke.1),
                edge_thickness(boundary_edge(a, b, max), stroke.1),
            ],
            None => seq![0u32, 0u32, 0u32],
        },
        stroke_colors: match path.stroke_style() {
            Some(stroke) => thrice(stroke.0),
            None => thrice(no_color()),
        },
        do_fill: match path.fill() {
            Some(_) => seq![1i32, 1i32, 1i32],
            None => seq![0i32, 0i32, 0i32],
        },
    }
}

/// What the first `count` triangles of the index stream `triangles` add to the
/// streams, for a closed path.
pub open spec fn closed_patches(path: Path, triangles: Seq<usize>, count: nat, depth: i64) -> Streams
    decreases count,
{
    if count == 0 {
        Streams::empty()
    } else {
        let k = count - 1;
        closed_patches(path, triangles, k as nat, depth).followed_by(
            closed_patch(path, triangles[3 * k], triangles[3 * k + 1], triangles[3 * k + 2], depth),
        )
    }
}

/// The control points of segment `i` of an open path: those given for it, or
/// those of a straight line.
pub open spec fn segment_curve(path: Path, i: int) -> (WidePoint, WidePoint) {
    if path.control_1_seq()[i] is Some {
        (widen(path.control_1_seq()[i]->0), widen(path.control_2_seq()[i]->0))
    } else {
        line_control_points(doubled(path.vertex_seq()[i]), doubled(path.vertex_seq()[i + 1]))
    }
}

/// What segment `i` of an open, stroked path adds to the streams: a triangle of
/// the segment and its extra point, of which only the segment itself is
/// stroked, and nothing is filled.
pub open spec fn open_patch(path: Path, i: int, depth: i64) -> Streams {
    let v0 = path.vertex_seq()[i];
    let v1 = path.vertex_seq()[i + 1];
    let v2 = extra_point(v0, v1)->0;
    let stroke = path.stroke_style()->0;
    Streams {
        vertices: corner(widen(v0), depth) + corner(widen(v1), depth) + corner(tripled(v2), depth),
        control_point_1s: flat(segment_curve(path, i).0) + flat(
            line_control_points(doubled(v1), v2).0,
        ) + flat(line_control_points(v2, doubled(v0)).0),
        control_point_2s: flat(segment_curve(path, i).1) + flat(
            line_control_points(doubled(v1), v2).1,
        ) + flat(line_control_points(v2, doubled(v0)).1),
        fill_colors: thrice(no_color()),
        stroke_edges: seq![0u32, 0u32, stroke.1],
        stroke_colors: thrice(stroke.0),
        do_fill: seq![0i32, 0i32, 0i32],
    }
}

/// What the first `count` segments of an open, stroked path add to the streams.
pub open spec fn open_patches(path: Path, count: nat, depth: i64) -> Streams
    decreases count,
{
    if count == 0 {
        Streams::empty()
    } else {
        open_patches(path, (count - 1) as nat, depth).followed_by(
            open_patch(path, count - 1, depth),
        )
    }
}

/// No segment of the path has two equal ends.
pub open spec fn segments_have_length(path: Path) -> bool {
    forall|i: int|
        0 <= i < path.vertex_seq().len() - 1 ==> #[trigger] path.vertex_seq()[i]
            != path.vertex_seq()[i + 1]
}

/// The depth at which the `k`-th path of a drawing is drawn.
pub open spec fn depth_of(k: nat) -> i64 {
    (MAX_DEPTH - k) as i64
}

/// The kept control points agree with the path: whatever is kept for an edge
/// is the curve of that edge, and every curved segment of the path is kept.
pub open spec fn cache_sound(kept: Map<u128, (WidePoint, WidePoint)>, path: Path) -> bool {
    &&& forall|i0: usize, i1: usize|
        kept.contains_key(#[trigger] edge_key(i0, i1)) ==> kept[edge_key(i0, i1)] == edge_curve(
            path,
            i0,
            i1,
        )
    &&& forall|i0: usize, i1: usize|
        explicit_segment(path, i0, i1) ==> kept.contains_key(#[trigger] edge_key(i0, i1))
}

/// Collects the control points of the curved segments of a closed path, each
/// under the key of its edge: segment `i` runs from vertex `i` to vertex
/// `i + 1`, the last one from the last vertex back to the first.
#[verifier::rlimit(40)]
fn explicit_control_points(path: &Path) -> (kept: HashMap<u128, (WidePoint, WidePoint)>)
    requires
        path.closed(),
    ensures
        cache_sound(kept@, *path),
{
    broadcast use vstd::std_specs::hash::group_hash_axioms;

    let mut kept: HashMap<u128, (WidePoint, WidePoint)> = HashMap::new();
    let vertices = path.vertices();
    let cp1s = path.control_point_1s();
    let cp2s = path.control_point_2s();
    let n = vertices.len();
    let last = n - 1;
    let mut i: usize = 0;
    while i < last
        invariant
            n == path.vertex_seq().len(),
            last == n - 1,
            i <= last,
            path.consistent(),
            path.closed(),
            cp1s@ == path.control_1_seq(),
            cp2s@ == path.control_2_seq(),
            forall|i0: usize, i1: usize|
                kept@.contains_key(#[trigger] edge_key(i0, i1)) <==> i0 < i && explicit_segment(
                    *path,
                    i0,
                    i1,
                ),
            forall|i0: usize, i1: usize|
                kept@.contains_key(#[trigger] edge_key(i0, i1)) ==> kept@[edge_key(i0, i1)]
                    == edge_curve(*path, i0, i1),
        decreases last - i,
    {
        match (cp1s[i], cp2s[i]) {
            (Some(cp1), Some(cp2)) => {
                let key = pair_key(i, i + 1);
                kept.insert(
                    key,
                    (
                        (FINE * (cp1.0 as i64), FINE * (cp1.1 as i64)),
                        (FINE * (cp2.0 as i64), FINE * (cp2.1 as i64)),
                    ),
                );
            },
            _ => {},
        }
        i += 1;
    }
    match (cp1s[last], cp2s[last]) {
        (Some(cp1), Some(cp2)) => {
            let key = pair_key(last, 0);
            kept.insert(
                    key,
                    (
                        (FINE * (cp1.0 as i64), FINE * (cp1.1 as i64)),
                        (FINE * (cp2.0 as i64), FINE * (cp2.1 as i64)),
                    ),
                );
        },
        _ => {},
    }
    kept
}

/// Everything a renderer needs to draw a set of paths.  Paths are added to the
/// drawing, which compiles them into its streams.
pub struct Drawing {
    window_size: (u32, u32),
    vertices: Vec<i64>,
    control_point_1s: Vec<i64>,
    control_point_2s: Vec<i64>,
    fill_colors: Vec<u32>,
    stroke_edges: Vec<u32>,
    stroke_colors: Vec<u32>,
    do_fill: Vec<i32>,
    background_color: Color,
    depth_idx: usize,
    num_tris: usize,
    remake: bool,
}

impl Drawing {
    /// The streams as they stand.
    pub closed spec fn streams(&self) -> Streams {
        Streams {
            vertices: self.vertices@,
            control_point_1s: self.control_point_1s@,
            control_point_2s: self.control_point_2s@,
            fill_colors: self.fill_colors@,
            stroke_edges: self.stroke_edges@,
            stroke_colors: self.stroke_colors@,
            do_fill: self.do_fill@,
        }
    }

    /// The number of paths compiled since the drawing was new or cleared.
    pub closed spec fn depth_index(&self) -> nat {
        self.depth_idx as nat
    }

    /// The number of triangles that the path added last gave rise to.
    pub closed spec fn triangle_count(&self) -> nat {
        self.num_tris as nat
    }

    /// Whether the streams have changed since they were last handed out for
    /// drawing.
    pub closed spec fn stale(&self) -> bool {
        self.remake
    }

    /// The size of the window, as width and height.
    pub closed spec fn size(&self) -> (u32, u32) {
        self.window_size
    }

    /// The background colour.
    pub closed spec fn background(&self) -> Color {
        self.background_color
    }

    /// Another path can be added: the count of paths can still grow, and the
    /// depth of the next path can be written.
    pub open spec fn has_room(&self) -> bool {
        self.depth_index() < usize::MAX && self.depth_index() < i64::MAX
    }

    /// An empty drawing for a window of the given size and background colour.
    pub fn new(width: u32, height: u32, bg_red: u32, bg_green: u32, bg_blue: u32) -> (drawing: Self)
        ensures
            drawing.streams() == Streams::empty(),
            drawing.depth_index() == 0,
            drawing.triangle_count() == 0,
            drawing.stale(),
            drawing.size() == (width, height),
            drawing.background() == [bg_red, bg_green, bg_blue],
    {
        Drawing {
            window_size: (width, height),
            vertices: Vec::new(),
            control_point_1s: Vec::new(),
            control_point_2s: Vec::new(),
            fill_colors: Vec::new(),
            stroke_edges: Vec::new(),
            stroke_colors: Vec::new(),
            do_fill: Vec::new(),
            background_color: [bg_red, bg_green, bg_blue],
            depth_idx: 0,
            num_tris: 0,
            remake: true,
        }
    }

    /// The position stream: x, y and depth of each vertex.
    pub fn vertices(&self) -> (v: &Vec<i64>)
        ensures
            v@ == self.streams().vertices,
    {
        &self.vertices
    }

    /// The stream of first control points.
    pub fn control_point_1s(&self) -> (v: &Vec<i64>)
        ensures
            v@ == self.streams().control_point_1s,
    {
        &self.control_point_1s
    }

    /// The stream of second control points.
    pub fn control_point_2s(&self) -> (v: &Vec<i64>)
        ensures
            v@ == self.streams().control_point_2s,
    {
        &self.control_point_2s
    }

    /// The stream of fill colours.
    pub fn fill_colors(&self) -> (v: &Vec<u32>)
        ensures
            v@ == self.streams().fill_colors,
    {
        &self.fill_colors
    }

    /// The stream of edge thicknesses.
    pub fn stroke_edges(&self) -> (v: &Vec<u32>)
        ensures
            v@ == self.streams().stroke_edges,
    {
        &self.stroke_edges
    }

    /// The stream of stroke colours.
    pub fn stroke_colors(&self) -> (v: &Vec<u32>)
        ensures
            v@ == self.streams().stroke_colors,
    {
        &self.stroke_colors
    }

    /// The stream of fill flags.
    pub fn do_fill(&self) -> (v: &Vec<i32>)
        ensures
            v@ == self.streams().do_fill,
    {
        &self.do_fill
    }

    /// The number of paths compiled since the drawing was new or cleared.
    pub fn depth_idx(&self) -> (k: usize)
        ensures
            k == self.depth_index(),
    {
        self.depth_idx
    }

    /// The number of triangles of the path added last.
    pub fn num_tris(&self) -> (k: usize)
        ensures
            k == self.triangle_count(),
    {
        self.num_tris
    }

    /// The size of the window, as width and height.
    pub fn window_size(&self) -> (size: (u32, u32))
        ensures
            size == self.size(),
    {
        self.window_size
    }

    /// The background colour.
    pub fn background_color(&self) -> (color: Color)
        ensures
            color == self.background(),
    {
        self.background_color
    }

    /// Whether the streams have changed since the last draw.
    pub fn is_stale(&self) -> (b: bool)
        ensures
            b == self.stale(),
    {
        self.remake
    }

    /// The drawing is as `before` was, but for whether it is stale.
    pub open spec fn unchanged_since(&self, before: &Drawing) -> bool {
        &&& self.streams() == before.streams()
        &&& self.depth_index() == before.depth_index()
        &&& self.triangle_count() == before.triangle_count()
        &&& self.size() == before.size()
        &&& self.background() == before.background()
    }

    /// The drawing is `before` with the triangles of one more path, `patches`,
    /// of which there are `count`.
    pub open spec fn extends(&self, before: &Drawing, patches: Streams, count: int) -> bool {
        &&& self.streams() == before.streams().followed_by(patches)
        &&& self.depth_index() == before.depth_index() + 1
        &&& self.triangle_count() == count
        &&& self.size() == before.size()
        &&& self.background() == before.background()
    }

    /// Adds a path to the drawing: a closed path by triangulating it, an open
    /// path by making a triangle of each segment.  The drawing becomes stale.
    /// Where the path is refused, the drawing is otherwise left as it was.
    pub fn add_path(&mut self, path: Path) -> (result: Result<(), TrdlError>)
        requires
            old(self).has_room(),
        ensures
            final(self).stale(),
            result is Err ==> final(self).unchanged_since(old(self)),
            path.closed() ==> closed_path_outcome(*old(self), path, result, *final(self)),
            !path.closed() ==> open_path_outcome(*old(self), path, result, *final(self)),
    {
        self.remake = true;
        if path.is_closed() {
            self.add_closed_path(path)
        } else {
            self.add_open_path(path)
        }
    }

    /// Triangulates a closed path and writes its triangles to the streams, at
    /// the depth after the one used last.
    pub fn add_closed_path(&mut self, path: Path) -> (result: Result<(), TrdlError>)
        requires
            path.closed(),
            old(self).has_room(),
        ensures
            final(self).stale() == old(self).stale(),
            result is Err ==> final(self).unchanged_since(old(self)),
            closed_path_outcome(*old(self), path, result, *final(self)),
    {
        let mut control_point_map = explicit_control_points(&path);
        let indices = match triangulate(path.vertices()) {
            Ok(indices) => indices,
            Err(e) => {
                return Err(e);
            },
        };
        self.depth_idx += 1;
        let depth = MAX_DEPTH - (self.depth_idx as i64);
        self.emit_triangles(&path, &indices, depth, &mut control_point_map);
        proof {
            let n = path.vertex_seq().len();
            assert(indices@.len() / 3 == n - 2);
            assert(is_ear_clipping(path.vertex_seq(), indices@));
        }
        Ok(())
    }

    /// Writes one triangle for each segment of an open path to the streams, at
    /// the depth after the one used last.  An open path must have a stroke, and
    /// none of its segments may have two equal ends.
    #[verifier::rlimit(40)]
    pub fn add_open_path(&mut self, path: Path) -> (result: Result<(), TrdlError>)
        requires
            !path.closed(),
            old(self).has_room(),
        ensures
            final(self).stale() == old(self).stale(),
            result is Err ==> final(self).unchanged_since(old(self)),
            open_path_outcome(*old(self), path, result, *final(self)),
    {
        let stroke = match path.stroke() {
            Some(stroke) => stroke,
            None => {
                return Err(TrdlError::NoVisibleGeometry);
            },
        };
        let points = path.vertices();
        let cp1s = path.control_point_1s();
        let count = points.len() - 1;
        let mut extras: Vec<WidePoint> = Vec::new();
        let mut i: usize = 0;
        while i < count
            invariant
                points@ == path.vertex_seq(),
                count == points.len() - 1,
                points.len() >= 1,
                i <= count,
                extras.len() == i,
                path.stroke_style() is Some,
                *self == *old(self),
                forall|j: int|
                    0 <= j < i ==> extra_point(points[j], points[j + 1]) == Some(
                        #[trigger] extras[j],
                    ),
            decreases count - i,
        {
            match make_extra_point(points[i], points[i + 1]) {
                Ok(p) => {
                    extras.push(p);
                },
                Err(e) => {
                    proof {
                        let v = path.vertex_seq();
                        assert(v[i as int] == v[i as int + 1]);
                        assert(!segments_have_length(path));
                    }
                    return Err(e);
                },
            }
            i += 1;
        }
        proof {
            assert forall|j: int| 0 <= j < points.len() - 1 implies #[trigger] points[j] != points[j
                + 1] by {
                assert(extra_point(points[j], points[j + 1]) == Some(extras[j]));
            }
        }
        self.num_tris = count;
        self.depth_idx += 1;
        let depth = MAX_DEPTH - (self.depth_idx as i64);
        let mut i: usize = 0;
        while i < count
            invariant
                points@ == path.vertex_seq(),
                count == points.len() - 1,
                points.len() >= 1,
                i <= count,
                !path.closed(),
                path.stroke_style() == Some(stroke),
                extras.len() == count,
                forall|j: int|
                    0 <= j < count ==> extra_point(points[j], points[j + 1]) == Some(
                        #[trigger] extras[j],
                    ),
                self.streams() == old(self).streams().followed_by(
                    open_patches(path, i as nat, depth),
                ),
                self.depth_idx == old(self).depth_idx + 1,
                self.num_tris == count,
                self.remake == old(self).remake,
                self.window_size == old(self).window_size,
                self.background_color == old(self).background_color,
            decreases count - i,
        {
            self.emit_segment(&path, i, extras[i], depth);
            proof {
                lemma_followed_by_assoc(
                    old(self).streams(),
                    open_patches(path, i as nat, depth),
                    open_patch(path, i as int, depth),
                );
            }
            i += 1;
        }
        Ok(())
    }

    /// Writes the triangle of one segment of an open, stroked path.
    #[verifier::rlimit(40)]
    fn emit_segment(&mut self, path: &Path, i: usize, v2: WidePoint, depth: i64)
        requires
            !path.closed(),
            path.stroke_style() is Some,
            i + 1 < path.vertex_seq().len(),
            extra_point(path.vertex_seq()[i as int], path.vertex_seq()[i + 1]) == Some(v2),
        ensures
            final(self).streams() == old(self).streams().followed_by(
                open_patch(*path, i as int, depth),
            ),
            final(self).depth_idx == old(self).depth_idx,
            final(self).num_tris == old(self).num_tris,
            final(self).remake == old(self).remake,
            final(self).window_size == old(self).window_size,
            final(self).background_color == old(self).background_color,
    {
        let points = path.vertices();
        let cp1s = path.control_point_1s();
        let cp2s = path.control_point_2s();
        let ghost before = self.streams();
        assert(i + 1 < points.len());
        let p0 = points[i];
        let p1 = points[i + 1];
        let v0: WidePoint = (2 * (p0.0 as i64), 2 * (p0.1 as i64));
        let v1: WidePoint = (2 * (p1.0 as i64), 2 * (p1.1 as i64));
        self.vertices.push(FINE * (p0.0 as i64));
        self.vertices.push(FINE * (p0.1 as i64));
        self.vertices.push(depth);
        self.vertices.push(FINE * (p1.0 as i64));
        self.vertices.push(FINE * (p1.1 as i64));
        self.vertices.push(depth);
        self.vertices.push(3 * v2.0);
        self.vertices.push(3 * v2.1);
        self.vertices.push(depth);

        let (cp1, cp2) = match (cp1s[i], cp2s[i]) {
            (Some(cp1), Some(cp2)) => (
                (FINE * (cp1.0 as i64), FINE * (cp1.1 as i64)),
                (FINE * (cp2.0 as i64), FINE * (cp2.1 as i64)),
            ),
            _ => bezier_line_control_points(v0, v1),
        };
        self.control_point_1s.push(cp1.0);
        self.control_point_1s.push(cp1.1);
        self.control_point_2s.push(cp2.0);
        self.control_point_2s.push(cp2.1);

        let (cp1, cp2) = bezier_line_control_points(v1, v2);
        self.control_point_1s.push(cp1.0);
        self.control_point_1s.push(cp1.1);
        self.control_point_2s.push(cp2.0);
        self.control_point_2s.push(cp2.1);

        let (cp1, cp2) = bezier_line_control_points(v2, v0);
        self.control_point_1s.push(cp1.0);
        self.control_point_1s.push(cp1.1);
        self.control_point_2s.push(cp2.0);
        self.control_point_2s.push(cp2.1);

        push3(&mut self.fill_colors, [0, 0, 0]);
        self.do_fill.push(0);
        self.do_fill.push(0);
        self.do_fill.push(0);
        match path.stroke() {
            Some((stroke_color, stroke_thickness)) => {
                push3(&mut self.stroke_colors, stroke_color);
                self.stroke_edges.push(0);
                self.stroke_edges.push(0);
                self.stroke_edges.push(stroke_thickness);
            },
            None => {},
        }
        proof {
            let patch = open_patch(*path, i as int, depth);
            let after = self.streams();
            assert(after.vertices =~= before.vertices + patch.vertices);
            assert(after.control_point_1s =~= before.control_point_1s + patch.control_point_1s);
            assert(after.control_point_2s =~= before.control_point_2s + patch.control_point_2s);
            assert(after.fill_colors =~= before.fill_colors + patch.fill_colors);
            assert(after.stroke_edges =~= before.stroke_edges + patch.stroke_edges);
            assert(after.stroke_colors =~= before.stroke_colors + patch.stroke_colors);
            assert(after.do_fill =~= before.do_fill + patch.do_fill);
        }
    }

    /// Removes all paths, so that the drawing can be used again.
    pub fn clear_paths(&mut self)
        ensures
            final(self).streams() == Streams::empty(),
            final(self).depth_index() == 0,
            final(self).triangle_count() == 0,
            final(self).stale(),
            final(self).size() == old(self).size(),
            final(self).background() == old(self).background(),
    {
        self.vertices.clear();
        self.control_point_1s.clear();
        self.control_point_2s.clear();
        self.fill_colors.clear();
        self.stroke_colors.clear();
        self.stroke_edges.clear();
        self.do_fill.clear();
        self.depth_idx = 0;
        self.num_tris = 0;
        self.remake = true;
    }

    /// Begins a draw: tells whether the streams have changed since the last
    /// one, so that they must be handed to the renderer again, and marks them
    /// as handed over.
    pub fn draw(&mut self) -> (upload: bool)
        ensures
            upload == old(self).stale(),
            !final(self).stale(),
            final(self).unchanged_since(old(self)),
    {
        let upload = self.remake;
        self.remake = false;
        upload
    }

    /// Sets a new window size.  The drawing becomes stale.
    pub fn set_size(&mut self, width: u32, height: u32)
        ensures
            final(self).size() == (width, height),
            final(self).stale(),
            final(self).streams() == old(self).streams(),
            final(self).depth_index() == old(self).depth_index(),
            final(self).triangle_count() == old(self).triangle_count(),
            final(self).background() == old(self).background(),
    {
        self.remake = true;
        self.window_size = (width, height);
    }

    /// Writes one triangle of a closed path to the streams.
    #[verifier::rlimit(40)]
    fn emit_triangle(
        &mut self,
        path: &Path,
        a: usize,
        b: usize,
        c: usize,
        depth: i64,
        control_point_map: &mut HashMap<u128, (WidePoint, WidePoint)>,
    )
        requires
            a < path.vertex_seq().len(),
            b < path.vertex_seq().len(),
            c < path.vertex_seq().len(),
            cache_sound(old(control_point_map)@, *path),
        ensures
            final(self).streams() == old(self).streams().followed_by(
                closed_patch(*path, a, b, c, depth),
            ),
            cache_sound(final(control_point_map)@, *path),
            final(self).depth_idx == old(self).depth_idx,
            final(self).num_tris == old(self).num_tris,
            final(self).remake == old(self).remake,
            final(self).window_size == old(self).window_size,
            final(self).background_color == old(self).background_color,
    {
        let points = path.vertices();
        let stroke = path.stroke();
        let fill_color = path.fill_color();
        let num_verts = points.len();
        let ghost before = self.streams();
        let ghost kept0 = control_point_map@;
        get_control_points(
            points,
            a,
            b,
            depth,
            control_point_map,
            &mut self.vertices,
            &mut self.control_point_1s,
            &mut self.control_point_2s,
        );
        proof {
            lemma_cache_step(kept0, control_point_map@, *path, a, b);
        }
        let ghost kept1 = control_point_map@;
        get_control_points(
            points,
            b,
            c,
            depth,
            control_point_map,
            &mut self.vertices,
            &mut self.control_point_1s,
            &mut self.control_point_2s,
        );
        proof {
            lemma_cache_step(kept1, control_point_map@, *path, b, c);
        }
        let ghost kept2 = control_point_map@;
        get_control_points(
            points,
            c,
            a,
            depth,
            control_point_map,
            &mut self.vertices,
            &mut self.control_point_1s,
            &mut self.control_point_2s,
        );
        proof {
            lemma_cache_step(kept2, control_point_map@, *path, c, a);
        }
        match stroke {
            Some(stroke) => {
                push3(&mut self.stroke_colors, stroke.0);
                let thickness = stroke.1;
                let (e0, e1, e2) = triangle_edges(a, b, c, num_verts - 1);
                self.stroke_edges.push(if e0 { thickness } else { 0 });
                self.stroke_edges.push(if e1 { thickness } else { 0 });
                self.stroke_edges.push(if e2 { thickness } else { 0 });
            },
            None => {
                push3(&mut self.stroke_colors, [0, 0, 0]);
                self.stroke_edges.push(0);
                self.stroke_edges.push(0);
                self.stroke_edges.push(0);
            },
        }
        match fill_color {
            Some(fill_color) => {
                push3(&mut self.fill_colors, fill_color);
                self.do_fill.push(1);
                self.do_fill.push(1);
                self.do_fill.push(1);
            },
            None => {
                push3(&mut self.fill_colors, [0, 0, 0]);
                self.do_fill.push(0);
                self.do_fill.push(0);
                self.do_fill.push(0);
            },
        }
        proof {
            let patch = closed_patch(*path, a, b, c, depth);
            let after = self.streams();
            assert(after.vertices =~= before.vertices + patch.vertices);
            assert(after.control_point_1s =~= before.control_point_1s + patch.control_point_1s);
            assert(after.control_point_2s =~= before.control_point_2s + patch.control_point_2s);
            assert(after.fill_colors =~= before.fill_colors + patch.fill_colors);
            assert(after.stroke_edges =~= before.stroke_edges + patch.stroke_edges);
            assert(after.stroke_colors =~= before.stroke_colors + patch.stroke_colors);
            assert(after.do_fill =~= before.do_fill + patch.do_fill);
            assert(after == before.followed_by(patch));
        }
    }

    /// Writes the triangles of a triangulated closed path to the streams.
    fn emit_triangles(
        &mut self,
        path: &Path,
        indices: &Vec<usize>,
        depth: i64,
        control_point_map: &mut HashMap<u128, (WidePoint, WidePoint)>,
    )
        requires
            indices.len() % 3 == 0,
            forall|i: int| 0 <= i < indices.len() ==> #[trigger] indices[i] < path.vertex_seq().len(),
            path.vertex_seq().len() >= 1,
            cache_sound(old(control_point_map)@, *path),
        ensures
            final(self).streams() == old(self).streams().followed_by(
                closed_patches(*path, indices@, (indices.len() / 3) as nat, depth),
            ),
            final(self).depth_idx == old(self).depth_idx,
            final(self).num_tris == indices.len() / 3,
            final(self).remake == old(self).remake,
            final(self).window_size == old(self).window_size,
            final(self).background_color == old(self).background_color,
    {
        let points = path.vertices();
        let stroke = path.stroke();
        let fill_color = path.fill_color();
        let num_verts = points.len();
        self.num_tris = indices.len() / 3;
        let count = self.num_tris;
        let mut t: usize = 0;
        while t < count
            invariant
                count == indices.len() / 3,
                indices.len() % 3 == 0,
                t <= count,
                points@ == path.vertex_seq(),
                stroke == path.stroke_style(),
                fill_color == path.fill(),
                num_verts == points.len(),
                num_verts >= 1,
                forall|i: int| 0 <= i < indices.len() ==> #[trigger] indices[i] < points.len(),
                cache_sound(control_point_map@, *path),
                self.streams() == old(self).streams().followed_by(
                    closed_patches(*path, indices@, t as nat, depth),
                ),
                self.depth_idx == old(self).depth_idx,
                self.num_tris == count,
                self.remake == old(self).remake,
                self.window_size == old(self).window_size,
                self.background_color == old(self).background_color,
            decreases count - t,
        {
            let ti0 = 3 * t;
            let ti1 = ti0 + 1;
            let ti2 = ti0 + 2;
            let a = indices[ti0];
            let b = indices[ti1];
            let c = indices[ti2];
            let ghost before = self.streams();
            self.emit_triangle(path, a, b, c, depth, control_point_map);
            proof {
                lemma_followed_by_assoc(
                    old(self).streams(),
                    closed_patches(*path, indices@, t as nat, depth),
                    closed_patch(*path, a, b, c, depth),
                );
            }
            t += 1;
        }
    }
}

/// Streams follow each other associatively, and empty streams change nothing.
pub proof fn lemma_followed_by_assoc(a: Streams, b: Streams, c: Streams)
    ensures
        a.followed_by(b).followed_by(c) == a.followed_by(b.followed_by(c)),
        a.followed_by(Streams::empty()) == a,
{
    let l = a.followed_by(b).followed_by(c);
    let r = a.followed_by(b.followed_by(c));
    assert(l.vertices =~= r.vertices);
    assert(l.control_point_1s =~= r.control_point_1s);
    assert(l.control_point_2s =~= r.control_point_2s);
    assert(l.fill_colors =~= r.fill_colors);
    assert(l.stroke_edges =~= r.stroke_edges);
    assert(l.stroke_colors =~= r.stroke_colors);
    assert(l.do_fill =~= r.do_fill);
    let e = a.followed_by(Streams::empty());
    assert(e.vertices =~= a.vertices);
    assert(e.control_point_1s =~= a.control_point_1s);
    assert(e.control_point_2s =~= a.control_point_2s);
    assert(e.fill_colors =~= a.fill_colors);
    assert(e.stroke_edges =~= a.stroke_edges);
    assert(e.stroke_colors =~= a.stroke_colors);
    assert(e.do_fill =~= a.do_fill);
}

/// Looking an edge up in a sound cache gives the curve of that edge, and
/// keeping what was found leaves the cache sound.
proof fn lemma_cache_step(
    before: Map<u128, (WidePoint, WidePoint)>,
    after: Map<u128, (WidePoint, WidePoint)>,
    path: Path,
    i0: usize,
    i1: usize,
)
    requires
        cache_sound(before, path),
        after == before.insert(
            edge_key(i0, i1),
            kept_or_line(before, path.vertex_seq(), i0, i1),
        ),
    ensures
        kept_or_line(before, path.vertex_seq(), i0, i1) == edge_curve(path, i0, i1),
        cache_sound(after, path),
{
    assert(before.contains_key(edge_key(i0, i1)) ==> before[edge_key(i0, i1)] == edge_curve(
        path,
        i0,
        i1,
    ));
    assert(explicit_segment(path, i0, i1) ==> before.contains_key(edge_key(i0, i1)));
    assert forall|j0: usize, j1: usize| after.contains_key(#[trigger] edge_key(j0, j1)) implies after[edge_key(
        j0,
        j1,
    )] == edge_curve(path, j0, j1) by {
        if edge_key(j0, j1) == edge_key(i0, i1) {
            lemma_edge_key_injective(j0, j1, i0, i1);
        }
    }
    assert forall|j0: usize, j1: usize| explicit_segment(path, j0, j1) implies after.contains_key(
        #[trigger] edge_key(j0, j1),
    ) by {
        assert(before.contains_key(edge_key(j0, j1)));
    }
}

/// How adding a closed path ends.
///
/// A path of fewer than three vertices is refused with `NotEnoughVertices`,
/// and no other path is.  A path is refused with `NonSimplePolygon` only where
/// clipping ears from it can get stuck, which it cannot from a polygon in convex
/// position.  Otherwise the drawing is extended by
/// the triangles of some ear clipping of the path, two fewer than the path has
/// vertices.
pub open spec fn closed_path_outcome(
    before: Drawing,
    path: Path,
    result: Result<(), TrdlError>,
    after: Drawing,
) -> bool {
    let points = path.vertex_seq();
    &&& points.len() < 3 <==> (result is Err && result->Err_0 is NotEnoughVertices)
    &&& result is Err ==> result->Err_0 is NotEnoughVertices || result->Err_0 is NonSimplePolygon
    &&& (result is Err && result->Err_0 is NonSimplePolygon) ==> exists|picks: Seq<usize>|
        stuck_after(points, picks)
    &&& points.len() >= 3 && convex_position(points) ==> result is Ok
    &&& result is Ok ==> exists|triangles: Seq<usize>|
        is_ear_clipping(points, triangles) && after.extends(
            &before,
            closed_patches(
                path,
                triangles,
                (points.len() - 2) as nat,
                depth_of(before.depth_index() + 1),
            ),
            points.len() - 2,
        )
}

/// How adding an open path ends.
///
/// A path without a stroke is refused with `NoVisibleGeometry`.  A stroked
/// path with a segment whose two ends are equal is refused with
/// `NonSimplePolygon`.  Any other path extends the drawing by one triangle for
/// each of its segments.
pub open spec fn open_path_outcome(
    before: Drawing,
    path: Path,
    result: Result<(), TrdlError>,
    after: Drawing,
) -> bool {
    let points = path.vertex_seq();
    &&& result is Err ==> result->Err_0 is NoVisibleGeometry || result->Err_0 is NonSimplePolygon
    &&& path.stroke_style() is None <==> (result is Err && result->Err_0 is NoVisibleGeometry)
    &&& (path.stroke_style() is Some && !segments_have_length(path)) <==> (result is Err
        && result->Err_0 is NonSimplePolygon)
    &&& result is Ok ==> after.extends(
        &before,
        open_patches(path, (points.len() - 1) as nat, depth_of(before.depth_index() + 1)),
        points.len() - 1,
    )
}

/// One triangle of a closed path takes the room of one triangle in each stream.
pub proof fn lemma_closed_patch_size(path: Path, a: usize, b: usize, c: usize, depth: i64)
    ensures
        closed_patch(path, a, b, c, depth).holds_triangles(1),
{
}

/// One segment of an open path takes the room of one triangle in each stream.
pub proof fn lemma_open_patch_size(path: Path, i: int, depth: i64)
    ensures
        open_patch(path, i, depth).holds_triangles(1),
{
}

/// Streams that hold triangles, followed by streams that hold triangles, hold
/// the triangles of both.
pub proof fn lemma_followed_by_size(a: Streams, m: int, b: Streams, n: int)
    requires
        a.holds_triangles(m),
        b.holds_triangles(n),
    ensures
        a.followed_by(b).holds_triangles(m + n),
{
}

/// The triangles of a closed path fill the streams evenly: `count` triangles
/// take nine positions, six entries of each control point stream, nine entries
/// of each colour stream, three edges and three flags each.
pub proof fn lemma_closed_patches_size(path: Path, triangles: Seq<usize>, count: nat, depth: i64)
    ensures
        closed_patches(path, triangles, count, depth).holds_triangles(count as int),
    decreases count,
{
    if count > 0 {
        let k = count - 1;
        lemma_closed_patches_size(path, triangles, k as nat, depth);
        let patch = closed_patch(
            path,
            triangles[3 * k],
            triangles[3 * k + 1],
            triangles[3 * k + 2],
            depth,
        );
        lemma_closed_patch_size(
            path,
            triangles[3 * k],
            triangles[3 * k + 1],
            triangles[3 * k + 2],
            depth,
        );
        lemma_followed_by_size(closed_patches(path, triangles, k as nat, depth), k, patch, 1);
    }
}

/// The triangles of an open path fill the streams evenly.
pub proof fn lemma_open_patches_size(path: Path, count: nat, depth: i64)
    ensures
        open_patches(path, count, depth).holds_triangles(count as int),
    decreases count,
{
    if count > 0 {
        let k = (count - 1) as nat;
        lemma_open_patches_size(path, k, depth);
        lemma_open_patch_size(path, k as int, depth);
        lemma_followed_by_size(
            open_patches(path, k, depth),
            k as int,
            open_patch(path, k as int, depth),
            1,
        );
    }
}

/// Two sets of streams are the same but for the depth entries of their
/// position streams.
pub open spec fn same_but_depth(a: Streams, b: Streams) -> bool {
    &&& a.vertices.len() == b.vertices.len()
    &&& forall|i: int| 0 <= i < a.vertices.len() && i % 3 != 2 ==> a.vertices[i] == b.vertices[i]
    &&& a.control_point_1s == b.control_point_1s
    &&& a.control_point_2s == b.control_point_2s
    &&& a.fill_colors == b.fill_colors
    &&& a.stroke_edges == b.stroke_edges
    &&& a.stroke_colors == b.stroke_colors
    &&& a.do_fill == b.do_fill
}

/// The room that streams take up is a whole number of triangles.
pub open spec fn whole_triangles(a: Streams) -> bool {
    a.vertices.len() % 3 == 0
}

/// Streams that agree but for the depth still do so when streams that agree but
/// for the depth follow them.
pub proof fn lemma_same_but_depth_follows(a1: Streams, a2: Streams, b1: Streams, b2: Streams)
    requires
        same_but_depth(a1, a2),
        same_but_depth(b1, b2),
        whole_triangles(a1),
    ensures
        same_but_depth(a1.followed_by(b1), a2.followed_by(b2)),
{
    let l = a1.followed_by(b1);
    let r = a2.followed_by(b2);
    let m = a1.vertices.len() as int;
    assert forall|i: int| 0 <= i < l.vertices.len() && i % 3 != 2 implies l.vertices[i]
        == r.vertices[i] by {
        if i >= m {
            assert((i - m) % 3 == i % 3) by (nonlinear_arith)
                requires
                    m % 3 == 0,
                    0 <= m <= i,
            ;
            assert(l.vertices[i] == b1.vertices[i - m]);
            assert(r.vertices[i] == b2.vertices[i - m]);
        } else {
            assert(l.vertices[i] == a1.vertices[i]);
            assert(r.vertices[i] == a2.vertices[i]);
        }
    }
}

/// One triangle of a closed path is the same at any depth, but for the depth.
pub proof fn lemma_closed_patch_repeatable(
    path: Path,
    a: usize,
    b: usize,
    c: usize,
    depth_1: i64,
    depth_2: i64,
)
    ensures
        same_but_depth(closed_patch(path, a, b, c, depth_1), closed_patch(path, a, b, c, depth_2)),
{
}

/// One segment of an open path is the same at any depth, but for the depth.
pub proof fn lemma_open_patch_repeatable(path: Path, i: int, depth_1: i64, depth_2: i64)
    ensures
        same_but_depth(open_patch(path, i, depth_1), open_patch(path, i, depth_2)),
{
}

/// Compiling a closed path is repeatable: with the same triangulation, what a
/// path adds to the streams depends on the drawing only through the depth, and
/// the depth shows only in every third entry of the position stream.
pub proof fn lemma_closed_patches_repeatable(
    path: Path,
    triangles: Seq<usize>,
    count: nat,
    depth_1: i64,
    depth_2: i64,
)
    ensures
        same_but_depth(
            closed_patches(path, triangles, count, depth_1),
            closed_patches(path, triangles, count, depth_2),
        ),
    decreases count,
{
    if count > 0 {
        let k = count - 1;
        let (a, b, c) = (triangles[3 * k], triangles[3 * k + 1], triangles[3 * k + 2]);
        lemma_closed_patches_repeatable(path, triangles, k as nat, depth_1, depth_2);
        lemma_closed_patches_size(path, triangles, k as nat, depth_1);
        lemma_closed_patch_repeatable(path, a, b, c, depth_1, depth_2);
        lemma_same_but_depth_follows(
            closed_patches(path, triangles, k as nat, depth_1),
            closed_patches(path, triangles, k as nat, depth_2),
            closed_patch(path, a, b, c, depth_1),
            closed_patch(path, a, b, c, depth_2),
        );
    }
}

/// Compiling an open path is repeatable: what a path adds to the streams
/// depends on the drawing only through the depth, and the depth shows only in
/// every third entry of the position stream.
pub proof fn lemma_open_patches_repeatable(path: Path, count: nat, depth_1: i64, depth_2: i64)
    ensures
        same_but_depth(open_patches(path, count, depth_1), open_patches(path, count, depth_2)),
    decreases count,
{
    if count > 0 {
        let k = (count - 1) as nat;
        lemma_open_patches_repeatable(path, k, depth_1, depth_2);
        lemma_open_patches_size(path, k, depth_1);
        lemma_open_patch_repeatable(path, k as int, depth_1, depth_2);
        lemma_same_but_depth_follows(
            open_patches(path, k, depth_1),
            open_patches(path, k, depth_2),
            open_patch(path, k as int, depth_1),
            open_patch(path, k as int, depth_2),
        );
    }
}

/// Two sets of streams agree in what does not depend on how a polygon was cut
/// into triangles: they hold the same number of triangles, with the same fill
/// colours, stroke colours and fill flags.
pub open spec fn same_colours(a: Streams, b: Streams) -> bool {
    &&& a.vertices.len() == b.vertices.len()
    &&& a.control_point_1s.len() == b.control_point_1s.len()
    &&& a.control_point_2s.len() == b.control_point_2s.len()
    &&& a.stroke_edges.len() == b.stroke_edges.len()
    &&& a.fill_colors == b.fill_colors
    &&& a.stroke_colors == b.stroke_colors
    &&& a.do_fill == b.do_fill
}

/// Whichever way a closed path is cut into triangles, and at whatever depth,
/// the colours and fill flags that it adds to the streams are the same.
pub proof fn lemma_closed_patches_colours(
    path: Path,
    triangles_1: Seq<usize>,
    triangles_2: Seq<usize>,
    count: nat,
    depth_1: i64,
    depth_2: i64,
)
    ensures
        same_colours(
            closed_patches(path, triangles_1, count, depth_1),
            closed_patches(path, triangles_2, count, depth_2),
        ),
    decreases count,
{
    if count > 0 {
        let k = count - 1;
        lemma_closed_patches_colours(path, triangles_1, triangles_2, k as nat, depth_1, depth_2);
        let a = closed_patches(path, triangles_1, count, depth_1);
        let b = closed_patches(path, triangles_2, count, depth_2);
        assert(a.fill_colors =~= b.fill_colors);
        assert(a.stroke_colors =~= b.stroke_colors);
        assert(a.do_fill =~= b.do_fill);
    }
}

/// Adding one open path twice, to the same drawing or to two, ends the same
/// way both times: with the same error, or with the same triangles but for
/// their depth.  At equal depth what is added is equal.
pub proof fn lemma_open_path_twice(
    path: Path,
    before_1: Drawing,
    result_1: Result<(), TrdlError>,
    after_1: Drawing,
    before_2: Drawing,
    result_2: Result<(), TrdlError>,
    after_2: Drawing,
)
    requires
        open_path_outcome(before_1, path, result_1, after_1),
        open_path_outcome(before_2, path, result_2, after_2),
    ensures
        result_1 == result_2,
        result_1 is Ok ==> ({
            let count = (path.vertex_seq().len() - 1) as nat;
            let added_1 = open_patches(path, count, depth_of(before_1.depth_index() + 1));
            let added_2 = open_patches(path, count, depth_of(before_2.depth_index() + 1));
            &&& after_1.streams() == before_1.streams().followed_by(added_1)
            &&& after_2.streams() == before_2.streams().followed_by(added_2)
            &&& after_1.triangle_count() == after_2.triangle_count()
            &&& same_but_depth(added_1, added_2)
            &&& before_1.depth_index() == before_2.depth_index() ==> added_1 == added_2
        }),
{
    let count = (path.vertex_seq().len() - 1) as nat;
    lemma_open_patches_repeatable(
        path,
        count,
        depth_of(before_1.depth_index() + 1),
        depth_of(before_2.depth_index() + 1),
    );
    if path.stroke_style() is None {
        assert(result_1 == Err::<(), TrdlError>(TrdlError::NoVisibleGeometry));
        assert(result_2 == Err::<(), TrdlError>(TrdlError::NoVisibleGeometry));
    } else if !segments_have_length(path) {
        assert(result_1 == Err::<(), TrdlError>(TrdlError::NonSimplePolygon));
        assert(result_2 == Err::<(), TrdlError>(TrdlError::NonSimplePolygon));
    } else {
        assert(result_1 is Ok && result_2 is Ok);
        assert(result_1->Ok_0 == result_2->Ok_0);
    }
}

/// Two drawings were each extended by the triangles of an ear clipping of the
/// same closed path, and what was added agrees as far as it must: in the
/// number of triangles, the colours and the fill flags, and, where the same
/// ears were clipped, in everything but the depth.
pub open spec fn closed_paths_agree(
    path: Path,
    before_1: Drawing,
    after_1: Drawing,
    triangles_1: Seq<usize>,
    before_2: Drawing,
    after_2: Drawing,
    triangles_2: Seq<usize>,
) -> bool {
    let points = path.vertex_seq();
    let count = (points.len() - 2) as nat;
    let added_1 = closed_patches(path, triangles_1, count, depth_of(before_1.depth_index() + 1));
    let added_2 = closed_patches(path, triangles_2, count, depth_of(before_2.depth_index() + 1));
    &&& is_ear_clipping(points, triangles_1)
    &&& is_ear_clipping(points, triangles_2)
    &&& after_1.streams() == before_1.streams().followed_by(added_1)
    &&& after_2.streams() == before_2.streams().followed_by(added_2)
    &&& after_1.triangle_count() == after_2.triangle_count()
    &&& same_colours(added_1, added_2)
    &&& triangles_1 == triangles_2 ==> same_but_depth(added_1, added_2)
}

/// Adding one closed path twice, to the same drawing or to two, refuses it for
/// its number of vertices both times or neither time.  Where both calls accept
/// it, each adds the triangles of some ear clipping of the path; the two agree
/// in the number of triangles, the colours and the fill flags, and where the
/// same ears were clipped they agree in everything but the depth.
pub proof fn lemma_closed_path_twice(
    path: Path,
    before_1: Drawing,
    result_1: Result<(), TrdlError>,
    after_1: Drawing,
    before_2: Drawing,
    result_2: Result<(), TrdlError>,
    after_2: Drawing,
)
    requires
        closed_path_outcome(before_1, path, result_1, after_1),
        closed_path_outcome(before_2, path, result_2, after_2),
    ensures
        (result_1 is Err && result_1->Err_0 is NotEnoughVertices) <==> (result_2 is Err
            && result_2->Err_0 is NotEnoughVertices),
        result_1 is Ok && result_2 is Ok ==> exists|triangles_1: Seq<usize>, triangles_2: Seq<usize>|
            #[trigger] closed_paths_agree(
                path,
                before_1,
                after_1,
                triangles_1,
                before_2,
                after_2,
                triangles_2,
            ),
{
    if result_1 is Ok && result_2 is Ok {
        let points = path.vertex_seq();
        let count = (points.len() - 2) as nat;
        let depth_1 = depth_of(before_1.depth_index() + 1);
        let depth_2 = depth_of(before_2.depth_index() + 1);
        let triangles_1 = choose|t: Seq<usize>|
            is_ear_clipping(points, t) && after_1.extends(
                &before_1,
                closed_patches(path, t, count, depth_1),
                points.len() - 2,
            );
        let triangles_2 = choose|t: Seq<usize>|
            is_ear_clipping(points, t) && after_2.extends(
                &before_2,
                closed_patches(path, t, count, depth_2),
                points.len() - 2,
            );
        lemma_closed_patches_colours(path, triangles_1, triangles_2, count, depth_1, depth_2);
        lemma_closed_patches_repeatable(path, triangles_1, count, depth_1, depth_2);
        assert(closed_paths_agree(
            path,
            before_1,
            after_1,
            triangles_1,
            before_2,
            after_2,
            triangles_2,
        ));
    }
}

} // verus!
