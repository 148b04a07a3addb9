//! Paths: the shapes that a drawing is made of.
//!
//! A path is a list of vertices joined by segments.  Each segment is either a
//! straight line or a cubic curve with two control points of its own.  A path
//! may be closed, so that it can be filled, and carries the colours it is to be
//! drawn with.  Colour channels are 32-bit words that the library passes through
//! untouched; what they encode is the renderer's business.

use vstd::prelude::*;
use crate::geometry::Point;
use crate::error::TrdlError;

verus! {

/// A colour as three channel words: red, green, blue.
pub type Color = [u32; 3];

/// A path under construction or ready to be added to a drawing.
pub struct Path {
    vertices: Vec<Point>,
    control_point_1s: Vec<Option<Point>>,
    control_point_2s: Vec<Option<Point>>,
    fill_color: Option<Color>,
    stroke: Option<(Color, u32)>,
    is_closed: bool,
}

impl Path {
    /// A path has at least one vertex.  The two control point lists run in
    /// step, slot by slot either both set or both absent.  An open path has one
    /// slot per segment, so one less than it has vertices.  A closed path has at
    /// least one slot per vertex: the last one in use belongs to the closing
    /// segment.
    #[verifier::type_invariant]
    pub closed spec fn well_formed(self) -> bool {
        &&& self.vertices@.len() >= 1
        &&& self.control_point_1s@.len() == self.control_point_2s@.len()
        &&& forall|i: int|
            0 <= i < self.control_point_1s@.len() ==> (#[trigger] self.control_point_1s@[i] is Some
                <==> self.control_point_2s@[i] is Some)
        &&& !self.is_closed ==> self.control_point_1s@.len() + 1 == self.vertices@.len()
        &&& self.is_closed ==> self.control_point_1s@.len() >= self.vertices@.len()
    }

    /// The vertices, in the order they were added.
    pub closed spec fn vertex_seq(self) -> Seq<Point> {
        self.vertices@
    }

    /// The first control point of each segment, absent for a straight one.
    pub closed spec fn control_1_seq(self) -> Seq<Option<Point>> {
        self.control_point_1s@
    }

    /// The second control point of each segment, absent for a straight one.
    pub closed spec fn control_2_seq(self) -> Seq<Option<Point>> {
        self.control_point_2s@
    }

    /// The fill colour, if the path is to be filled.
    pub closed spec fn fill(self) -> Option<Color> {
        self.fill_color
    }

    /// The stroke colour and thickness, if the path is to be stroked.
    pub closed spec fn stroke_style(self) -> Option<(Color, u32)> {
        self.stroke
    }

    /// Whether the path has been closed.
    pub closed spec fn closed(self) -> bool {
        self.is_closed
    }

    /// What the type invariant says, over the public model of a path.
    pub open spec fn consistent(self) -> bool {
        &&& self.vertex_seq().len() >= 1
        &&& self.control_1_seq().len() == self.control_2_seq().len()
        &&& forall|i: int|
            0 <= i < self.control_1_seq().len() ==> (#[trigger] self.control_1_seq()[i] is Some
                <==> self.control_2_seq()[i] is Some)
        &&& !self.closed() ==> self.control_1_seq().len() + 1 == self.vertex_seq().len()
        &&& self.closed() ==> self.control_1_seq().len() >= self.vertex_seq().len()
    }

    /// A path that consists of its starting point: open, without segments,
    /// without fill and without stroke.
    pub fn new(start: Point) -> (path: Self)
        ensures
            path.vertex_seq() == seq![start],
            path.control_1_seq() == Seq::<Option<Point>>::empty(),
            path.control_2_seq() == Seq::<Option<Point>>::empty(),
            path.fill() is None,
            path.stroke_style() is None,
            !path.closed(),
    {
        let mut vertices: Vec<Point> = Vec::new();
        vertices.push(start);
        proof {
            assert(vertices@ =~= seq![start]);
        }
        Path {
            vertices,
            control_point_1s: Vec::new(),
            control_point_2s: Vec::new(),
            fill_color: None,
            stroke: None,
            is_closed: false,
        }
    }

    /// Adds a straight segment from the current point to `end_point`, which
    /// becomes the current point.  Its control point slots stay absent.
    pub fn line_to(self, end_point: Point) -> (path: Self)
        ensures
            path.vertex_seq() == self.vertex_seq().push(end_point),
            path.control_1_seq() == self.control_1_seq().push(None),
            path.control_2_seq() == self.control_2_seq().push(None),
            path.fill() == self.fill(),
            path.stroke_style() == self.stroke_style(),
            path.closed() == self.closed(),
    {
        proof {
            use_type_invariant(&self);
        }
        let Path { mut vertices, mut control_point_1s, mut control_point_2s, fill_color, stroke, is_closed } = self;
        control_point_1s.push(None);
        control_point_2s.push(None);
        vertices.push(end_point);
        Path { vertices, control_point_1s, control_point_2s, fill_color, stroke, is_closed }
    }

    /// Adds a cubic curve from the current point to `end_point`, which becomes
    /// the current point.  The curve is shaped by the two control points.
    pub fn curve_to(self, control_point_1: Point, control_point_2: Point, end_point: Point) -> (path:
        Self)
        ensures
            path.vertex_seq() == self.vertex_seq().push(end_point),
            path.control_1_seq() == self.control_1_seq().push(Some(control_point_1)),
            path.control_2_seq() == self.control_2_seq().push(Some(control_point_2)),
            path.fill() == self.fill(),
            path.stroke_style() == self.stroke_style(),
            path.closed() == self.closed(),
    {
        proof {
            use_type_invariant(&self);
        }
        let Path { mut vertices, mut control_point_1s, mut control_point_2s, fill_color, stroke, is_closed } = self;
        control_point_1s.push(Some(control_point_1));
        control_point_2s.push(Some(control_point_2));
        vertices.push(end_point);
        Path { vertices, control_point_1s, control_point_2s, fill_color, stroke, is_closed }
    }

    /// Adds an elliptical arc from the current point, given as the cubic curves
    /// that approximate it: `arc` holds three points per curve, two control
    /// points and the point where the curve ends, and points left over at the
    /// end are ignored.  The last curve's end becomes the current point.  Where
    /// the arc has no curves because a radius vanishes, `arc` is an error and a
    /// straight line to `end_point` is added in its place.
    pub fn arc_to(self, arc: Result<Vec<Point>, TrdlError>, end_point: Point) -> (path: Self)
        ensures
            path.fill() == self.fill(),
            path.stroke_style() == self.stroke_style(),
            path.closed() == self.closed(),
            arc is Err ==> {
                &&& path.vertex_seq() == self.vertex_seq().push(end_point)
                &&& path.control_1_seq() == self.control_1_seq().push(None)
                &&& path.control_2_seq() == self.control_2_seq().push(None)
            },
            arc matches Ok(points) ==> {
                &&& path.vertex_seq() == self.vertex_seq() + arc_ends(points@)
                &&& path.control_1_seq() == self.control_1_seq() + arc_controls(points@, 0)
                &&& path.control_2_seq() == self.control_2_seq() + arc_controls(points@, 1)
            },
    {
        match arc {
            Ok(points) => {
                let num_arcs = points.len() / 3;
                let mut path = self;
                let mut i: usize = 0;
                while i < num_arcs
                    invariant
                        num_arcs == points.len() / 3,
                        i <= num_arcs,
                        path.fill() == self.fill(),
                        path.stroke_style() == self.stroke_style(),
                        path.closed() == self.closed(),
                        path.vertex_seq() == self.vertex_seq() + arc_ends(points@).take(i as int),
                        path.control_1_seq() == self.control_1_seq() + arc_controls(
                            points@,
                            0,
                        ).take(i as int),
                        path.control_2_seq() == self.control_2_seq() + arc_controls(
                            points@,
                            1,
                        ).take(i as int),
                    decreases num_arcs - i,
                {
                    let k = i * 3;
                    let ghost before = path;
                    path = path.curve_to(points[k], points[k + 1], points[k + 2]);
                    proof {
                        let ends = arc_ends(points@);
                        let c1 = arc_controls(points@, 0);
                        let c2 = arc_controls(points@, 1);
                        assert(ends.take(i + 1) =~= ends.take(i as int).push(points@[k + 2]));
                        assert(c1.take(i + 1) =~= c1.take(i as int).push(Some(points@[k as int])));
                        assert(c2.take(i + 1) =~= c2.take(i as int).push(Some(points@[k + 1])));
                        assert(path.vertex_seq() =~= self.vertex_seq() + ends.take(i + 1));
                        assert(path.control_1_seq() =~= self.control_1_seq() + c1.take(i + 1));
                        assert(path.control_2_seq() =~= self.control_2_seq() + c2.take(i + 1));
                    }
                    i += 1;
                }
                proof {
                    assert(arc_ends(points@).take(i as int) =~= arc_ends(points@));
                    assert(arc_controls(points@, 0).take(i as int) =~= arc_controls(points@, 0));
                    assert(arc_controls(points@, 1).take(i as int) =~= arc_controls(points@, 1));
                }
                path
            },
            Err(_) => self.line_to(end_point),
        }
    }

    /// Closes the path, so that it can be filled.  Where the path has more than
    /// one vertex and the last equals the first, the last vertex is dropped and
    /// the segment that led to it closes the path; otherwise a straight closing
    /// segment is added.  A path of one vertex keeps its vertex.
    pub fn close_path(self) -> (path: Self)
        ensures
            path.closed(),
            path.fill() == self.fill(),
            path.stroke_style() == self.stroke_style(),
            path.vertex_seq().len() >= 1,
            ends_on_start(self.vertex_seq()) ==> {
                &&& path.vertex_seq() == self.vertex_seq().drop_last()
                &&& path.control_1_seq() == self.control_1_seq()
                &&& path.control_2_seq() == self.control_2_seq()
            },
            !ends_on_start(self.vertex_seq()) ==> {
                &&& path.vertex_seq() == self.vertex_seq()
                &&& path.control_1_seq() == self.control_1_seq().push(None)
                &&& path.control_2_seq() == self.control_2_seq().push(None)
            },
    {
        proof {
            use_type_invariant(&self);
        }
        let Path { mut vertices, mut control_point_1s, mut control_point_2s, fill_color, stroke, is_closed } = self;
        let first = vertices[0];
        let last = vertices[vertices.len() - 1];
        if vertices.len() >= 2 && first.0 == last.0 && first.1 == last.1 {
            vertices.pop();
        } else {
            control_point_1s.push(None);
            control_point_2s.push(None);
        }
        Path { vertices, control_point_1s, control_point_2s, fill_color, stroke, is_closed: true }
    }

    /// Sets the colour that a closed path is filled with.
    pub fn set_fill_color(self, red: u32, green: u32, blue: u32) -> (path: Self)
        ensures
            path.fill() == Some([red, green, blue]),
            path.vertex_seq() == self.vertex_seq(),
            path.control_1_seq() == self.control_1_seq(),
            path.control_2_seq() == self.control_2_seq(),
            path.stroke_style() == self.stroke_style(),
            path.closed() == self.closed(),
    {
        proof {
            use_type_invariant(&self);
        }
        let Path { vertices, control_point_1s, control_point_2s, fill_color: _, stroke, is_closed } = self;
        Path {
            vertices,
            control_point_1s,
            control_point_2s,
            fill_color: Some([red, green, blue]),
            stroke,
            is_closed,
        }
    }

    /// Removes the fill colour: the path is drawn unfilled.
    pub fn clear_fill_color(self) -> (path: Self)
        ensures
            path.fill() is None,
            path.vertex_seq() == self.vertex_seq(),
            path.control_1_seq() == self.control_1_seq(),
            path.control_2_seq() == self.control_2_seq(),
            path.stroke_style() == self.stroke_style(),
            path.closed() == self.closed(),
    {
        proof {
            use_type_invariant(&self);
        }
        let Path { vertices, control_point_1s, control_point_2s, fill_color: _, stroke, is_closed } = self;
        Path { vertices, control_point_1s, control_point_2s, fill_color: None, stroke, is_closed }
    }

    /// Sets the colour and the thickness that the path is stroked with.
    pub fn set_stroke(self, red: u32, green: u32, blue: u32, thickness: u32) -> (path: Self)
        ensures
            path.stroke_style() == Some(([red, green, blue], thickness)),
            path.vertex_seq() == self.vertex_seq(),
            path.control_1_seq() == self.control_1_seq(),
            path.control_2_seq() == self.control_2_seq(),
            path.fill() == self.fill(),
            path.closed() == self.closed(),
    {
        proof {
            use_type_invariant(&self);
        }
        let Path { vertices, control_point_1s, control_point_2s, fill_color, stroke: _, is_closed } = self;
        Path {
            vertices,
            control_point_1s,
            control_point_2s,
            fill_color,
            stroke: Some(([red, green, blue], thickness)),
            is_closed,
        }
    }

    /// Removes the stroke: the path is drawn without an outline.
    pub fn clear_stroke(self) -> (path: Self)
        ensures
            path.stroke_style() is None,
            path.vertex_seq() == self.vertex_seq(),
            path.control_1_seq() == self.control_1_seq(),
            path.control_2_seq() == self.control_2_seq(),
            path.fill() == self.fill(),
            path.closed() == self.closed(),
    {
        proof {
            use_type_invariant(&self);
        }
        let Path { vertices, control_point_1s, control_point_2s, fill_color, stroke: _, is_closed } = self;
        Path { vertices, control_point_1s, control_point_2s, fill_color, stroke: None, is_closed }
    }

    /// The closed path through four corners, joined by straight lines.
    pub fn rectangle(corners: [Point; 4]) -> (path: Self)
        ensures
            path.closed(),
            path.fill() is None,
            path.stroke_style() is None,
            corners[0] != corners[3] ==> {
                &&& path.vertex_seq() == seq![corners[0], corners[1], corners[2], corners[3]]
                &&& path.control_1_seq() == Seq::new(4, |i: int| None::<Point>)
                &&& path.control_2_seq() == Seq::new(4, |i: int| None::<Point>)
            },
            corners[0] == corners[3] ==> {
                &&& path.vertex_seq() == seq![corners[0], corners[1], corners[2]]
                &&& path.control_1_seq() == Seq::new(3, |i: int| None::<Point>)
                &&& path.control_2_seq() == Seq::new(3, |i: int| None::<Point>)
            },
    {
        let open = Self::new(corners[0]).line_to(corners[1]).line_to(corners[2]).line_to(corners[3]);
        proof {
            assert(open.vertex_seq() =~= seq![corners[0], corners[1], corners[2], corners[3]]);
            assert(open.control_1_seq() =~= Seq::new(3, |i: int| None::<Point>));
            assert(open.control_2_seq() =~= Seq::new(3, |i: int| None::<Point>));
        }
        let path = open.close_path();
        proof {
            if corners[0] != corners[3] {
                assert(path.control_1_seq() =~= Seq::new(4, |i: int| None::<Point>));
                assert(path.control_2_seq() =~= Seq::new(4, |i: int| None::<Point>));
            } else {
                assert(path.vertex_seq() =~= seq![corners[0], corners[1], corners[2]]);
            }
        }
        path
    }

    /// The closed path of two arcs: from `start` over `first` towards `middle`,
    /// and from there over `second` back towards `start`.  Each arc is given as
    /// for [`Path::arc_to`].
    pub fn ellipse(
        start: Point,
        first: Result<Vec<Point>, TrdlError>,
        middle: Point,
        second: Result<Vec<Point>, TrdlError>,
    ) -> (path: Self)
        ensures
            path.closed(),
            path.fill() is None,
            path.stroke_style() is None,
            ({
                let ends = seq![start] + arc_or_line_ends(first, middle) + arc_or_line_ends(
                    second,
                    start,
                );
                let c1 = arc_or_line_controls(first, 0) + arc_or_line_controls(second, 0);
                let c2 = arc_or_line_controls(first, 1) + arc_or_line_controls(second, 1);
                if ends_on_start(ends) {
                    &&& path.vertex_seq() == ends.drop_last()
                    &&& path.control_1_seq() == c1
                    &&& path.control_2_seq() == c2
                } else {
                    &&& path.vertex_seq() == ends
                    &&& path.control_1_seq() == c1.push(None)
                    &&& path.control_2_seq() == c2.push(None)
                }
            }),
    {
        let ghost ends = seq![start] + arc_or_line_ends(first, middle) + arc_or_line_ends(
            second,
            start,
        );
        let ghost c1 = arc_or_line_controls(first, 0) + arc_or_line_controls(second, 0);
        let ghost c2 = arc_or_line_controls(first, 1) + arc_or_line_controls(second, 1);
        let open = Self::new(start).arc_to(first, middle).arc_to(second, start);
        proof {
            assert(open.vertex_seq() =~= ends);
            assert(open.control_1_seq() =~= c1);
            assert(open.control_2_seq() =~= c2);
        }
        open.close_path()
    }

    /// A second path like this one, vertex by vertex and colour by colour, so
    /// that a path can be added to a drawing more than once.
    pub fn duplicate(&self) -> (copy: Self)
        ensures
            copy.vertex_seq() == self.vertex_seq(),
            copy.control_1_seq() == self.control_1_seq(),
            copy.control_2_seq() == self.control_2_seq(),
            copy.fill() == self.fill(),
            copy.stroke_style() == self.stroke_style(),
            copy.closed() == self.closed(),
    {
        proof {
            use_type_invariant(self);
        }
        let n = self.vertices.len();
        let m = self.control_point_1s.len();
        let mut vertices: Vec<Point> = Vec::new();
        let mut control_point_1s: Vec<Option<Point>> = Vec::new();
        let mut control_point_2s: Vec<Option<Point>> = Vec::new();
        let mut i: usize = 0;
        while i < n
            invariant
                n == self.vertices@.len(),
                i <= n,
                vertices@ == self.vertices@.take(i as int),
            decreases n - i,
        {
            vertices.push(self.vertices[i]);
            proof {
                assert(vertices@ =~= self.vertices@.take(i + 1));
            }
            i += 1;
        }
        let mut j: usize = 0;
        while j < m
            invariant
                m == self.control_point_1s@.len(),
                m == self.control_point_2s@.len(),
                j <= m,
                control_point_1s@ == self.control_point_1s@.take(j as int),
                control_point_2s@ == self.control_point_2s@.take(j as int),
            decreases m - j,
        {
            control_point_1s.push(self.control_point_1s[j]);
            control_point_2s.push(self.control_point_2s[j]);
            proof {
                assert(control_point_1s@ =~= self.control_point_1s@.take(j + 1));
                assert(control_point_2s@ =~= self.control_point_2s@.take(j + 1));
            }
            j += 1;
        }
        proof {
            assert(vertices@ =~= self.vertices@);
            assert(control_point_1s@ =~= self.control_point_1s@);
            assert(control_point_2s@ =~= self.control_point_2s@);
        }
        Path {
            vertices,
            control_point_1s,
            control_point_2s,
            fill_color: self.fill_color,
            stroke: self.stroke,
            is_closed: self.is_closed,
        }
    }

    /// The vertex list.
    pub fn vertices(&self) -> (v: &Vec<Point>)
        ensures
            v@ == self.vertex_seq(),
    {
        &self.vertices
    }

    /// The first control points, one slot per segment.
    pub fn control_point_1s(&self) -> (v: &Vec<Option<Point>>)
        ensures
            v@ == self.control_1_seq(),
            self.consistent(),
    {
        proof {
            use_type_invariant(self);
        }
        &self.control_point_1s
    }

    /// The second control points, one slot per segment.
    pub fn control_point_2s(&self) -> (v: &Vec<Option<Point>>)
        ensures
            v@ == self.control_2_seq(),
            self.consistent(),
    {
        proof {
            use_type_invariant(self);
        }
        &self.control_point_2s
    }

    /// The fill colour, if any.
    pub fn fill_color(&self) -> (c: Option<Color>)
        ensures
            c == self.fill(),
    {
        self.fill_color
    }

    /// The stroke colour and thickness, if any.
    pub fn stroke(&self) -> (s: Option<(Color, u32)>)
        ensures
            s == self.stroke_style(),
    {
        self.stroke
    }

    /// Whether the path has been closed.
    pub fn is_closed(&self) -> (b: bool)
        ensures
            b == self.closed(),
    {
        self.is_closed
    }
}

/// The vertex list ends where it starts and has a vertex to spare: its last
/// vertex repeats its first.
pub open spec fn ends_on_start(vertices: Seq<Point>) -> bool {
    vertices.len() >= 2 && vertices.first() == vertices.last()
}

/// The end points of the curves of an arc: every third point, from the third.
pub open spec fn arc_ends(points: Seq<Point>) -> Seq<Point> {
    Seq::new(points.len() / 3, |i: int| points[3 * i + 2])
}

/// The control points of the curves of an arc: the first ones for `which == 0`,
/// the second ones for `which == 1`.
pub open spec fn arc_controls(points: Seq<Point>, which: int) -> Seq<Option<Point>> {
    Seq::new(points.len() / 3, |i: int| Some(points[3 * i + which]))
}

/// The vertices that an arc adds: the ends of its curves, or the end of the
/// line that stands in for it.
pub open spec fn arc_or_line_ends(arc: Result<Vec<Point>, TrdlError>, end_point: Point) -> Seq<
    Point,
> {
    match arc {
        Ok(points) => arc_ends(points@),
        Err(_) => seq![end_point],
    }
}

/// The control point slots that an arc adds: those of its curves, or the
/// absent slot of the line that stands in for it.
pub open spec fn arc_or_line_controls(arc: Result<Vec<Point>, TrdlError>, which: int) -> Seq<
    Option<Point>,
> {
    match arc {
        Ok(points) => arc_controls(points@, which),
        Err(_) => seq![None],
    }
}

} // verus!
