use std::collections::HashMap;
use trdl::drawing::{
    bezier_line_control_points, get_control_points, make_extra_point, push3, triangle_edges, Drawing, FINE,
    MAX_DEPTH,
};
use trdl::path::Path;
use trdl::TrdlError;

#[test]
fn straight_line_control_points_are_thirds() {
    // ends on the middle grid, control points on the stream grid, three times as fine
    assert_eq!(bezier_line_control_points((0, 0), (9, 3)), ((9, 3), (18, 6)));
    assert_eq!(bezier_line_control_points((1, 1), (1, 1)), ((3, 3), (3, 3)));
    assert_eq!(bezier_line_control_points((0, 0), (10, -10)), ((10, -10), (20, -20)));
    // no rounding: the control points are on the line, whatever its slope
    assert_eq!(bezier_line_control_points((5, 5), (3, 7)), ((13, 17), (11, 19)));
    assert_eq!(bezier_line_control_points((0, 0), (4, 2)), ((4, 2), (8, 4)));
    assert_eq!(
        bezier_line_control_points((-3_000_000_000_000_000_000, 0), (3_000_000_000_000_000_000, 0)),
        ((-3_000_000_000_000_000_000, 0), (3_000_000_000_000_000_000, 0))
    );
}

#[test]
fn extra_point_in_every_direction() {
    // the extra point is given on the middle grid, twice as fine as the path's
    assert_eq!(make_extra_point((0, 0), (4, 6)), Ok((4, 12)));
    assert_eq!(make_extra_point((0, 0), (4, -6)), Ok((4, 0)));
    assert_eq!(make_extra_point((0, 0), (4, 0)), Ok((4, 10)));
    assert_eq!(make_extra_point((0, 0), (-4, 6)), Ok((-4, 0)));
    assert_eq!(make_extra_point((0, 0), (-4, -6)), Ok((-4, -12)));
    assert_eq!(make_extra_point((0, 0), (-4, 0)), Ok((-4, -10)));
    assert_eq!(make_extra_point((0, 0), (0, 6)), Ok((-10, 6)));
    assert_eq!(make_extra_point((0, 0), (0, -6)), Ok((10, -6)));
    assert_eq!(make_extra_point((3, 3), (3, 3)), Err(TrdlError::NonSimplePolygon));
    // an offset point may lie beyond the range of a vertex
    assert_eq!(
        make_extra_point((i32::MAX, i32::MAX), (i32::MAX - 2, i32::MAX)),
        Ok((2 * i32::MAX as i64 - 2, 2 * i32::MAX as i64 - 10))
    );
    assert_eq!(make_extra_point((0, i32::MAX), (2, i32::MAX)), Ok((2, 2 * i32::MAX as i64 + 10)));
}

#[test]
fn extra_point_of_a_one_step_segment_is_off_the_segment() {
    assert_eq!(make_extra_point((-1, 0), (0, 1)), Ok((-1, 2)));
    assert_eq!(make_extra_point((1, 1), (0, 0)), Ok((1, 0)));
    assert_eq!(make_extra_point((0, 1), (1, 0)), Ok((1, 2)));
}

#[test]
fn extra_point_is_strictly_left_of_every_segment() {
    for x0 in -3i32..=3 {
        for y0 in -3i32..=3 {
            for x1 in -3i32..=3 {
                for y1 in -3i32..=3 {
                    if (x0, y0) == (x1, y1) {
                        continue;
                    }
                    let e = make_extra_point((x0, y0), (x1, y1)).unwrap();
                    let (ax, ay) = (2 * x0 as i64, 2 * y0 as i64);
                    let (bx, by) = (2 * x1 as i64, 2 * y1 as i64);
                    // counter-clockwise and not flat
                    assert!((bx - ax) * (e.1 - ay) - (by - ay) * (e.0 - ax) > 0);
                }
            }
        }
    }
}

#[test]
fn boundary_edges_of_a_triangle() {
    // polygon of five vertices: the last is 4
    assert_eq!(triangle_edges(0, 1, 2, 4), (true, false, true));
    assert_eq!(triangle_edges(0, 2, 4, 4), (false, true, false));
    assert_eq!(triangle_edges(4, 2, 3, 4), (true, true, false));
    assert_eq!(triangle_edges(3, 4, 0, 4), (true, false, true));
    // an edge against the direction of the polygon is no boundary edge
    assert_eq!(triangle_edges(2, 1, 0, 4), (false, false, false));
}

#[test]
fn push3_writes_a_colour_three_times() {
    let mut v = vec![9];
    push3(&mut v, [1, 2, 3]);
    assert_eq!(v, vec![9, 1, 2, 3, 1, 2, 3, 1, 2, 3]);
}

#[test]
fn control_points_are_kept_for_the_next_time() {
    let polygon = vec![(0, 0), (9, 0), (9, 9)];
    let mut map = HashMap::new();
    let key_01: u128 = 1;
    let key_12: u128 = (1u128 << 64) + 2;
    map.insert(key_01, ((1, 1), (2, 2)));
    let (mut vs, mut cp1s, mut cp2s) = (vec![], vec![], vec![]);
    get_control_points(&polygon, 0, 1, 77, &mut map, &mut vs, &mut cp1s, &mut cp2s);
    assert_eq!(vs, vec![0, 0, 77]);
    assert_eq!(cp1s, vec![1, 1]);
    assert_eq!(cp2s, vec![2, 2]);
    assert_eq!(map.len(), 1);
    get_control_points(&polygon, 1, 2, 77, &mut map, &mut vs, &mut cp1s, &mut cp2s);
    assert_eq!(vs, vec![0, 0, 77, 54, 0, 77]);
    assert_eq!(cp1s, vec![1, 1, 54, 18]);
    assert_eq!(cp2s, vec![2, 2, 54, 36]);
    assert_eq!(map.get(&key_12), Some(&((54, 18), (54, 36))));
    // the opposite direction is another edge
    get_control_points(&polygon, 2, 1, 77, &mut map, &mut vs, &mut cp1s, &mut cp2s);
    assert_eq!(map.len(), 3);
    assert_eq!(&cp1s[4..], &[54, 36]);
}

fn segment_lengths(d: &Drawing) -> [usize; 7] {
    [
        d.vertices().len(),
        d.control_point_1s().len(),
        d.control_point_2s().len(),
        d.fill_colors().len(),
        d.stroke_edges().len(),
        d.stroke_colors().len(),
        d.do_fill().len(),
    ]
}

#[test]
fn new_drawing_is_empty_and_stale() {
    let d = Drawing::new(1280, 800, 4, 5, 6);
    assert_eq!(segment_lengths(&d), [0; 7]);
    assert_eq!(d.depth_idx(), 0);
    assert_eq!(d.num_tris(), 0);
    assert_eq!(d.window_size(), (1280, 800));
    assert_eq!(d.background_color(), [4, 5, 6]);
    assert!(d.is_stale());
}

#[test]
fn open_path_without_stroke_is_refused() {
    let mut d = Drawing::new(100, 100, 0, 0, 0);
    let path = Path::new((0, 0)).line_to((10, 0)).line_to((10, 10));
    assert_eq!(d.add_path(path), Err(TrdlError::NoVisibleGeometry));
    assert_eq!(segment_lengths(&d), [0; 7]);
    assert_eq!(d.depth_idx(), 0);
    // a fill does not help an open path
    let path = Path::new((0, 0)).line_to((10, 0)).set_fill_color(1, 1, 1);
    assert_eq!(d.add_path(path), Err(TrdlError::NoVisibleGeometry));
}

#[test]
fn open_path_with_stroke_gives_a_triangle_per_segment() {
    let mut d = Drawing::new(100, 100, 0, 0, 0);
    let path = Path::new((0, 0)).line_to((10, 0)).curve_to((11, 3), (12, 6), (10, 10)).set_stroke(7, 8, 9, 2);
    assert_eq!(d.add_path(path), Ok(()));
    assert_eq!(d.num_tris(), 2);
    assert_eq!(d.depth_idx(), 1);
    assert_eq!(segment_lengths(&d), [18, 12, 12, 18, 6, 18, 6]);
    let depth = MAX_DEPTH - 1;
    assert_eq!(
        d.vertices(),
        &vec![0, 0, depth, 60, 0, depth, 30, 30, depth, 60, 0, depth, 60, 60, depth, 30, 30, depth]
    );
    // first segment: a line, then the two edges to and from the extra point
    // second segment: the curve as given, then the two edges
    assert_eq!(d.control_point_1s(), &vec![20, 0, 50, 10, 20, 20, 66, 18, 50, 50, 40, 20]);
    assert_eq!(d.control_point_2s(), &vec![40, 0, 40, 20, 10, 10, 72, 36, 40, 40, 50, 10]);
    assert_eq!(d.stroke_edges(), &vec![0, 0, 2, 0, 0, 2]);
    assert_eq!(d.stroke_colors(), &vec![7, 8, 9, 7, 8, 9, 7, 8, 9, 7, 8, 9, 7, 8, 9, 7, 8, 9]);
    assert_eq!(d.fill_colors(), &vec![0; 18]);
    assert_eq!(d.do_fill(), &vec![0; 6]);
}

#[test]
fn open_path_of_one_step_is_a_true_triangle() {
    let mut d = Drawing::new(100, 100, 0, 0, 0);
    assert_eq!(d.add_path(Path::new((-1, 0)).line_to((0, 1)).set_stroke(0, 0, 0, 1)), Ok(()));
    let depth = MAX_DEPTH - 1;
    assert_eq!(d.vertices(), &vec![-6, 0, depth, 0, 6, depth, -3, 6, depth]);
    assert_eq!(d.control_point_1s(), &vec![-4, 2, -1, 6, -4, 4]);
    assert_eq!(d.control_point_2s(), &vec![-2, 4, -2, 6, -5, 2]);
}

#[test]
fn open_path_of_one_point_gives_no_triangle() {
    let mut d = Drawing::new(100, 100, 0, 0, 0);
    assert_eq!(d.add_path(Path::new((1, 1)).set_stroke(0, 0, 0, 1)), Ok(()));
    assert_eq!(d.num_tris(), 0);
    assert_eq!(d.depth_idx(), 1);
    assert_eq!(segment_lengths(&d), [0; 7]);
}

#[test]
fn open_path_with_a_segment_without_length_is_refused() {
    let mut d = Drawing::new(100, 100, 0, 0, 0);
    let good = Path::new((0, 0)).line_to((10, 0)).set_stroke(1, 1, 1, 1);
    assert_eq!(d.add_path(good), Ok(()));
    let before = segment_lengths(&d);
    assert!(d.draw());
    let bad = Path::new((0, 0)).line_to((10, 0)).line_to((10, 0)).set_stroke(1, 1, 1, 1);
    assert_eq!(d.add_path(bad), Err(TrdlError::NonSimplePolygon));
    assert_eq!(segment_lengths(&d), before);
    assert_eq!(d.depth_idx(), 1);
    assert_eq!(d.num_tris(), 1);
    assert!(d.is_stale());
}

fn square() -> Path {
    Path::new((0, 0)).line_to((9, 0)).line_to((9, 9)).line_to((0, 9)).close_path()
}

#[test]
fn closed_square_gives_two_triangles() {
    let mut d = Drawing::new(100, 100, 0, 0, 0);
    assert_eq!(d.add_path(square().set_fill_color(1, 2, 3).set_stroke(4, 5, 6, 7)), Ok(()));
    assert_eq!(d.num_tris(), 2);
    assert_eq!(d.depth_idx(), 1);
    assert_eq!(segment_lengths(&d), [18, 12, 12, 18, 6, 18, 6]);
    assert_eq!(d.do_fill(), &vec![1; 6]);
    assert_eq!(d.fill_colors(), &vec![1, 2, 3, 1, 2, 3, 1, 2, 3, 1, 2, 3, 1, 2, 3, 1, 2, 3]);
    assert_eq!(d.stroke_colors(), &vec![4, 5, 6, 4, 5, 6, 4, 5, 6, 4, 5, 6, 4, 5, 6, 4, 5, 6]);
    // each triangle has two sides on the boundary and one on the diagonal
    for t in 0..2 {
        let edges = &d.stroke_edges()[3 * t..3 * t + 3];
        assert_eq!(edges.iter().filter(|e| **e == 7).count(), 2);
        assert_eq!(edges.iter().filter(|e| **e == 0).count(), 1);
    }
    // every vertex is a corner of the square at the first depth
    let v = d.vertices();
    for k in 0..6 {
        assert!(v[3 * k] == 0 || v[3 * k] == 9 * FINE);
        assert!(v[3 * k + 1] == 0 || v[3 * k + 1] == 9 * FINE);
        assert_eq!(v[3 * k + 2], MAX_DEPTH - 1);
    }
}

#[test]
fn closed_path_without_colours_is_drawn_blank() {
    let mut d = Drawing::new(100, 100, 0, 0, 0);
    assert_eq!(d.add_path(square()), Ok(()));
    assert_eq!(d.do_fill(), &vec![0; 6]);
    assert_eq!(d.fill_colors(), &vec![0; 18]);
    assert_eq!(d.stroke_colors(), &vec![0; 18]);
    assert_eq!(d.stroke_edges(), &vec![0; 6]);
}

#[test]
fn closed_triangle_streams_are_exact() {
    let mut d = Drawing::new(100, 100, 0, 0, 0);
    let path = Path::new((0, 0)).curve_to((3, -3), (6, -3), (9, 0)).line_to((0, 9)).close_path().set_stroke(1, 1, 1, 4);
    assert_eq!(d.add_path(path), Ok(()));
    let depth = MAX_DEPTH - 1;
    assert_eq!(d.vertices(), &vec![0, 0, depth, 54, 0, depth, 0, 54, depth]);
    assert_eq!(d.control_point_1s(), &vec![18, -18, 36, 18, 0, 36]);
    assert_eq!(d.control_point_2s(), &vec![36, -18, 18, 36, 0, 18]);
    assert_eq!(d.stroke_edges(), &vec![4, 4, 4]);
}

#[test]
fn closed_path_errors_leave_the_drawing_alone() {
    let mut d = Drawing::new(100, 100, 0, 0, 0);
    let two = Path::new((0, 0)).line_to((9, 0)).close_path().set_fill_color(1, 1, 1);
    assert_eq!(d.add_path(two), Err(TrdlError::NotEnoughVertices));
    let none = Path::new((0, 0)).close_path();
    assert_eq!(d.add_path(none), Err(TrdlError::NotEnoughVertices));
    let clockwise = Path::new((0, 0)).line_to((0, 9)).line_to((9, 9)).line_to((9, 0)).close_path();
    assert_eq!(d.add_path(clockwise), Err(TrdlError::NonSimplePolygon));
    assert_eq!(segment_lengths(&d), [0; 7]);
    assert_eq!(d.depth_idx(), 0);
}

#[test]
fn later_paths_get_the_next_depth() {
    let mut d = Drawing::new(100, 100, 0, 0, 0);
    let triangle = || Path::new((0, 0)).line_to((9, 0)).line_to((0, 9)).close_path();
    assert_eq!(d.add_path(triangle()), Ok(()));
    assert_eq!(d.add_path(triangle()), Ok(()));
    assert_eq!(d.depth_idx(), 2);
    assert_eq!(d.num_tris(), 1);
    let v = d.vertices();
    assert_eq!(v[2], MAX_DEPTH - 1);
    assert_eq!(v[9 + 2], MAX_DEPTH - 2);
    // compiled twice, the path gives the same streams but for the depth
    for i in 0..9 {
        if i % 3 != 2 {
            assert_eq!(v[i], v[9 + i]);
        }
    }
    assert_eq!(d.control_point_1s()[..6], d.control_point_1s()[6..]);
    assert_eq!(d.control_point_2s()[..6], d.control_point_2s()[6..]);
}

#[test]
fn compiling_a_path_again_gives_the_same_streams() {
    let path = || {
        Path::new((0, 0))
            .curve_to((10, -10), (40, -10), (50, 0))
            .line_to((20, 20))
            .line_to((50, 40))
            .line_to((0, 40))
            .close_path()
            .set_fill_color(1, 2, 3)
            .set_stroke(4, 5, 6, 2)
    };
    let mut a = Drawing::new(100, 100, 0, 0, 0);
    let mut b = Drawing::new(100, 100, 0, 0, 0);
    assert_eq!(a.add_path(path()), Ok(()));
    assert_eq!(b.add_path(path()), Ok(()));
    assert_eq!(a.num_tris(), 3);
    assert_eq!(segment_lengths(&a), segment_lengths(&b));
    // this polygon has one triangulation only; in which order its triangles
    // come is open, so compare what does not depend on that
    let mut va: Vec<(i64, i64, i64)> = a.vertices().chunks(3).map(|c| (c[0], c[1], c[2])).collect();
    let mut vb: Vec<(i64, i64, i64)> = b.vertices().chunks(3).map(|c| (c[0], c[1], c[2])).collect();
    va.sort();
    vb.sort();
    assert_eq!(va, vb);
    assert_eq!(a.fill_colors(), b.fill_colors());
    assert_eq!(a.stroke_colors(), b.stroke_colors());
    assert_eq!(a.do_fill(), b.do_fill());
}

#[test]
fn clearing_and_drawing() {
    let mut d = Drawing::new(100, 100, 1, 2, 3);
    assert_eq!(d.add_path(square()), Ok(()));
    assert!(d.draw());
    assert!(!d.is_stale());
    assert!(!d.draw());
    assert_eq!(segment_lengths(&d), [18, 12, 12, 18, 6, 18, 6]);
    d.set_size(640, 480);
    assert_eq!(d.window_size(), (640, 480));
    assert!(d.is_stale());
    assert!(d.draw());
    d.clear_paths();
    assert_eq!(segment_lengths(&d), [0; 7]);
    assert_eq!(d.depth_idx(), 0);
    assert_eq!(d.num_tris(), 0);
    assert!(d.is_stale());
    assert_eq!(d.background_color(), [1, 2, 3]);
    assert_eq!(d.window_size(), (640, 480));
}

#[test]
fn one_path_added_twice_gives_the_same_triangles_twice() {
    // a polygon with one triangulation only, one of its sides a curve
    let path = Path::new((0, 0))
        .curve_to((10, -10), (40, -10), (50, 0))
        .line_to((20, 20))
        .line_to((50, 40))
        .line_to((0, 40))
        .close_path()
        .set_fill_color(1, 2, 3)
        .set_stroke(4, 5, 6, 2);
    let mut d = Drawing::new(100, 100, 0, 0, 0);
    assert_eq!(d.add_path(path.duplicate()), Ok(()));
    assert_eq!(d.add_path(path), Ok(()));
    assert_eq!(d.depth_idx(), 2);
    let corners = |from: usize| -> Vec<(i64, i64)> {
        let mut c: Vec<(i64, i64)> = d.vertices()[from..from + 27].chunks(3).map(|c| (c[0], c[1])).collect();
        c.sort();
        c
    };
    assert_eq!(corners(0), corners(27));
    let curves = |stream: &Vec<i64>, from: usize| -> Vec<(i64, i64)> {
        let mut c: Vec<(i64, i64)> = stream[from..from + 18].chunks(2).map(|c| (c[0], c[1])).collect();
        c.sort();
        c
    };
    // nothing kept from the first time shows in the second
    assert_eq!(curves(d.control_point_1s(), 0), curves(d.control_point_1s(), 18));
    assert_eq!(curves(d.control_point_2s(), 0), curves(d.control_point_2s(), 18));
    assert_eq!(d.fill_colors()[..27], d.fill_colors()[27..]);
    assert_eq!(d.stroke_colors()[..27], d.stroke_colors()[27..]);
    assert_eq!(d.do_fill()[..9], d.do_fill()[9..]);
    let mut first: Vec<u32> = d.stroke_edges()[..9].to_vec();
    let mut second: Vec<u32> = d.stroke_edges()[9..].to_vec();
    first.sort();
    second.sort();
    assert_eq!(first, second);
    for k in 0..9 {
        assert_eq!(d.vertices()[3 * k + 2], MAX_DEPTH - 1);
        assert_eq!(d.vertices()[27 + 3 * k + 2], MAX_DEPTH - 2);
    }
}

#[test]
fn one_open_path_added_twice_differs_in_depth_alone() {
    let path = Path::new((0, 0)).line_to((7, 3)).curve_to((8, 8), (3, 9), (-2, 5)).set_stroke(1, 2, 3, 4);
    let mut d = Drawing::new(100, 100, 0, 0, 0);
    assert_eq!(d.add_path(path.duplicate()), Ok(()));
    assert_eq!(d.add_path(path), Ok(()));
    for i in 0..18 {
        if i % 3 == 2 {
            assert_eq!(d.vertices()[i], MAX_DEPTH - 1);
            assert_eq!(d.vertices()[18 + i], MAX_DEPTH - 2);
        } else {
            assert_eq!(d.vertices()[i], d.vertices()[18 + i]);
        }
    }
    assert_eq!(d.control_point_1s()[..12], d.control_point_1s()[12..]);
    assert_eq!(d.control_point_2s()[..12], d.control_point_2s()[12..]);
    assert_eq!(d.stroke_edges()[..6], d.stroke_edges()[6..]);
    assert_eq!(d.stroke_colors()[..18], d.stroke_colors()[18..]);
}
