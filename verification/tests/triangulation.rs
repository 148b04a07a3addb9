use trdl::geometry::{compare_to_line, is_convex, is_in_triangle, LineCompare};
use std::collections::HashSet;
use trdl::triangulation::{
    classify_vertex, fill_sets, is_ear, make_vertex_vec, push_triangle, remove_vertex, triangulate, Vertex,
    VertexType,
};
use trdl::TrdlError;

// Coordinates given in hundredths of a unit.
fn pt(x: f32, y: f32) -> (i32, i32) {
    ((x * 100.0).round() as i32, (y * 100.0).round() as i32)
}

#[test]
fn test_compare_to_line() {
    let v0 = pt(0.1, 0.1);
    let v1 = pt(0.5, 0.5);

    let test = pt(0.2, 1.2);
    assert_eq!(compare_to_line(&test, &v0, &v1), LineCompare::Left);

    let test = pt(0.2, -1.0);
    assert_eq!(compare_to_line(&test, &v0, &v1), LineCompare::Right);

    let test = pt(0.1 + (0.5 - 0.1) * 0.2, 0.1 + (0.5 - 0.1) * 0.2);
    assert_eq!(compare_to_line(&test, &v0, &v1), LineCompare::On);
}

#[test]
fn test_is_convex() {
    let v0 = pt(0.1, 0.1);
    let v1 = pt(0.5, 0.5);

    let test = pt(0.2, 1.2);
    assert!(!is_convex(&test, &v0, &v1));

    let test = pt(0.2, -1.0);
    assert!(is_convex(&test, &v0, &v1));

    let test = pt(0.1 + (0.5 - 0.1) * 0.2, 0.1 + (0.5 - 0.1) * 0.2);
    assert!(!is_convex(&test, &v0, &v1));
}

#[test]
fn test_is_in_triangle() {
    let v0 = pt(0.0, 0.0);
    let v1 = pt(1.0, 0.0);
    let v2 = pt(0.0, 1.0);

    let test = pt(0.75, 0.75);
    assert!(!is_in_triangle(&test, &v0, &v1, &v2));

    let test = pt(0.25, 0.25);
    assert!(is_in_triangle(&test, &v0, &v1, &v2));

    let test = pt(0.5, 0.5);
    assert!(!is_in_triangle(&test, &v0, &v1, &v2));
}

fn is_expected_triangle(v0: &usize, v1: &usize, v2: &usize, expected: &(usize, usize, usize)) -> bool {
    if *v0 == expected.0 && *v1 == expected.1 && *v2 == expected.2 {
        return true;
    }
    if *v1 == expected.0 && *v2 == expected.1 && *v0 == expected.2 {
        return true;
    }
    if *v2 == expected.0 && *v0 == expected.1 && *v1 == expected.2 {
        return true;
    }
    false
}

fn is_same_triangulation(triangles: &Vec<usize>, mut expected: Vec<(usize, usize, usize)>) -> bool {
    let n = triangles.len() / 3;
    for i in 0..n {
        let mut matched = false;
        let mut match_index = 0;
        for (index, ex) in expected.iter().enumerate() {
            if is_expected_triangle(&triangles[i * 3], &triangles[i * 3 + 1], &triangles[i * 3 + 2], ex) {
                matched = true;
                match_index = index;
                break;
            }
        }
        if matched {
            expected.remove(match_index);
        } else {
            return false;
        }
    }
    true
}

#[test]
fn test_triangulate_square() {
    let points = vec![pt(0.0, 0.0), pt(1.0, 0.0), pt(1.0, 1.0), pt(0.0, 1.0)];

    let triangles = triangulate(&points).unwrap();

    for i in 0..(triangles.len() / 3) {
        println!("{}, {}, {}", triangles[i * 3], triangles[i * 3 + 1], triangles[i * 3 + 2]);
    }

    // there are two valid triangulations of a square, up-right diagonal
    // and down-right diagonal, so we try both
    assert!(
        is_same_triangulation(&triangles, vec![(0, 1, 2), (0, 2, 3)])
            || is_same_triangulation(&triangles, vec![(0, 1, 3), (3, 1, 2)])
    );
}

#[test]
fn test_triangulate_reflex() {
    let points = vec![pt(0.0, 0.0), pt(5.0, 0.0), pt(2.0, 2.0), pt(5.0, 4.0), pt(0.0, 4.0)];

    let triangles = triangulate(&points).unwrap();

    for i in 0..(triangles.len() / 3) {
        println!("{}, {}, {}", triangles[i * 3], triangles[i * 3 + 1], triangles[i * 3 + 2]);
    }

    assert!(is_same_triangulation(&triangles, vec![(0, 1, 2), (0, 2, 4), (4, 2, 3)]));
}

#[test]
fn triangle_is_returned_as_it_stands() {
    let points = vec![(0, 0), (4, 0), (0, 4)];
    assert_eq!(triangulate(&points), Ok(vec![0, 1, 2]));
    // no test is made of the three points: a clockwise triangle passes too
    let points = vec![(0, 0), (0, 4), (4, 0)];
    assert_eq!(triangulate(&points), Ok(vec![0, 1, 2]));
}

#[test]
fn too_few_vertices_are_refused() {
    assert_eq!(triangulate(&vec![]), Err(TrdlError::NotEnoughVertices));
    assert_eq!(triangulate(&vec![(0, 0)]), Err(TrdlError::NotEnoughVertices));
    assert_eq!(triangulate(&vec![(0, 0), (1, 1)]), Err(TrdlError::NotEnoughVertices));
}

#[test]
fn clockwise_square_has_no_ear() {
    let points = vec![(0, 0), (0, 1), (1, 1), (1, 0)];
    assert_eq!(triangulate(&points), Err(TrdlError::NonSimplePolygon));
}

fn reflex_polygon() -> Vec<(i32, i32)> {
    vec![(0, 0), (5, 0), (2, 2), (5, 4), (0, 4)]
}

fn crown() -> Vec<(i32, i32)> {
    vec![(0, 0), (10, 0), (10, 10), (7, 3), (5, 10), (3, 3), (0, 10)]
}

fn doubled_area(a: (i32, i32), b: (i32, i32), c: (i32, i32)) -> i64 {
    (b.0 - a.0) as i64 * (c.1 - a.1) as i64 - (b.1 - a.1) as i64 * (c.0 - a.0) as i64
}

fn doubled_polygon_area(points: &Vec<(i32, i32)>) -> i64 {
    let n = points.len();
    let mut sum = 0i64;
    for i in 0..n {
        let (p, q) = (points[i], points[(i + 1) % n]);
        sum += p.0 as i64 * q.1 as i64 - q.0 as i64 * p.1 as i64;
    }
    sum
}

#[test]
fn vertex_list_is_a_ring() {
    assert_eq!(
        make_vertex_vec(4),
        vec![Vertex::new(0, 3, 1), Vertex::new(1, 0, 2), Vertex::new(2, 1, 3), Vertex::new(3, 2, 0)]
    );
    assert_eq!(make_vertex_vec(2), vec![Vertex::new(0, 1, 1), Vertex::new(1, 0, 0)]);
    let v = Vertex::new(7, 6, 8);
    assert_eq!((v.index, v.prev_index, v.next_index, v.is_convex, v.is_ear), (7, 6, 8, false, false));
}

#[test]
fn removing_a_vertex_links_its_neighbours() {
    let mut vertices = make_vertex_vec(5);
    remove_vertex(&mut vertices, 2);
    assert_eq!(vertices[1], Vertex::new(1, 0, 3));
    assert_eq!(vertices[3], Vertex::new(3, 1, 4));
    // the removed entry and the others are left alone
    assert_eq!(vertices[2], Vertex::new(2, 1, 3));
    assert_eq!(vertices[0], Vertex::new(0, 4, 1));
    assert_eq!(vertices[4], Vertex::new(4, 3, 0));
    remove_vertex(&mut vertices, 0);
    assert_eq!(vertices[4], Vertex::new(4, 3, 1));
    assert_eq!(vertices[1], Vertex::new(1, 4, 3));
}

#[test]
fn triangle_is_pushed_with_the_tip_in_the_middle() {
    let mut triangles = vec![9];
    push_triangle(&mut triangles, 5, 4, 6);
    assert_eq!(triangles, vec![9, 4, 5, 6]);
}

#[test]
fn sets_of_the_reflex_polygon() {
    let points = reflex_polygon();
    let mut vertices = make_vertex_vec(points.len());
    let (ear_set, reflex_set) = fill_sets(&points, &mut vertices);
    assert_eq!(reflex_set, HashSet::from([2]));
    assert_eq!(ear_set, HashSet::from([1, 3]));
    let flags: Vec<(bool, bool)> = vertices.iter().map(|v| (v.is_convex, v.is_ear)).collect();
    assert_eq!(flags, vec![(true, false), (true, true), (false, false), (true, true), (true, false)]);
    // the links are as they were
    assert_eq!(vertices[0].prev_index, 4);
    assert_eq!(vertices[4].next_index, 0);
}

#[test]
fn ear_test_looks_at_reflex_vertices_only() {
    let points = reflex_polygon();
    let corner = Vertex::new(0, 4, 1);
    assert!(!is_ear(&points, &HashSet::from([2]), &corner));
    assert!(is_ear(&points, &HashSet::new(), &corner));
    // a reflex vertex that is a neighbour does not count
    assert!(is_ear(&points, &HashSet::from([2]), &Vertex::new(1, 0, 2)));
    assert_eq!(classify_vertex(&points, &corner, &HashSet::from([2])), VertexType::Convex);
    assert_eq!(classify_vertex(&points, &corner, &HashSet::new()), VertexType::Ear);
    assert_eq!(classify_vertex(&points, &Vertex::new(2, 1, 3), &HashSet::from([2])), VertexType::Reflex);
    assert_eq!(classify_vertex(&points, &Vertex::new(3, 2, 4), &HashSet::from([2])), VertexType::Ear);
}

#[test]
fn triangulation_covers_the_polygon() {
    for _ in 0..50 {
        for points in [reflex_polygon(), crown()] {
            let n = points.len();
            let triangles = triangulate(&points).unwrap();
            assert_eq!(triangles.len(), 3 * (n - 2));
            assert!(triangles.iter().all(|i| *i < n));
            for v in 0..n {
                assert!(triangles.contains(&v));
            }
            let mut sum = 0;
            for t in triangles.chunks(3) {
                let area = doubled_area(points[t[0]], points[t[1]], points[t[2]]);
                // counter-clockwise and not flat
                assert!(area > 0);
                sum += area;
            }
            assert_eq!(sum, doubled_polygon_area(&points));
        }
    }
}

#[test]
fn flat_corner_is_no_ear() {
    // the second point lies on the line between its neighbours
    let points = vec![(0, 0), (1, 0), (2, 0), (1, 1)];
    let mut vertices = make_vertex_vec(4);
    let (ear_set, reflex_set) = fill_sets(&points, &mut vertices);
    assert_eq!(reflex_set, HashSet::from([1]));
    assert_eq!(ear_set, HashSet::from([0, 2, 3]));
    let triangles = triangulate(&points).unwrap();
    assert_eq!(triangles.len(), 6);
    // the clipped triangle is a true one, whichever it is
    assert!(doubled_area(points[triangles[0]], points[triangles[1]], points[triangles[2]]) > 0);
}

#[test]
fn bow_tie_is_refused_or_clipped() {
    // a polygon that crosses itself
    let points = vec![(0, 0), (4, 4), (4, 0), (0, 4)];
    match triangulate(&points) {
        Ok(triangles) => assert_eq!(triangles.len(), 6),
        Err(e) => assert_eq!(e, TrdlError::NonSimplePolygon),
    }
}

#[test]
fn convex_polygon_is_always_triangulated() {
    let hexagon = vec![(2, 0), (6, 0), (8, 3), (6, 6), (2, 6), (0, 3)];
    for _ in 0..50 {
        let triangles = triangulate(&hexagon).unwrap();
        assert_eq!(triangles.len(), 12);
        for t in triangles.chunks(3) {
            assert!(doubled_area(hexagon[t[0]], hexagon[t[1]], hexagon[t[2]]) > 0);
        }
    }
}

#[test]
fn sawtooth_is_triangulated() {
    // a polygon with many reflex vertices: teeth along the bottom of a box
    let mut points = vec![(0, 0)];
    for i in 0..10 {
        points.push((20 * i + 10, 5 + i * i));
        points.push((20 * i + 20, 0));
    }
    points.push((200, 400));
    points.push((0, 400));
    let n = points.len();
    for _ in 0..20 {
        let triangles = triangulate(&points).unwrap();
        assert_eq!(triangles.len(), 3 * (n - 2));
        let mut sum = 0;
        for t in triangles.chunks(3) {
            let area = doubled_area(points[t[0]], points[t[1]], points[t[2]]);
            assert!(area > 0);
            sum += area;
        }
        assert_eq!(sum, doubled_polygon_area(&points));
    }
}

#[test]
fn reflex_vertices_on_a_diagonal_can_stop_the_clipping() {
    // a staircase under a lid: its inner corners lie on one line, and once the
    // lid is clipped along that line, what is left has no area
    let points = vec![(0, 0), (10, 0), (10, 10), (20, 10), (20, 20), (30, 20), (30, 30), (-10, 30)];
    let mut refused = 0;
    for _ in 0..200 {
        match triangulate(&points) {
            Ok(triangles) => {
                assert_eq!(triangles.len(), 18);
                let sum: i64 =
                    triangles.chunks(3).map(|t| doubled_area(points[t[0]], points[t[1]], points[t[2]])).sum();
                assert_eq!(sum, doubled_polygon_area(&points));
            }
            Err(e) => {
                assert_eq!(e, TrdlError::NonSimplePolygon);
                refused += 1;
            }
        }
    }
    println!("refused {} times out of 200", refused);
}

fn edge_counts(triangles: &Vec<usize>, n: usize) -> Vec<Vec<usize>> {
    let mut counts = vec![vec![0usize; n]; n];
    for t in triangles.chunks(3) {
        counts[t[0]][t[1]] += 1;
        counts[t[1]][t[2]] += 1;
        counts[t[2]][t[0]] += 1;
    }
    counts
}

#[test]
fn triangles_fit_together_along_their_edges() {
    let square = vec![(0, 0), (1, 0), (1, 1), (0, 1)];
    for _ in 0..30 {
        for points in [square.clone(), reflex_polygon(), crown()] {
            let n = points.len();
            let triangles = triangulate(&points).unwrap();
            let counts = edge_counts(&triangles, n);
            let mut diagonals = 0;
            for a in 0..n {
                for b in 0..n {
                    if b == (a + 1) % n {
                        // a side of the polygon: once this way, never the other way
                        assert_eq!(counts[a][b], 1);
                        assert_eq!(counts[b][a], 0);
                    } else if a != (b + 1) % n {
                        // anything else: as often as its reverse, and at most once
                        assert_eq!(counts[a][b], counts[b][a]);
                        assert!(counts[a][b] <= 1);
                        diagonals += counts[a][b];
                    }
                }
            }
            assert_eq!(diagonals, 2 * (n - 3));
        }
    }
}
