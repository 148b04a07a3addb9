use trdl::monotone::{HalfEdge, Point, TEdge, Triangulator, Vertex, VertexType};

// Coordinates given in tenths of a unit.
fn pt(x: f32, y: f32) -> Point {
    Point { x: (x * 10.0).round() as i32, y: (y * 10.0).round() as i32 }
}

fn nine_points() -> Vec<Point> {
    let n = 9;
    let mut points = Vec::with_capacity(n);
    points.push(pt(0.5, 2.5));
    points.push(pt(1.0, 3.0));
    points.push(pt(1.5, 2.5));
    points.push(pt(2.0, 3.0));
    points.push(pt(3.0, 2.0));
    points.push(pt(3.0, 1.0));
    points.push(pt(2.5, 1.5));
    points.push(pt(1.5, 0.5));
    points.push(pt(0.5, 1.0));
    points
}

#[test]
fn different_y() {
    let p1 = pt(0.1, 0.2);
    let p2 = pt(0.0, 0.3);
    assert!(p1 < p2);
}

#[test]
fn bigger_x_and_y() {
    let p1 = pt(0.1, 0.2);
    let p2 = pt(0.5, 0.3);
    assert!(p1 < p2);
}

#[test]
fn same_y() {
    let p1 = pt(0.5, 0.2);
    let p2 = pt(0.4, 0.2);
    assert!(p1 < p2);
}

#[test]
fn point_order_is_strict() {
    let p = pt(0.5, 0.2);
    assert!(!(p < p));
    assert!(p <= p);
    assert!(pt(0.4, 0.2) > p);
    assert_eq!(p.partial_cmp(&p), Some(std::cmp::Ordering::Equal));
}

#[test]
fn test_make_edge_list() {
    let n = 9;
    let points = nine_points();

    let mut tri = Triangulator::new(points.clone());

    tri.build_edge_list();

    assert_eq!(tri.edge_list[0].origin, points[0]);
    assert_eq!(tri.edge_list[tri.edge_list[0].prev_index].origin, points[n - 1]);
    assert_eq!(tri.edge_list[tri.edge_list[0].next_index].origin, points[1]);

    assert_eq!(tri.edge_list[1].origin, points[1]);
    assert_eq!(tri.edge_list[tri.edge_list[1].prev_index].origin, points[0]);
    assert_eq!(tri.edge_list[tri.edge_list[1].next_index].origin, points[2]);

    assert_eq!(tri.edge_list[2].origin, points[2]);
    assert_eq!(tri.edge_list[tri.edge_list[2].prev_index].origin, points[1]);
    assert_eq!(tri.edge_list[tri.edge_list[2].next_index].origin, points[3]);

    assert_eq!(tri.edge_list[3].origin, points[3]);
    assert_eq!(tri.edge_list[tri.edge_list[3].prev_index].origin, points[2]);
    assert_eq!(tri.edge_list[tri.edge_list[3].next_index].origin, points[4]);

    assert_eq!(tri.edge_list[4].origin, points[4]);
    assert_eq!(tri.edge_list[tri.edge_list[4].prev_index].origin, points[3]);
    assert_eq!(tri.edge_list[tri.edge_list[4].next_index].origin, points[5]);

    assert_eq!(tri.edge_list[5].origin, points[5]);
    assert_eq!(tri.edge_list[tri.edge_list[5].prev_index].origin, points[4]);
    assert_eq!(tri.edge_list[tri.edge_list[5].next_index].origin, points[6]);

    assert_eq!(tri.edge_list[6].origin, points[6]);
    assert_eq!(tri.edge_list[tri.edge_list[6].prev_index].origin, points[5]);
    assert_eq!(tri.edge_list[tri.edge_list[6].next_index].origin, points[7]);

    assert_eq!(tri.edge_list[7].origin, points[7]);
    assert_eq!(tri.edge_list[tri.edge_list[7].prev_index].origin, points[6]);
    assert_eq!(tri.edge_list[tri.edge_list[7].next_index].origin, points[8]);

    assert_eq!(tri.edge_list[8].origin, points[8]);
    assert_eq!(tri.edge_list[tri.edge_list[8].prev_index].origin, points[7]);
    assert_eq!(tri.edge_list[tri.edge_list[8].next_index].origin, points[0]);
}

#[test]
fn test_classify_vertex() {
    let points = nine_points();

    let mut tri = Triangulator::new(points.clone());

    tri.build_edge_list();

    assert_eq!(tri.classify_vertex(0), Vertex::new(points[0], VertexType::Regular, 0));
    assert_eq!(tri.classify_vertex(1), Vertex::new(points[1], VertexType::Start, 1));
    assert_eq!(tri.classify_vertex(2), Vertex::new(points[2], VertexType::Merge, 2));
    assert_eq!(tri.classify_vertex(3), Vertex::new(points[3], VertexType::Start, 3));
    assert_eq!(tri.classify_vertex(4), Vertex::new(points[4], VertexType::Regular, 4));
    assert_eq!(tri.classify_vertex(5), Vertex::new(points[5], VertexType::End, 5));
    assert_eq!(tri.classify_vertex(6), Vertex::new(points[6], VertexType::Split, 6));
    assert_eq!(tri.classify_vertex(7), Vertex::new(points[7], VertexType::End, 7));
    assert_eq!(tri.classify_vertex(8), Vertex::new(points[8], VertexType::Regular, 8));
}

#[test]
fn test_build_vertex_queue() {
    let points = nine_points();

    let mut tri = Triangulator::new(points.clone());

    tri.build_edge_list();

    tri.build_vertex_queue();

    // vertices should now be sorted
    assert_eq!(tri.queue_pop().unwrap(), Vertex::new(points[1], VertexType::Start, 1)); // 0
    assert_eq!(tri.queue_pop().unwrap(), Vertex::new(points[3], VertexType::Start, 3)); // 1
    assert_eq!(tri.queue_pop().unwrap(), Vertex::new(points[0], VertexType::Regular, 0)); // 2
    assert_eq!(tri.queue_pop().unwrap(), Vertex::new(points[2], VertexType::Merge, 2)); // 3
    assert_eq!(tri.queue_pop().unwrap(), Vertex::new(points[4], VertexType::Regular, 4)); // 4
    assert_eq!(tri.queue_pop().unwrap(), Vertex::new(points[6], VertexType::Split, 6)); // 5
    assert_eq!(tri.queue_pop().unwrap(), Vertex::new(points[8], VertexType::Regular, 8)); // 6
    assert_eq!(tri.queue_pop().unwrap(), Vertex::new(points[5], VertexType::End, 5)); // 7
    assert_eq!(tri.queue_pop().unwrap(), Vertex::new(points[7], VertexType::End, 7)); // 8
    assert_eq!(tri.queue_pop(), None);
}

#[test]
fn test_insert_edge() {
    let n = 4;
    let mut points = Vec::with_capacity(n);
    points.push(pt(0.0, 1.0));
    points.push(pt(0.0, 0.0));
    points.push(pt(1.0, 0.0));
    points.push(pt(1.0, 1.0));

    let mut tri = Triangulator::new(points.clone());

    tri.build_edge_list();
    tri.insert_edge(0, 2);

    assert_eq!(tri.edge_list[0], HalfEdge { origin: points[0], prev_index: 5, next_index: 1 });
    assert_eq!(tri.edge_list[1], HalfEdge { origin: points[1], prev_index: 0, next_index: 5 });
    assert_eq!(tri.edge_list[5], HalfEdge { origin: points[2], prev_index: 1, next_index: 0 });

    assert_eq!(tri.edge_list[3], HalfEdge { origin: points[3], prev_index: 2, next_index: 4 });
    assert_eq!(tri.edge_list[4], HalfEdge { origin: points[0], prev_index: 3, next_index: 2 });
    assert_eq!(tri.edge_list[2], HalfEdge { origin: points[2], prev_index: 4, next_index: 3 });
}

#[test]
fn triangulate_prepares_the_sweep() {
    let points = nine_points();
    let mut tri = Triangulator::triangulate(points.clone());
    assert_eq!(tri.points, points);
    assert_eq!(tri.edge_list.len(), 9);
    assert_eq!(tri.vertex_queue.len(), 9);
    assert!(tri.status.is_empty());
    assert_eq!(tri.prev_t_edge, None);
    assert_eq!(tri.queue_pop().unwrap().edge_index, 1);
}

#[test]
fn edge_list_of_a_single_point() {
    let mut tri = Triangulator::new(vec![pt(1.0, 1.0)]);
    tri.build_edge_list();
    assert_eq!(tri.edge_list, vec![HalfEdge { origin: pt(1.0, 1.0), prev_index: 0, next_index: 0 }]);
}

#[test]
fn queue_orders_equal_points_by_type_and_index() {
    let p = pt(1.0, 1.0);
    let mut tri = Triangulator::new(vec![p]);
    tri.queue_push(Vertex::new(p, VertexType::Regular, 0));
    tri.queue_push(Vertex::new(p, VertexType::Start, 7));
    tri.queue_push(Vertex::new(p, VertexType::Start, 3));
    tri.queue_push(Vertex::new(p, VertexType::Merge, 1));
    assert_eq!(tri.queue_pop(), Some(Vertex::new(p, VertexType::Regular, 0)));
    assert_eq!(tri.queue_pop(), Some(Vertex::new(p, VertexType::Merge, 1)));
    assert_eq!(tri.queue_pop(), Some(Vertex::new(p, VertexType::Start, 7)));
    assert_eq!(tri.queue_pop(), Some(Vertex::new(p, VertexType::Start, 3)));
}

fn t_edge(x: i32, helper_index: usize) -> TEdge {
    TEdge {
        edge: HalfEdge { origin: Point { x, y: 0 }, next_index: 0, prev_index: 0 },
        helper: Vertex::new(Point { x, y: 0 }, VertexType::Regular, helper_index),
    }
}

#[test]
fn status_is_kept_from_left_to_right() {
    let mut tri = Triangulator::new(vec![]);
    assert!(tri.status_insert(t_edge(5, 0)));
    assert!(tri.status_insert(t_edge(1, 1)));
    assert!(tri.status_insert(t_edge(9, 2)));
    // an edge that starts at an x already there is not put in
    assert!(!tri.status_insert(t_edge(5, 3)));
    assert_eq!(tri.status, vec![t_edge(1, 1), t_edge(5, 0), t_edge(9, 2)]);
    assert_eq!(tri.status_left_of(1), None);
    assert_eq!(tri.status_left_of(5), Some(t_edge(1, 1)));
    assert_eq!(tri.status_left_of(6), Some(t_edge(5, 0)));
    assert_eq!(tri.status_left_of(100), Some(t_edge(9, 2)));
    assert!(tri.status_remove(&t_edge(5, 99)));
    assert!(!tri.status_remove(&t_edge(5, 99)));
    assert_eq!(tri.status, vec![t_edge(1, 1), t_edge(9, 2)]);
}

#[test]
fn start_vertex_enters_the_status() {
    let points = nine_points();
    let mut tri = Triangulator::triangulate(points.clone());
    let vertex = tri.queue_pop().unwrap();
    tri.handle_start_vertex(&vertex);
    let entered = TEdge { edge: tri.edge_list[1], helper: vertex };
    assert_eq!(tri.prev_t_edge, Some(entered));
    assert_eq!(tri.status, vec![entered]);
}

#[test]
fn end_vertex_leaves_the_status() {
    let points = nine_points();
    let mut tri = Triangulator::triangulate(points.clone());
    let start = tri.classify_vertex(1);
    tri.handle_start_vertex(&start);
    let end = tri.classify_vertex(5);
    tri.handle_end_vertex(&end);
    assert_eq!(tri.prev_t_edge, None);
    assert!(tri.status.is_empty());
    assert_eq!(tri.edge_list.len(), 9);
}

#[test]
fn end_vertex_draws_a_diagonal_to_a_merge_helper() {
    let points = nine_points();
    let mut tri = Triangulator::triangulate(points.clone());
    let merge = tri.classify_vertex(2);
    assert_eq!(merge.vertex_type, VertexType::Merge);
    tri.prev_t_edge = Some(TEdge { edge: tri.edge_list[0], helper: merge });
    let end = tri.classify_vertex(5);
    tri.handle_end_vertex(&end);
    assert_eq!(tri.edge_list.len(), 11);
    assert_eq!(tri.edge_list[9], HalfEdge { origin: points[5], prev_index: 4, next_index: 2 });
    assert_eq!(tri.edge_list[10], HalfEdge { origin: points[2], prev_index: 1, next_index: 5 });
    assert_eq!(tri.edge_list[5].prev_index, 10);
    assert_eq!(tri.edge_list[2].prev_index, 9);
    assert_eq!(tri.edge_list[4].next_index, 9);
    assert_eq!(tri.edge_list[1].next_index, 10);
}

#[test]
fn split_vertex_helps_the_edge_to_its_left() {
    let points = nine_points();
    let mut tri = Triangulator::triangulate(points.clone());
    let start = tri.classify_vertex(1);
    tri.handle_start_vertex(&start);
    let split = tri.classify_vertex(6);
    assert_eq!(split.vertex_type, VertexType::Split);
    tri.handle_split_vertex(&split);
    assert_eq!(tri.prev_t_edge, Some(TEdge { edge: tri.edge_list[6], helper: split }));
    assert_eq!(
        tri.status,
        vec![TEdge { edge: tri.edge_list[1], helper: split }, TEdge { edge: tri.edge_list[6], helper: split }]
    );
}
