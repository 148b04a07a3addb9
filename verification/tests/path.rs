use trdl::path::Path;
use trdl::TrdlError;

#[test]
fn new_path_holds_its_start() {
    let path = Path::new((3, -4));
    assert_eq!(path.vertices(), &vec![(3, -4)]);
    assert!(path.control_point_1s().is_empty());
    assert!(path.control_point_2s().is_empty());
    assert_eq!(path.fill_color(), None);
    assert_eq!(path.stroke(), None);
    assert!(!path.is_closed());
}

#[test]
fn line_to_leaves_the_control_points_absent() {
    let path = Path::new((0, 0)).line_to((5, 0)).line_to((5, 5));
    assert_eq!(path.vertices(), &vec![(0, 0), (5, 0), (5, 5)]);
    assert_eq!(path.control_point_1s(), &vec![None, None]);
    assert_eq!(path.control_point_2s(), &vec![None, None]);
}

#[test]
fn curve_to_records_the_control_points() {
    let path = Path::new((0, 0)).curve_to((1, 2), (3, 4), (5, 0));
    assert_eq!(path.vertices(), &vec![(0, 0), (5, 0)]);
    assert_eq!(path.control_point_1s(), &vec![Some((1, 2))]);
    assert_eq!(path.control_point_2s(), &vec![Some((3, 4))]);
}

#[test]
fn closing_on_the_first_point_drops_the_duplicate() {
    let open = Path::new((0, 0)).line_to((5, 0)).line_to((5, 5)).line_to((0, 0));
    assert_eq!(open.vertices().len(), 4);
    let closed = open.close_path();
    assert!(closed.is_closed());
    assert_eq!(closed.vertices(), &vec![(0, 0), (5, 0), (5, 5)]);
    assert_eq!(closed.control_point_1s().len(), 3);
    assert_eq!(closed.control_point_2s().len(), 3);
}

#[test]
fn closing_elsewhere_adds_a_straight_segment() {
    let closed = Path::new((0, 0)).line_to((5, 0)).curve_to((6, 1), (6, 4), (5, 5)).close_path();
    assert!(closed.is_closed());
    assert_eq!(closed.vertices(), &vec![(0, 0), (5, 0), (5, 5)]);
    assert_eq!(closed.control_point_1s(), &vec![None, Some((6, 1)), None]);
    assert_eq!(closed.control_point_2s(), &vec![None, Some((6, 4)), None]);
}

#[test]
fn closing_a_single_point_keeps_the_point() {
    let closed = Path::new((7, 7)).close_path();
    assert!(closed.is_closed());
    assert_eq!(closed.vertices(), &vec![(7, 7)]);
    assert_eq!(closed.control_point_1s(), &vec![None]);
    assert_eq!(closed.control_point_2s(), &vec![None]);
    // closing again adds another slot and still keeps the point
    let again = closed.close_path();
    assert_eq!(again.vertices(), &vec![(7, 7)]);
    assert_eq!(again.control_point_1s().len(), 2);
}

#[test]
fn closing_twice_may_drop_a_second_duplicate() {
    let closed = Path::new((1, 1)).line_to((1, 1)).line_to((1, 1)).close_path().close_path().close_path();
    assert_eq!(closed.vertices(), &vec![(1, 1)]);
    assert_eq!(closed.control_point_1s().len(), 3);
}

#[test]
fn colours_are_set_and_cleared() {
    let path = Path::new((0, 0)).set_fill_color(1, 2, 3).set_stroke(4, 5, 6, 7);
    assert_eq!(path.fill_color(), Some([1, 2, 3]));
    assert_eq!(path.stroke(), Some(([4, 5, 6], 7)));
    assert_eq!(path.vertices(), &vec![(0, 0)]);
    let path = path.clear_fill_color();
    assert_eq!(path.fill_color(), None);
    assert_eq!(path.stroke(), Some(([4, 5, 6], 7)));
    let path = path.clear_stroke();
    assert_eq!(path.stroke(), None);
}

#[test]
fn arc_to_adds_one_curve_for_every_three_points() {
    let arc = vec![(10, 5), (5, 10), (0, 10), (-5, 10), (-10, 5), (-10, 0), (99, 99)];
    let path = Path::new((10, 0)).arc_to(Ok(arc), (-10, 0));
    assert_eq!(path.vertices(), &vec![(10, 0), (0, 10), (-10, 0)]);
    assert_eq!(path.control_point_1s(), &vec![Some((10, 5)), Some((-5, 10))]);
    assert_eq!(path.control_point_2s(), &vec![Some((5, 10)), Some((-10, 5))]);
}

#[test]
fn arc_to_without_curves_adds_nothing() {
    let path = Path::new((10, 0)).arc_to(Ok(vec![]), (-10, 0));
    assert_eq!(path.vertices(), &vec![(10, 0)]);
    assert!(path.control_point_1s().is_empty());
    // an ellipse without curves is its starting point, closed
    let path = Path::ellipse((10, 0), Ok(vec![]), (0, 5), Ok(vec![]));
    assert!(path.is_closed());
    assert_eq!(path.vertices(), &vec![(10, 0)]);
    assert_eq!(path.control_point_1s(), &vec![None]);
}

#[test]
fn arc_to_with_a_vanishing_radius_is_a_line() {
    let path = Path::new((10, 0)).arc_to(Err(TrdlError::ArcToIsLineTo), (-10, 0));
    assert_eq!(path.vertices(), &vec![(10, 0), (-10, 0)]);
    assert_eq!(path.control_point_1s(), &vec![None]);
    assert_eq!(path.control_point_2s(), &vec![None]);
}

#[test]
fn rectangle_is_closed_through_its_corners() {
    let path = Path::rectangle([(-2, -1), (2, -1), (2, 1), (-2, 1)]);
    assert!(path.is_closed());
    assert_eq!(path.vertices(), &vec![(-2, -1), (2, -1), (2, 1), (-2, 1)]);
    assert_eq!(path.control_point_1s(), &vec![None, None, None, None]);
    assert_eq!(path.control_point_2s(), &vec![None, None, None, None]);
    assert_eq!(path.fill_color(), None);
    assert_eq!(path.stroke(), None);
}

#[test]
fn ellipse_is_two_arcs_closed() {
    let first = vec![(10, 3), (6, 5), (0, 5)];
    let second = vec![(-6, 5), (-10, 3), (-10, 0), (-10, -3), (-6, -5), (0, -5), (6, -5), (10, -3), (10, 0)];
    let path = Path::ellipse((10, 0), Ok(first), (0, 5), Ok(second));
    assert!(path.is_closed());
    // the last curve ends on the starting point, which is dropped
    assert_eq!(path.vertices(), &vec![(10, 0), (0, 5), (-10, 0), (0, -5)]);
    assert_eq!(
        path.control_point_1s(),
        &vec![Some((10, 3)), Some((-6, 5)), Some((-10, -3)), Some((6, -5))]
    );
    assert_eq!(
        path.control_point_2s(),
        &vec![Some((6, 5)), Some((-10, 3)), Some((-6, -5)), Some((10, -3))]
    );
}

#[test]
fn ellipse_with_vanishing_radii_is_two_lines() {
    let path = Path::ellipse((10, 0), Err(TrdlError::ArcToIsLineTo), (0, 0), Err(TrdlError::ArcToIsLineTo));
    assert!(path.is_closed());
    assert_eq!(path.vertices(), &vec![(10, 0), (0, 0)]);
    assert_eq!(path.control_point_1s(), &vec![None, None]);
}

#[test]
fn duplicate_is_the_same_path() {
    let path = Path::new((0, 0)).line_to((5, 0)).curve_to((6, 1), (6, 4), (5, 5)).close_path().set_fill_color(1, 2, 3);
    let copy = path.duplicate();
    assert_eq!(copy.vertices(), path.vertices());
    assert_eq!(copy.control_point_1s(), path.control_point_1s());
    assert_eq!(copy.control_point_2s(), path.control_point_2s());
    assert_eq!(copy.fill_color(), Some([1, 2, 3]));
    assert_eq!(copy.stroke(), None);
    assert!(copy.is_closed());
}
