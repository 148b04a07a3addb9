//! Orientation predicates on the integer grid.
//!
//! Every classification in this crate is built from one primitive: the sign of
//! the cross product `(test - prev) x (next - prev)`.  Coordinates are `i32`, so
//! the product is evaluated exactly in wider integers and no rounding can turn a
//! strict turn into a straight one.

use vstd::prelude::*;

verus! {

/// A point of the plane, as `(x, y)`.
pub type Point = (i32, i32);

/// Where a point lies relative to a directed line.
#[derive(Debug, Clone, Copy, PartialEq, Eq, Structural)]
pub enum LineCompare {
    Left,
    Right,
    On,
}

/// The cross product `(test - prev) x (next - prev)`, over the integers.
pub open spec fn cross(test: Point, prev: Point, next: Point) -> int {
    (test.0 - prev.0) * (next.1 - prev.1) - (test.1 - prev.1) * (next.0 - prev.0)
}

/// The side of the directed line `prev -> next` on which `test` lies: `Left` for
/// a negative cross product, `Right` for a positive one, `On` for zero.
pub open spec fn line_side(test: Point, prev: Point, next: Point) -> LineCompare {
    if cross(test, prev, next) < 0 {
        LineCompare::Left
    } else if cross(test, prev, next) > 0 {
        LineCompare::Right
    } else {
        LineCompare::On
    }
}

/// A vertex is convex when it lies strictly to the right of the line from its
/// predecessor to its successor.
pub open spec fn convex(test: Point, prev: Point, next: Point) -> bool {
    cross(test, prev, next) > 0
}

/// `test` is strictly inside the triangle `v0 v1 v2`: strictly left of each of
/// the directed edges `v0 -> v1`, `v1 -> v2` and `v2 -> v0`.
pub open spec fn inside_triangle(test: Point, v0: Point, v1: Point, v2: Point) -> bool {
    &&& cross(test, v0, v1) < 0
    &&& cross(test, v1, v2) < 0
    &&& cross(test, v2, v0) < 0
}

proof fn lemma_product_bound(a: int, b: int)
    requires
        -0x1_0000_0000 <= a <= 0x1_0000_0000,
        -0x1_0000_0000 <= b <= 0x1_0000_0000,
    ensures
        -0x1_0000_0000_0000_0000 <= a * b <= 0x1_0000_0000_0000_0000,
{
    assert(-0x1_0000_0000_0000_0000 <= a * b <= 0x1_0000_0000_0000_0000) by (nonlinear_arith)
        requires
            -0x1_0000_0000 <= a <= 0x1_0000_0000,
            -0x1_0000_0000 <= b <= 0x1_0000_0000,
    ;
}

/// Tells whether `v_test` is left of, right of, or on the line through `v_prev`
/// and `v_next`.
pub fn compare_to_line(v_test: &Point, v_prev: &Point, v_next: &Point) -> (side: LineCompare)
    ensures
        side == line_side(*v_test, *v_prev, *v_next),
{
    let ax: i128 = v_test.0 as i128 - v_prev.0 as i128;
    let ay: i128 = v_test.1 as i128 - v_prev.1 as i128;
    let bx: i128 = v_next.0 as i128 - v_prev.0 as i128;
    let by: i128 = v_next.1 as i128 - v_prev.1 as i128;
    proof {
        lemma_product_bound(ax as int, by as int);
        lemma_product_bound(ay as int, bx as int);
    }
    let val: i128 = ax * by - ay * bx;
    if val < 0 {
        LineCompare::Left
    } else if val > 0 {
        LineCompare::Right
    } else {
        LineCompare::On
    }
}

/// Tells whether the angle at `v_test`, between `v_prev` and `v_next`, is convex.
pub fn is_convex(v_test: &Point, v_prev: &Point, v_next: &Point) -> (r: bool)
    ensures
        r == convex(*v_test, *v_prev, *v_next),
{
    match compare_to_line(v_test, v_prev, v_next) {
        LineCompare::Right => true,
        _ => false,
    }
}

/// Tells whether `v_test` is strictly inside the triangle `v0 v1 v2`.  A point on
/// an edge, or on the line through one, is outside.
pub fn is_in_triangle(v_test: &Point, v0: &Point, v1: &Point, v2: &Point) -> (r: bool)
    ensures
        r == inside_triangle(*v_test, *v0, *v1, *v2),
{
    match compare_to_line(v_test, v0, v1) {
        LineCompare::Left => {},
        _ => { return false; },
    }
    match compare_to_line(v_test, v1, v2) {
        LineCompare::Left => {},
        _ => { return false; },
    }
    match compare_to_line(v_test, v2, v0) {
        LineCompare::Left => {},
        _ => { return false; },
    }
    true
}

} // verus!
