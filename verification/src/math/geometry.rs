use vstd::prelude::*;
use crate::rendering::point::Point;

verus! {

/// Twice the signed area of the triangle `a`, `b`, `c`: positive when `c`
/// lies on the side of the directed edge `a -> b` that the fill rule takes
/// as inside, zero when the three are collinear.
pub open spec fn spec_signed_area(a: Point, b: Point, c: Point) -> int {
    (b.x - a.x) * (c.y - a.y) - (b.y - a.y) * (c.x - a.x)
}

/// The signed area of `a`, `b` and the centre of the cell at column `x`,
/// row `y`, times four. Cell centres lie half a step off the grid points,
/// so the factor keeps the value whole.
pub open spec fn spec_edge_at_center(a: Point, b: Point, x: int, y: int) -> int {
    (b.x - a.x) * (2 * y + 1 - 2 * a.y) - (b.y - a.y) * (2 * x + 1 - 2 * a.x)
}

/// The value at a cell's centre, from the value at its corner.
pub proof fn lemma_edge_from_area(a: Point, b: Point, c: Point)
    ensures
        spec_edge_at_center(a, b, c.x as int, c.y as int) == 2 * spec_signed_area(a, b, c) + (b.x
            - a.x) - (b.y - a.y),
{
    let dx = b.x - a.x;
    let dy = b.y - a.y;
    let cy = c.y - a.y;
    let cx = c.x - a.x;
    assert(dx * (2 * cy + 1) == 2 * (dx * cy) + dx) by (nonlinear_arith);
    assert(dy * (2 * cx + 1) == 2 * (dy * cx) + dy) by (nonlinear_arith);
    assert(2 * c.y + 1 - 2 * a.y == 2 * cy + 1);
    assert(2 * c.x + 1 - 2 * a.x == 2 * cx + 1);
}

pub fn signed_area(a: Point, b: Point, c: Point) -> (area: i128)
    ensures
        area == spec_signed_area(a, b, c),
{
    let dx: i128 = b.x as i128 - a.x as i128;
    let dy: i128 = b.y as i128 - a.y as i128;
    let cy: i128 = c.y as i128 - a.y as i128;
    let cx: i128 = c.x as i128 - a.x as i128;
    assert(-0x1_0000_0000_0000_0000 <= dx * cy <= 0x1_0000_0000_0000_0000) by (nonlinear_arith)
        requires
            -0x1_0000_0000 <= dx <= 0x1_0000_0000,
            -0x1_0000_0000 <= cy <= 0x1_0000_0000,
    ;
    assert(-0x1_0000_0000_0000_0000 <= dy * cx <= 0x1_0000_0000_0000_0000) by (nonlinear_arith)
        requires
            -0x1_0000_0000 <= dy <= 0x1_0000_0000,
            -0x1_0000_0000 <= cx <= 0x1_0000_0000,
    ;
    dx * cy - dy * cx
}

/// The edge value of `a -> b` at the centre of the cell at column `x`, row
/// `y`.
pub fn edge_at_center(a: Point, b: Point, x: u16, y: u16) -> (e: i128)
    ensures
        e == spec_edge_at_center(a, b, x as int, y as int),
{
    let corner = Point::new(x as i32, y as i32);
    let area: i128 = signed_area(a, b, corner);
    proof {
        lemma_edge_from_area(a, b, corner);
        let dx = b.x - a.x;
        let dy = b.y - a.y;
        let cy = corner.y - a.y;
        let cx = corner.x - a.x;
        assert(-0x1_0000_0000_0000_0000 <= dx * cy <= 0x1_0000_0000_0000_0000)
            by (nonlinear_arith)
            requires
                -0x1_0000_0000 <= dx <= 0x1_0000_0000,
                -0x1_0000_0000 <= cy <= 0x1_0000_0000,
        ;
        assert(-0x1_0000_0000_0000_0000 <= dy * cx <= 0x1_0000_0000_0000_0000)
            by (nonlinear_arith)
            requires
                -0x1_0000_0000 <= dy <= 0x1_0000_0000,
                -0x1_0000_0000 <= cx <= 0x1_0000_0000,
        ;
    }
    2 * area + (b.x as i128 - a.x as i128) - (b.y as i128 - a.y as i128)
}

/// The three edge values of a triangle at a cell's centre weigh the
/// corners so that they balance at the centre: they add up to twice the
/// triangle's doubled area, and the centre is the mean of the corners, each
/// weighted by the value of the edge that lies opposite to it.
pub proof fn lemma_edges_weigh_center(p0: Point, p1: Point, p2: Point, x: int, y: int)
    ensures
        ({
            let e0 = spec_edge_at_center(p0, p1, x, y);
            let e1 = spec_edge_at_center(p1, p2, x, y);
            let e2 = spec_edge_at_center(p2, p0, x, y);
            &&& e0 + e1 + e2 == 2 * spec_signed_area(p0, p1, p2)
            &&& (e0 + e1 + e2) * (2 * x + 1) == 2 * (e1 * p0.x + e2 * p1.x + e0 * p2.x)
            &&& (e0 + e1 + e2) * (2 * y + 1) == 2 * (e1 * p0.y + e2 * p1.y + e0 * p2.y)
        }),
{
    let (ax, ay) = (p0.x as int, p0.y as int);
    let (bx, by) = (p1.x as int, p1.y as int);
    let (cx, cy) = (p2.x as int, p2.y as int);
    let u = 2 * x + 1;
    let v = 2 * y + 1;
    let e0 = spec_edge_at_center(p0, p1, x, y);
    let e1 = spec_edge_at_center(p1, p2, x, y);
    let e2 = spec_edge_at_center(p2, p0, x, y);
    let d = spec_signed_area(p0, p1, p2);
    // Each edge value is linear in the centre: e = dx * v - dy * u + 2 * k.
    let k0 = by * ax - bx * ay;
    let k1 = cy * bx - cx * by;
    let k2 = ay * cx - ax * cy;
    lemma_edge_is_linear(ax, ay, bx, by, u, v);
    lemma_edge_is_linear(bx, by, cx, cy, u, v);
    lemma_edge_is_linear(cx, cy, ax, ay, u, v);
    assert(d == k0 + k1 + k2) by (nonlinear_arith)
        requires
            d == (bx - ax) * (cy - ay) - (by - ay) * (cx - ax),
            k0 == by * ax - bx * ay,
            k1 == cy * bx - cx * by,
            k2 == ay * cx - ax * cy,
    ;
    assert((bx - ax) + (cx - bx) + (ax - cx) == 0);
    assert(((bx - ax) + (cx - bx) + (ax - cx)) * v == (bx - ax) * v + (cx - bx) * v + (ax - cx)
        * v) by (nonlinear_arith);
    assert(((by - ay) + (cy - by) + (ay - cy)) * u == (by - ay) * u + (cy - by) * u + (ay - cy)
        * u) by (nonlinear_arith);
    assert(e0 + e1 + e2 == 2 * d);
    lemma_weighted_corners(ax, bx, cx, ay, by, cy, u, v, ax, bx, cx);
    lemma_weighted_corners(ax, bx, cx, ay, by, cy, u, v, ay, by, cy);
    // The weights of the corners' own coordinates.
    assert((cx - bx) * ax + (ax - cx) * bx + (bx - ax) * cx == 0) by (nonlinear_arith);
    assert((cy - by) * ay + (ay - cy) * by + (by - ay) * cy == 0) by (nonlinear_arith);
    assert((cy - by) * ax + (ay - cy) * bx + (by - ay) * cx == -(k0 + k1 + k2))
        by (nonlinear_arith)
        requires
            k0 == by * ax - bx * ay,
            k1 == cy * bx - cx * by,
            k2 == ay * cx - ax * cy,
    ;
    assert((cx - bx) * ay + (ax - cx) * by + (bx - ax) * cy == k0 + k1 + k2) by (nonlinear_arith)
        requires
            k0 == by * ax - bx * ay,
            k1 == cy * bx - cx * by,
            k2 == ay * cx - ax * cy,
    ;
    assert((cy * bx - cx * by) * ax + (ay * cx - ax * cy) * bx + (by * ax - bx * ay) * cx == 0)
        by (nonlinear_arith);
    assert((cy * bx - cx * by) * ay + (ay * cx - ax * cy) * by + (by * ax - bx * ay) * cy == 0)
        by (nonlinear_arith);
    assert((e0 + e1 + e2) * u == 2 * (d * u)) by (nonlinear_arith)
        requires
            e0 + e1 + e2 == 2 * d,
    ;
    assert((e0 + e1 + e2) * v == 2 * (d * v)) by (nonlinear_arith)
        requires
            e0 + e1 + e2 == 2 * d,
    ;
    assert(0 * v == 0 && 0 * u == 0);
    assert((-d) * u == -(d * u)) by (nonlinear_arith);
}

/// The edge value of `(ax, ay) -> (bx, by)` at the doubled centre `(u, v)`
/// is linear in `u` and `v`.
proof fn lemma_edge_is_linear(ax: int, ay: int, bx: int, by: int, u: int, v: int)
    ensures
        (bx - ax) * (v - 2 * ay) - (by - ay) * (u - 2 * ax) == (bx - ax) * v - (by - ay) * u + 2
            * (by * ax - bx * ay),
{
    assert((bx - ax) * (v - 2 * ay) - (by - ay) * (u - 2 * ax) == (bx - ax) * v - (by - ay) * u + 2
        * (by * ax - bx * ay)) by (nonlinear_arith);
}

/// A value that is linear in `u` and `v`, times `t`.
proof fn lemma_linear_times(dx: int, dy: int, k: int, u: int, v: int, t: int)
    ensures
        (dx * v - dy * u + 2 * k) * t == (dx * t) * v - (dy * t) * u + 2 * (k * t),
{
    assert((dx * v - dy * u + 2 * k) * t == (dx * t) * v - (dy * t) * u + 2 * (k * t))
        by (nonlinear_arith);
}

/// The three edge values of the triangle `a`, `b`, `c`, each times the
/// weight `ta`, `tb`, `tc` of the corner opposite to it, add up to a value
/// that is again linear in `u` and `v`.
proof fn lemma_weighted_corners(
    ax: int,
    bx: int,
    cx: int,
    ay: int,
    by: int,
    cy: int,
    u: int,
    v: int,
    ta: int,
    tb: int,
    tc: int,
)
    ensures
        ((cx - bx) * v - (cy - by) * u + 2 * (cy * bx - cx * by)) * ta + ((ax - cx) * v - (ay - cy)
            * u + 2 * (ay * cx - ax * cy)) * tb + ((bx - ax) * v - (by - ay) * u + 2 * (by * ax
            - bx * ay)) * tc == ((cx - bx) * ta + (ax - cx) * tb + (bx - ax) * tc) * v - ((cy - by)
            * ta + (ay - cy) * tb + (by - ay) * tc) * u + 2 * ((cy * bx - cx * by) * ta + (ay * cx
            - ax * cy) * tb + (by * ax - bx * ay) * tc),
{
    let (d1, d2, d0) = (cx - bx, ax - cx, bx - ax);
    let (h1, h2, h0) = (cy - by, ay - cy, by - ay);
    let (k1, k2, k0) = (cy * bx - cx * by, ay * cx - ax * cy, by * ax - bx * ay);
    lemma_linear_times(d1, h1, k1, u, v, ta);
    lemma_linear_times(d2, h2, k2, u, v, tb);
    lemma_linear_times(d0, h0, k0, u, v, tc);
    assert((d1 * ta + d2 * tb + d0 * tc) * v == (d1 * ta) * v + (d2 * tb) * v + (d0 * tc) * v)
        by (nonlinear_arith);
    assert((h1 * ta + h2 * tb + h0 * tc) * u == (h1 * ta) * u + (h2 * tb) * u + (h0 * tc) * u)
        by (nonlinear_arith);
}

} // verus!
