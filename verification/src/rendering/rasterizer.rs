use vstd::prelude::*;
use crate::math::geometry::{edge_at_center, lemma_edges_weigh_center, spec_edge_at_center};
use crate::rendering::point::Point;
use crate::rendering::screen_buffer::ScreenBuffer;
use crate::rendering::stroke::Stroke;

verus! {

/// A triangle as the rasterizer takes it: its three corners on the grid in
/// winding order, the stroke its cells are drawn with, and the key by which
/// the frame orders it against the others.
#[derive(Copy, Clone, Debug, PartialEq, Eq)]
pub struct ScreenTriangle {
    pub points: [Point; 3],
    pub stroke: Stroke,
    pub depth: i64,
}

pub open spec fn min3(a: int, b: int, c: int) -> int {
    if a <= b && a <= c {
        a
    } else if b <= c {
        b
    } else {
        c
    }
}

pub open spec fn max3(a: int, b: int, c: int) -> int {
    if a >= b && a >= c {
        a
    } else if b >= c {
        b
    } else {
        c
    }
}

/// A top edge runs level from left to right; a left edge runs downwards.
pub open spec fn spec_is_top_left(a: Point, b: Point) -> bool {
    (a.y == b.y && a.x < b.x) || a.y < b.y
}

/// Whether the directed edge `a -> b` lets the cell at column `x`, row `y`
/// in: its centre lies strictly inside, or exactly on the edge and the edge
/// is a top or a left one.
pub open spec fn edge_accepts(a: Point, b: Point, x: int, y: int) -> bool {
    let e = spec_edge_at_center(a, b, x, y);
    e > 0 || (e == 0 && spec_is_top_left(a, b))
}

impl ScreenTriangle {
    /// Whether all three edges let the cell at column `x`, row `y` in.
    pub open spec fn covers(self, x: int, y: int) -> bool {
        &&& edge_accepts(self.points[0], self.points[1], x, y)
        &&& edge_accepts(self.points[1], self.points[2], x, y)
        &&& edge_accepts(self.points[2], self.points[0], x, y)
    }

    /// Whether the cell at column `x`, row `y` lies in the box around the
    /// three corners, cut down to a grid of `width` by `height` cells. The
    /// box takes its low sides in and leaves its high sides out.
    pub open spec fn in_box(self, width: int, height: int, x: int, y: int) -> bool {
        let p = self.points;
        &&& max3(p[0].x as int, p[1].x as int, p[2].x as int) > x >= min3(
            p[0].x as int,
            p[1].x as int,
            p[2].x as int,
        )
        &&& max3(p[0].y as int, p[1].y as int, p[2].y as int) > y >= min3(
            p[0].y as int,
            p[1].y as int,
            p[2].y as int,
        )
        &&& 0 <= x < width
        &&& 0 <= y < height
    }

    /// Whether drawing this triangle on a grid of `width` by `height` cells
    /// writes the cell at column `x`, row `y`.
    pub open spec fn paints(self, width: int, height: int, x: int, y: int) -> bool {
        self.in_box(width, height, x, y) && self.covers(x, y)
    }
}

pub fn is_top_left(a: Point, b: Point) -> (r: bool)
    ensures
        r == spec_is_top_left(a, b),
{
    (a.y == b.y && a.x < b.x) || (a.y < b.y)
}

fn least(a: i32, b: i32, c: i32) -> (m: i32)
    ensures
        m == min3(a as int, b as int, c as int),
{
    if a <= b && a <= c {
        a
    } else if b <= c {
        b
    } else {
        c
    }
}

fn greatest(a: i32, b: i32, c: i32) -> (m: i32)
    ensures
        m == max3(a as int, b as int, c as int),
{
    if a >= b && a >= c {
        a
    } else if b >= c {
        b
    } else {
        c
    }
}

fn edge_test(a: Point, b: Point, x: u16, y: u16) -> (r: bool)
    ensures
        r == edge_accepts(a, b, x as int, y as int),
{
    let e: i128 = edge_at_center(a, b, x, y);
    e > 0 || (e == 0 && is_top_left(a, b))
}

/// Draws `tri` into `buf`: every cell that the triangle paints takes the
/// triangle's stroke, every other cell keeps what it showed.
#[verifier::loop_isolation(false)]
pub fn draw_triangle(buf: &mut ScreenBuffer, tri: &ScreenTriangle)
    requires
        old(buf).wf(),
    ensures
        final(buf).wf(),
        final(buf).width == old(buf).width,
        final(buf).height == old(buf).height,
        forall|x: int, y: int|
            old(buf).in_grid(x, y) ==> #[trigger] final(buf).pixel(x, y) == if tri.paints(
                old(buf).width as int,
                old(buf).height as int,
                x,
                y,
            ) {
                tri.stroke
            } else {
                old(buf).pixel(x, y)
            },
{
    let p0 = tri.points[0];
    let p1 = tri.points[1];
    let p2 = tri.points[2];
    let width: i32 = buf.width as i32;
    let height: i32 = buf.height as i32;
    let lo_x: i32 = least(p0.x, p1.x, p2.x);
    let lo_y: i32 = least(p0.y, p1.y, p2.y);
    let hi_x: i32 = greatest(p0.x, p1.x, p2.x);
    let hi_y: i32 = greatest(p0.y, p1.y, p2.y);
    let min_x: i32 = if lo_x < 0 { 0 } else { lo_x };
    let min_y: i32 = if lo_y < 0 { 0 } else { lo_y };
    let max_x: i32 = if hi_x > width { width } else { hi_x };
    let max_y: i32 = if hi_y > height { height } else { hi_y };

    let mut y: i32 = min_y;
    while y < max_y
        invariant
            buf.wf(),
            buf.width == old(buf).width,
            buf.height == old(buf).height,
            min_y <= y,
            forall|cx: int, cy: int|
                old(buf).in_grid(cx, cy) ==> #[trigger] buf.pixel(cx, cy) == if tri.paints(
                    width as int,
                    height as int,
                    cx,
                    cy,
                ) && cy < y {
                    tri.stroke
                } else {
                    old(buf).pixel(cx, cy)
                },
        decreases max_y - y,
    {
        let mut x: i32 = min_x;
        while x < max_x
            invariant
                buf.wf(),
                buf.width == old(buf).width,
                buf.height == old(buf).height,
                min_y <= y < max_y,
                min_x <= x,
                forall|cx: int, cy: int|
                    old(buf).in_grid(cx, cy) ==> #[trigger] buf.pixel(cx, cy) == if tri.paints(
                        width as int,
                        height as int,
                        cx,
                        cy,
                    ) && (cy < y || (cy == y && cx < x)) {
                        tri.stroke
                    } else {
                        old(buf).pixel(cx, cy)
                    },
            decreases max_x - x,
        {
            let px: u16 = x as u16;
            let py: u16 = y as u16;
            let inside = edge_test(p0, p1, px, py) && edge_test(p1, p2, px, py) && edge_test(
                p2,
                p0,
                px,
                py,
            );
            let ghost before = *buf;
            if inside {
                proof {
                    buf.lemma_index_in_range(x as int, y as int);
                }
                buf.set_pixel(px, py, tri.stroke);
            }
            assert forall|cx: int, cy: int| old(buf).in_grid(cx, cy) implies #[trigger] buf.pixel(
                cx,
                cy,
            ) == if tri.paints(width as int, height as int, cx, cy) && (cy < y || (cy == y && cx
                < x + 1)) {
                tri.stroke
            } else {
                old(buf).pixel(cx, cy)
            } by {
                // Only the cell at (x, y) may have changed.
                before.lemma_index_in_range(cx, cy);
                if cx != x || cy != y {
                    before.lemma_index_distinct(cx, cy, x as int, y as int);
                    assert(buf.pixel(cx, cy) == before.pixel(cx, cy));
                } else {
                    assert(inside == tri.covers(cx, cy));
                    assert(tri.in_box(width as int, height as int, cx, cy));
                }
            }
            x += 1;
        }
        y += 1;
    }
}

/// A mean of `a`, `b`, `c` with weights that are not negative and not all
/// zero lies between the least and the greatest of them.
proof fn lemma_weighted_mean_bounds(
    e0: int,
    e1: int,
    e2: int,
    a: int,
    b: int,
    c: int,
    lo: int,
    hi: int,
    m: int,
)
    requires
        e0 >= 0,
        e1 >= 0,
        e2 >= 0,
        e0 + e1 + e2 > 0,
        lo <= a <= hi,
        lo <= b <= hi,
        lo <= c <= hi,
        (e0 + e1 + e2) * m == 2 * (e1 * a + e2 * b + e0 * c),
    ensures
        2 * lo <= m <= 2 * hi,
{
    let s = e0 + e1 + e2;
    assert(e1 * lo <= e1 * a <= e1 * hi) by (nonlinear_arith)
        requires
            e1 >= 0,
            lo <= a <= hi,
    ;
    assert(e2 * lo <= e2 * b <= e2 * hi) by (nonlinear_arith)
        requires
            e2 >= 0,
            lo <= b <= hi,
    ;
    assert(e0 * lo <= e0 * c <= e0 * hi) by (nonlinear_arith)
        requires
            e0 >= 0,
            lo <= c <= hi,
    ;
    assert(s * lo == e0 * lo + e1 * lo + e2 * lo) by (nonlinear_arith)
        requires
            s == e0 + e1 + e2,
    ;
    assert(s * hi == e0 * hi + e1 * hi + e2 * hi) by (nonlinear_arith)
        requires
            s == e0 + e1 + e2,
    ;
    assert(s * (2 * lo) == 2 * (s * lo) && s * (2 * hi) == 2 * (s * hi)) by (nonlinear_arith);
    assert(2 * lo <= m) by (nonlinear_arith)
        requires
            s > 0,
            s * (2 * lo) <= s * m,
    ;
    assert(m <= 2 * hi) by (nonlinear_arith)
        requires
            s > 0,
            s * m <= s * (2 * hi),
    ;
}

impl ScreenTriangle {
    /// A cell that all three edges let in lies in the box around the three
    /// corners: on a grid, the triangle paints exactly the cells that it
    /// covers.
    pub proof fn lemma_covered_cell_in_box(self, width: int, height: int, x: int, y: int)
        requires
            self.covers(x, y),
            0 <= x < width,
            0 <= y < height,
        ensures
            self.in_box(width, height, x, y),
            self.paints(width, height, x, y),
    {
        let p0 = self.points[0];
        let p1 = self.points[1];
        let p2 = self.points[2];
        let e0 = spec_edge_at_center(p0, p1, x, y);
        let e1 = spec_edge_at_center(p1, p2, x, y);
        let e2 = spec_edge_at_center(p2, p0, x, y);
        lemma_edges_weigh_center(p0, p1, p2, x, y);
        // Three edges that run in a ring are not all top or left edges, so
        // one of the values is positive.
        assert(e0 + e1 + e2 > 0);
        lemma_weighted_mean_bounds(
            e0,
            e1,
            e2,
            p0.x as int,
            p1.x as int,
            p2.x as int,
            min3(p0.x as int, p1.x as int, p2.x as int),
            max3(p0.x as int, p1.x as int, p2.x as int),
            2 * x + 1,
        );
        lemma_weighted_mean_bounds(
            e0,
            e1,
            e2,
            p0.y as int,
            p1.y as int,
            p2.y as int,
            min3(p0.y as int, p1.y as int, p2.y as int),
            max3(p0.y as int, p1.y as int, p2.y as int),
            2 * y + 1,
        );
    }

    /// A triangle whose box does not meet the grid paints no cell of it.
    pub proof fn lemma_outside_paints_nothing(self, width: int, height: int)
        requires
            ({
                let p = self.points;
                ||| max3(p[0].x as int, p[1].x as int, p[2].x as int) <= 0
                ||| min3(p[0].x as int, p[1].x as int, p[2].x as int) >= width
                ||| max3(p[0].y as int, p[1].y as int, p[2].y as int) <= 0
                ||| min3(p[0].y as int, p[1].y as int, p[2].y as int) >= height
            }),
        ensures
            forall|x: int, y: int| !self.paints(width, height, x, y),
    {
    }

    /// A triangle that covers the four corner cells of a grid paints every
    /// cell of the grid.
    pub proof fn lemma_cover_paints_all(self, width: int, height: int)
        requires
            0 < width,
            0 < height,
            self.covers(0, 0),
            self.covers(width - 1, 0),
            self.covers(0, height - 1),
            self.covers(width - 1, height - 1),
        ensures
            forall|x: int, y: int|
                0 <= x < width && 0 <= y < height ==> self.paints(width, height, x, y),
    {
        assert forall|x: int, y: int| 0 <= x < width && 0 <= y < height implies self.paints(
            width,
            height,
            x,
            y,
        ) by {
            lemma_edge_accepts_between(self.points[0], self.points[1], width - 1, height - 1, x, y);
            lemma_edge_accepts_between(self.points[1], self.points[2], width - 1, height - 1, x, y);
            lemma_edge_accepts_between(self.points[2], self.points[0], width - 1, height - 1, x, y);
            self.lemma_covered_cell_in_box(width, height, x, y);
        }
    }
}

/// An edge that lets in the four corner cells of the block of cells from
/// `(0, 0)` to `(w, h)` lets in every cell of the block.
proof fn lemma_edge_accepts_between(a: Point, b: Point, w: int, h: int, x: int, y: int)
    requires
        0 <= x <= w,
        0 <= y <= h,
        edge_accepts(a, b, 0, 0),
        edge_accepts(a, b, w, 0),
        edge_accepts(a, b, 0, h),
        edge_accepts(a, b, w, h),
    ensures
        edge_accepts(a, b, x, y),
{
    let dx = b.x - a.x;
    let dy = b.y - a.y;
    let base = dx * (1 - 2 * a.y) - dy * (1 - 2 * a.x);
    // The edge value at the cell (s, t) is base + 2 * dx * t - 2 * dy * s.
    assert forall|s: int, t: int| #[trigger]
        spec_edge_at_center(a, b, s, t) == base + 2 * (dx * t) - 2 * (dy * s) by {
        assert(dx * (2 * t + 1 - 2 * a.y) == dx * (1 - 2 * a.y) + 2 * (dx * t))
            by (nonlinear_arith);
        assert(dy * (2 * s + 1 - 2 * a.x) == dy * (1 - 2 * a.x) + 2 * (dy * s))
            by (nonlinear_arith);
    }
    // Along each axis the value is least at one end of the block.
    let t_low = if dx >= 0 {
        0
    } else {
        h
    };
    let s_low = if dy >= 0 {
        w
    } else {
        0
    };
    assert(dx * t_low <= dx * y) by (nonlinear_arith)
        requires
            0 <= y <= h,
            t_low == (if dx >= 0 {
                0
            } else {
                h
            }),
    ;
    assert(dy * s_low >= dy * x) by (nonlinear_arith)
        requires
            0 <= x <= w,
            s_low == (if dy >= 0 {
                w
            } else {
                0
            }),
    ;
    assert(spec_edge_at_center(a, b, x, y) >= spec_edge_at_center(a, b, s_low, t_low));
    assert(edge_accepts(a, b, s_low, t_low));
}

/// Of an edge and the same edge run the other way, exactly one lets a
/// cell in: a cell whose centre lies on the edge that two triangles share
/// goes to one of them, never to both and never to neither.
pub proof fn lemma_shared_edge_splits(a: Point, b: Point, x: int, y: int)
    requires
        a != b,
    ensures
        edge_accepts(a, b, x, y) != edge_accepts(b, a, x, y),
{
    let dx = b.x - a.x;
    let dy = b.y - a.y;
    let u = 2 * x + 1;
    let v = 2 * y + 1;
    assert(dx * (v - 2 * a.y) - dy * (u - 2 * a.x) + ((-dx) * (v - 2 * b.y) - (-dy) * (u - 2 * b.x))
        == 0) by (nonlinear_arith)
        requires
            dx == b.x - a.x,
            dy == b.y - a.y,
    ;
    assert(a.x - b.x == -dx && a.y - b.y == -dy);
    assert(spec_edge_at_center(a, b, x, y) + spec_edge_at_center(b, a, x, y) == 0);
}

impl ScreenTriangle {
    /// Two triangles that lie on the two sides of a shared edge, which the
    /// one runs along from its first corner to its second and the other the
    /// opposite way, never both cover the same cell.
    pub proof fn lemma_neighbours_do_not_overlap(self, other: ScreenTriangle, x: int, y: int)
        requires
            self.points[0] != self.points[1],
            other.points[0] == self.points[1],
            other.points[1] == self.points[0],
        ensures
            !(self.covers(x, y) && other.covers(x, y)),
    {
        lemma_shared_edge_splits(self.points[0], self.points[1], x, y);
    }
}

/// The two triangles into which a diagonal cuts a grid of `width` by
/// `height` cells cover the grid exactly: every cell is painted by one of
/// them and by one only, also where its centre lies on the diagonal.
pub proof fn lemma_two_halves_cover_exactly(
    upper: ScreenTriangle,
    lower: ScreenTriangle,
    width: int,
    height: int,
    x: int,
    y: int,
)
    requires
        0 < width <= i32::MAX,
        0 < height <= i32::MAX,
        upper.points[0] == (Point { x: 0, y: 0 }),
        upper.points[1] == (Point { x: width as i32, y: 0 }),
        upper.points[2] == (Point { x: width as i32, y: height as i32 }),
        lower.points[0] == (Point { x: 0, y: 0 }),
        lower.points[1] == (Point { x: width as i32, y: height as i32 }),
        lower.points[2] == (Point { x: 0, y: height as i32 }),
        0 <= x < width,
        0 <= y < height,
    ensures
        upper.paints(width, height, x, y) != lower.paints(width, height, x, y),
{
    let origin = Point { x: 0, y: 0 };
    let right = Point { x: width as i32, y: 0 };
    let far = Point { x: width as i32, y: height as i32 };
    let down = Point { x: 0, y: height as i32 };
    // The four sides of the grid let every cell in.
    assert(spec_edge_at_center(origin, right, x, y) > 0) by (nonlinear_arith)
        requires
            spec_edge_at_center(origin, right, x, y) == (width - 0) * (2 * y + 1 - 2 * 0) - (0 - 0)
                * (2 * x + 1 - 2 * 0),
            0 < width,
            0 <= y,
    ;
    assert(spec_edge_at_center(right, far, x, y) > 0) by (nonlinear_arith)
        requires
            spec_edge_at_center(right, far, x, y) == (width - width) * (2 * y + 1 - 2 * 0) - (height
                - 0) * (2 * x + 1 - 2 * width),
            0 < height,
            x < width,
    ;
    assert(spec_edge_at_center(far, down, x, y) > 0) by (nonlinear_arith)
        requires
            spec_edge_at_center(far, down, x, y) == (0 - width) * (2 * y + 1 - 2 * height) - (height
                - height) * (2 * x + 1 - 2 * width),
            0 < width,
            y < height,
    ;
    assert(spec_edge_at_center(down, origin, x, y) > 0) by (nonlinear_arith)
        requires
            spec_edge_at_center(down, origin, x, y) == (0 - 0) * (2 * y + 1 - 2 * height) - (0
                - height) * (2 * x + 1 - 2 * 0),
            0 < height,
            0 <= x,
    ;
    // The diagonal lets the cell in on one of its two sides.
    lemma_shared_edge_splits(far, origin, x, y);
    if upper.covers(x, y) {
        upper.lemma_covered_cell_in_box(width, height, x, y);
    }
    if lower.covers(x, y) {
        lower.lemma_covered_cell_in_box(width, height, x, y);
    }
}

} // verus!
