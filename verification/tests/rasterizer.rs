use glyph3d::math::geometry::{edge_at_center, signed_area};
use glyph3d::rendering::point::Point;
use glyph3d::rendering::rasterizer::{draw_triangle, is_top_left, ScreenTriangle};
use glyph3d::rendering::screen_buffer::ScreenBuffer;
use glyph3d::rendering::stroke::Stroke;

fn tri(a: (i32, i32), b: (i32, i32), c: (i32, i32), tex: char) -> ScreenTriangle {
    ScreenTriangle {
        points: [Point::new(a.0, a.1), Point::new(b.0, b.1), Point::new(c.0, c.1)],
        stroke: Stroke::new([10, 20, 30], tex),
        depth: 0,
    }
}

fn glyphs(buf: &ScreenBuffer) -> Vec<String> {
    (0..buf.height as usize)
        .map(|y| {
            (0..buf.width as usize).map(|x| buf.buffer[y * buf.width as usize + x].tex).collect()
        })
        .collect()
}

#[test]
fn signed_area_is_twice_the_area_with_sign() {
    let a = Point::new(0, 0);
    let b = Point::new(4, 0);
    let c = Point::new(0, 3);
    assert_eq!(signed_area(a, b, c), 12);
    assert_eq!(signed_area(a, c, b), -12);
    assert_eq!(signed_area(a, b, Point::new(9, 0)), 0);
}

#[test]
fn signed_area_of_the_widest_points_does_not_overflow() {
    let a = Point::new(i32::MIN, i32::MIN);
    let b = Point::new(i32::MAX, i32::MIN);
    let c = Point::new(i32::MIN, i32::MAX);
    let side = (i32::MAX as i128) - (i32::MIN as i128);
    assert_eq!(signed_area(a, b, c), side * side);
}

#[test]
fn edge_at_center_is_four_times_the_area_to_the_cell_centre() {
    let a = Point::new(0, 0);
    let b = Point::new(4, 0);
    // centre (2.5, 1.5): twice the area is 4 * 1.5 = 6, doubled once more
    assert_eq!(edge_at_center(a, b, 2, 1), 12);
    // (b.x - a.x) * (2y + 1 - 2a.y) - (b.y - a.y) * (2x + 1 - 2a.x)
    assert_eq!(edge_at_center(Point::new(1, 2), Point::new(4, 6), 3, 5), 3 * 7 - 4 * 5);
}

#[test]
fn top_edges_run_right_and_left_edges_run_down() {
    assert!(is_top_left(Point::new(0, 5), Point::new(3, 5)));
    assert!(!is_top_left(Point::new(3, 5), Point::new(0, 5)));
    assert!(is_top_left(Point::new(7, 1), Point::new(2, 4)));
    assert!(!is_top_left(Point::new(2, 4), Point::new(7, 1)));
    assert!(!is_top_left(Point::new(2, 4), Point::new(2, 4)));
}

#[test]
fn a_triangle_outside_the_grid_touches_nothing() {
    let mut buf = ScreenBuffer::new(8, 6);
    let before = buf.buffer.clone();
    for t in [
        tri((-9, 0), (-1, 0), (-9, 5), 'a'),
        tri((8, 0), (20, 0), (8, 6), 'b'),
        tri((0, -7), (8, -7), (0, -1), 'c'),
        tri((0, 6), (8, 6), (0, 30), 'd'),
    ] {
        draw_triangle(&mut buf, &t);
        assert_eq!(buf.buffer, before);
    }
}

#[test]
fn a_triangle_over_the_whole_grid_touches_every_cell() {
    let mut buf = ScreenBuffer::new(8, 6);
    let t = tri((0, 0), (16, 0), (0, 12), '#');
    draw_triangle(&mut buf, &t);
    assert!(buf.buffer.iter().all(|s| *s == t.stroke));
    assert_eq!((buf.width, buf.height), (8, 6));
}

#[test]
fn a_small_triangle_fills_the_cells_whose_centres_it_holds() {
    let mut buf = ScreenBuffer::new(6, 5);
    draw_triangle(&mut buf, &tri((1, 1), (5, 1), (1, 5), '#'));
    assert_eq!(glyphs(&buf), vec!["      ", " #### ", " ###  ", " ##   ", " #    "]);
}

#[test]
fn a_triangle_wound_the_other_way_fills_nothing() {
    let mut buf = ScreenBuffer::new(6, 5);
    draw_triangle(&mut buf, &tri((1, 1), (1, 5), (5, 1), '#'));
    assert!(buf.buffer.iter().all(|s| s.tex == ' '));
}

#[test]
fn a_degenerate_triangle_fills_nothing() {
    let mut buf = ScreenBuffer::new(6, 5);
    draw_triangle(&mut buf, &tri((2, 2), (2, 2), (2, 2), '#'));
    draw_triangle(&mut buf, &tri((0, 0), (3, 3), (5, 5), '#'));
    assert!(buf.buffer.iter().all(|s| s.tex == ' '));
}

#[test]
fn a_triangle_is_cut_at_the_edge_of_the_grid() {
    let mut buf = ScreenBuffer::new(4, 3);
    draw_triangle(&mut buf, &tri((-2, -2), (10, -2), (-2, 10), '#'));
    assert_eq!(glyphs(&buf), vec!["####", "####", "####"]);
    let mut buf = ScreenBuffer::new(4, 3);
    draw_triangle(&mut buf, &tri((2, 1), (9, 1), (2, 8), '#'));
    assert_eq!(glyphs(&buf), vec!["    ", "  ##", "  ##"]);
}

#[test]
fn two_triangles_that_share_an_edge_split_the_cells_between_them() {
    // A 6 x 3 block cut along the diagonal y = x / 2.
    let upper = tri((0, 0), (6, 0), (6, 3), 'u');
    let lower = tri((0, 0), (6, 3), (0, 3), 'l');
    let mut first = ScreenBuffer::new(6, 3);
    draw_triangle(&mut first, &upper);
    draw_triangle(&mut first, &lower);
    let mut second = ScreenBuffer::new(6, 3);
    draw_triangle(&mut second, &lower);
    draw_triangle(&mut second, &upper);
    assert_eq!(first.buffer, second.buffer);
    assert_eq!(glyphs(&first), vec!["luuuuu", "llluuu", "lllllu"]);
}

#[test]
fn a_centre_on_a_shared_edge_goes_to_one_triangle_only() {
    // The diagonal of a square block passes through the centres of the
    // cells on it. In `lower` it runs downwards, which makes it a left
    // edge: those cells are its own, whichever triangle is drawn first.
    let upper = tri((0, 0), (3, 0), (3, 3), 'u');
    let lower = tri((0, 0), (3, 3), (0, 3), 'l');
    let mut first = ScreenBuffer::new(3, 3);
    draw_triangle(&mut first, &upper);
    draw_triangle(&mut first, &lower);
    let mut second = ScreenBuffer::new(3, 3);
    draw_triangle(&mut second, &lower);
    draw_triangle(&mut second, &upper);
    assert_eq!(first.buffer, second.buffer);
    assert_eq!(glyphs(&first), vec!["luu", "llu", "lll"]);
}
