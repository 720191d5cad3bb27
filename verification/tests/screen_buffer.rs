use glyph3d::rendering::point::Point;
use glyph3d::rendering::screen_buffer::ScreenBuffer;
use glyph3d::rendering::stroke::Stroke;

fn blank() -> Stroke {
    Stroke::new([255, 255, 255], ' ')
}

#[test]
fn point_new_keeps_coordinates() {
    let p = Point::new(-3, 7);
    assert_eq!(p.x, -3);
    assert_eq!(p.y, 7);
}

#[test]
fn new_buffer_is_blank() {
    let buf = ScreenBuffer::new(4, 3);
    assert_eq!(buf.width, 4);
    assert_eq!(buf.height, 3);
    assert_eq!(buf.buffer.len(), 12);
    assert!(buf.buffer.iter().all(|s| *s == blank()));
}

#[test]
fn new_buffer_may_be_empty() {
    assert_eq!(ScreenBuffer::new(0, 9).buffer.len(), 0);
    assert_eq!(ScreenBuffer::new(9, 0).buffer.len(), 0);
}

#[test]
fn new_buffer_larger_than_sixteen_bits() {
    let buf = ScreenBuffer::new(300, 300);
    assert_eq!(buf.buffer.len(), 90_000);
    assert_eq!(buf.index_of(299, 299), 89_999);
}

#[test]
fn index_of_is_row_major() {
    let buf = ScreenBuffer::new(5, 4);
    assert_eq!(buf.index_of(0, 0), 0);
    assert_eq!(buf.index_of(4, 0), 4);
    assert_eq!(buf.index_of(0, 1), 5);
    assert_eq!(buf.index_of(3, 2), 13);
}

#[test]
fn set_pixel_changes_one_cell() {
    let mut buf = ScreenBuffer::new(5, 4);
    let red = Stroke::new([255, 0, 0], '#');
    buf.set_pixel(3, 2, red);
    for (i, s) in buf.buffer.iter().enumerate() {
        if i == 13 {
            assert_eq!(*s, red);
        } else {
            assert_eq!(*s, blank());
        }
    }
}

#[test]
fn set_pixel_past_the_row_end_runs_into_the_next_row() {
    let mut buf = ScreenBuffer::new(5, 4);
    let red = Stroke::new([255, 0, 0], '#');
    buf.set_pixel(6, 1, red);
    assert_eq!(buf.buffer[11], red);
}

#[test]
fn fill_sets_every_cell() {
    let mut buf = ScreenBuffer::new(3, 2);
    let green = Stroke::new([0, 255, 0], 'g');
    buf.fill(green);
    assert_eq!(buf.buffer, vec![green; 6]);
    assert_eq!((buf.width, buf.height), (3, 2));
}

#[test]
fn clear_blanks_every_cell() {
    let mut buf = ScreenBuffer::new(3, 2);
    buf.fill(Stroke::new([0, 255, 0], 'g'));
    buf.clear();
    assert_eq!(buf.buffer, vec![blank(); 6]);
}

#[test]
fn fill_string_writes_white_glyphs_to_the_right() {
    let mut buf = ScreenBuffer::new(6, 3);
    buf.fill(Stroke::new([9, 9, 9], '.'));
    buf.fill_string("abc", Point::new(2, 1));
    let dot = Stroke::new([9, 9, 9], '.');
    for (i, s) in buf.buffer.iter().enumerate() {
        match i {
            8 => assert_eq!(*s, Stroke::new([255, 255, 255], 'a')),
            9 => assert_eq!(*s, Stroke::new([255, 255, 255], 'b')),
            10 => assert_eq!(*s, Stroke::new([255, 255, 255], 'c')),
            _ => assert_eq!(*s, dot),
        }
    }
}

#[test]
fn fill_string_counts_characters_not_bytes() {
    let mut buf = ScreenBuffer::new(4, 1);
    buf.fill_string("é█", Point::new(1, 0));
    assert_eq!(buf.buffer[0], blank());
    assert_eq!(buf.buffer[1], Stroke::new([255, 255, 255], 'é'));
    assert_eq!(buf.buffer[2], Stroke::new([255, 255, 255], '█'));
    assert_eq!(buf.buffer[3], blank());
}

#[test]
fn fill_string_of_nothing_changes_nothing() {
    let mut buf = ScreenBuffer::new(2, 2);
    buf.fill_string("", Point::new(70000, 3));
    buf.fill_string("", Point::new(-1, -1));
    assert_eq!(buf.buffer, vec![blank(); 4]);
}

#[test]
fn render_of_one_cell() {
    let mut buf = ScreenBuffer::new(1, 1);
    buf.set_pixel(0, 0, Stroke::new([1, 20, 255], '@'));
    assert_eq!(buf.render(), "\x1b[1;1H\x1b[38;2;1;20;255m\x1b[1;1H@");
}

#[test]
fn render_places_each_cell_by_row_then_column() {
    let mut buf = ScreenBuffer::new(3, 2);
    buf.set_pixel(2, 1, Stroke::new([0, 0, 0], 'z'));
    let white = "\x1b[38;2;255;255;255m";
    let mut expected = String::from("\x1b[1;1H");
    for (row, col) in [(1, 1), (1, 2), (1, 3), (2, 1), (2, 2)] {
        expected.push_str(white);
        expected.push_str(&format!("\x1b[{};{}H ", row, col));
    }
    expected.push_str("\x1b[38;2;0;0;0m\x1b[2;3Hz");
    assert_eq!(buf.render(), expected);
}

#[test]
fn render_of_an_empty_grid_only_homes_the_cursor() {
    assert_eq!(ScreenBuffer::new(0, 0).render(), "\x1b[1;1H");
    assert_eq!(ScreenBuffer::new(5, 0).render(), "\x1b[1;1H");
}
