use glyph3d::rendering::stroke::{push_decimal, Stroke};

#[test]
fn new_keeps_colour_and_glyph() {
    let s = Stroke::new([1, 2, 3], 'x');
    assert_eq!(s.color, [1, 2, 3]);
    assert_eq!(s.tex, 'x');
}

#[test]
fn as_str_writes_the_colour_in_decimal() {
    let s = Stroke::new([255, 0, 7], '#');
    assert_eq!(s.as_str(), "\x1b[38;2;255;0;7m");
}

#[test]
fn as_str_of_black_and_white() {
    assert_eq!(Stroke::new([0, 0, 0], ' ').as_str(), "\x1b[38;2;0;0;0m");
    assert_eq!(Stroke::new([255, 255, 255], ' ').as_str(), "\x1b[38;2;255;255;255m");
}

#[test]
fn as_str_agrees_with_std_formatting_for_every_channel_value() {
    for v in 0..=255u8 {
        let s = Stroke::new([v, 255 - v, v / 2], 'q');
        let expected = format!("\x1b[38;2;{};{};{}m", v, 255 - v, v / 2);
        assert_eq!(s.as_str(), expected);
    }
}

#[test]
fn push_decimal_appends_without_leading_zeros() {
    let mut out = String::from("n=");
    push_decimal(&mut out, 0);
    out.push(',');
    push_decimal(&mut out, 9);
    out.push(',');
    push_decimal(&mut out, 10);
    out.push(',');
    push_decimal(&mut out, 1005);
    out.push(',');
    push_decimal(&mut out, 65535);
    assert_eq!(out, "n=0,9,10,1005,65535");
}
