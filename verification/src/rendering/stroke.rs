use vstd::prelude::*;

verus! {

/// The character that writes the digit `d` (`d < 10`).
pub open spec fn digit_char(d: nat) -> char {
    if d == 0 {
        '0'
    } else if d == 1 {
        '1'
    } else if d == 2 {
        '2'
    } else if d == 3 {
        '3'
    } else if d == 4 {
        '4'
    } else if d == 5 {
        '5'
    } else if d == 6 {
        '6'
    } else if d == 7 {
        '7'
    } else if d == 8 {
        '8'
    } else {
        '9'
    }
}

/// The decimal numeral of `n`: no sign, no leading zero, `"0"` for zero.
pub open spec fn decimal(n: nat) -> Seq<char>
    decreases n,
{
    if n < 10 {
        seq![digit_char(n)]
    } else {
        decimal(n / 10).push(digit_char(n % 10))
    }
}

/// `String::push` appends one character to the end of the string.
pub assume_specification[ String::push ](s: &mut String, c: char)
    ensures
        final(s)@ == old(s)@.push(c),
;

fn digit(d: u16) -> (c: char)
    requires
        d < 10,
    ensures
        c == digit_char(d as nat),
{
    if d == 0 {
        '0'
    } else if d == 1 {
        '1'
    } else if d == 2 {
        '2'
    } else if d == 3 {
        '3'
    } else if d == 4 {
        '4'
    } else if d == 5 {
        '5'
    } else if d == 6 {
        '6'
    } else if d == 7 {
        '7'
    } else if d == 8 {
        '8'
    } else {
        '9'
    }
}

/// Appends the decimal numeral of `n` to `out`.
pub fn push_decimal(out: &mut String, n: u16)
    ensures
        final(out)@ == old(out)@ + decimal(n as nat),
    decreases n,
{
    if n >= 10 {
        push_decimal(out, n / 10);
    }
    out.push(digit(n % 10));
}

/// What one cell of the grid shows: a glyph and the colour it is drawn in.
#[derive(Copy, Clone, Debug, PartialEq, Eq)]
pub struct Stroke {
    pub color: [u8; 3],
    pub tex: char,
}

impl Stroke {
    /// The escape sequence that selects this stroke's colour as the
    /// foreground: `ESC [ 38 ; 2 ; r ; g ; b m`.
    pub open spec fn color_code(self) -> Seq<char> {
        seq!['\x1b', '[', '3', '8', ';', '2', ';'] + decimal(self.color[0] as nat) + seq![';']
            + decimal(self.color[1] as nat) + seq![';'] + decimal(self.color[2] as nat) + seq!['m']
    }

    /// Whether this stroke is the blank cell: a space in full white.
    pub open spec fn is_blank(self) -> bool {
        self.shows(255, 255, 255, ' ')
    }

    /// Whether this stroke draws `tex` in the colour `(r, g, b)`.
    pub open spec fn shows(self, r: u8, g: u8, b: u8, tex: char) -> bool {
        &&& self.color[0] == r
        &&& self.color[1] == g
        &&& self.color[2] == b
        &&& self.tex == tex
    }

    pub fn new(color: [u8; 3], tex: char) -> (s: Stroke)
        ensures
            s.color == color,
            s.tex == tex,
    {
        Stroke { color, tex }
    }

    pub fn as_str(&self) -> (code: String)
        ensures
            code@ == self.color_code(),
    {
        let mut code = String::new();
        code.push('\x1b');
        code.push('[');
        code.push('3');
        code.push('8');
        code.push(';');
        code.push('2');
        code.push(';');
        assert(code@ =~= seq!['\x1b', '[', '3', '8', ';', '2', ';']);
        push_decimal(&mut code, self.color[0] as u16);
        code.push(';');
        push_decimal(&mut code, self.color[1] as u16);
        code.push(';');
        push_decimal(&mut code, self.color[2] as u16);
        code.push('m');
        assert(code@ =~= self.color_code());
        code
    }
}

} // verus!
