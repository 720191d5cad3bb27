use vstd::prelude::*;
use vstd::string::StringExecFns;
use crate::rendering::point::Point;
use crate::rendering::stroke::{decimal, Stroke};

verus! {

/// The text that moves the cursor to column `x`, row `y` (both counted from
/// one): `ESC [ y ; x H`.
pub open spec fn goto_text(x: nat, y: nat) -> Seq<char> {
    seq!['\x1b', '['] + decimal(y) + seq![';'] + decimal(x) + seq!['H']
}

/// What `termion::cursor::Goto(x, y)` displays as: the escape sequence that
/// moves the cursor to column `x`, row `y`, both written in decimal. The
/// position `(0, 0)` is left out, as termion rejects it in debug builds.
#[verifier::external_body]
fn goto_code(x: u16, y: u16) -> (code: String)
    requires
        x != 0 || y != 0,
    ensures
        code@ == goto_text(x as nat, y as nat),
{
    format!("{}", termion::cursor::Goto(x, y))
}

/// The glyph grid: `width` columns by `height` rows of strokes, stored row by
/// row from the top.
pub struct ScreenBuffer {
    pub width: u16,
    pub height: u16,
    pub buffer: Vec<Stroke>,
}

impl View for ScreenBuffer {
    type V = Seq<Stroke>;

    /// The cells in storage order: row `y`, column `x` is at `y * width + x`.
    open spec fn view(&self) -> Seq<Stroke> {
        self.buffer@
    }
}

impl ScreenBuffer {
    /// The grid holds exactly `width * height` cells.
    pub open spec fn wf(&self) -> bool {
        self@.len() == self.width * self.height
    }

    /// Where the cell of column `x`, row `y` is stored.
    pub open spec fn spec_index_of(&self, x: int, y: int) -> int {
        y * self.width + x
    }

    /// Whether column `x`, row `y` names a cell of the grid.
    pub open spec fn in_grid(&self, x: int, y: int) -> bool {
        0 <= x < self.width && 0 <= y < self.height
    }

    /// The stroke shown at column `x`, row `y`.
    pub open spec fn pixel(&self, x: int, y: int) -> Stroke
        recommends
            self.wf(),
            self.in_grid(x, y),
    {
        self@[self.spec_index_of(x, y)]
    }

    /// A cell of the grid has its storage index inside the grid.
    pub proof fn lemma_index_in_range(&self, x: int, y: int)
        requires
            self.wf(),
            self.in_grid(x, y),
        ensures
            0 <= self.spec_index_of(x, y) < self@.len(),
    {
        let w = self.width as int;
        let h = self.height as int;
        assert(y * w + x < h * w) by (nonlinear_arith)
            requires
                0 <= x < w,
                0 <= y < h,
        ;
        assert(h * w == w * h) by (nonlinear_arith);
        assert(0 <= y * w) by (nonlinear_arith)
            requires
                0 <= y,
                0 <= w,
        ;
    }

    /// Two different cells of the grid are stored at different indices.
    pub proof fn lemma_index_distinct(&self, x1: int, y1: int, x2: int, y2: int)
        requires
            self.in_grid(x1, y1),
            self.in_grid(x2, y2),
            x1 != x2 || y1 != y2,
        ensures
            self.spec_index_of(x1, y1) != self.spec_index_of(x2, y2),
    {
        let w = self.width as int;
        assert(y2 * w + x2 != y1 * w + x1) by (nonlinear_arith)
            requires
                0 <= x1 < w,
                0 <= x2 < w,
                x2 != x1 || y2 != y1,
        ;
    }

    /// A grid of blank cells.
    pub fn new(width: u16, height: u16) -> (buf: ScreenBuffer)
        ensures
            buf.wf(),
            buf.width == width,
            buf.height == height,
            forall|i: int| 0 <= i < buf@.len() ==> (#[trigger] buf@[i]).is_blank(),
    {
        assert(width * height <= 65535 * 65535) by (nonlinear_arith)
            requires
                0 <= width <= 65535,
                0 <= height <= 65535,
        ;
        let size: usize = width as usize * height as usize;
        let mut buffer: Vec<Stroke> = Vec::new();
        let mut i: usize = 0;
        while i < size
            invariant
                i <= size,
                buffer@.len() == i,
                forall|j: int| 0 <= j < i ==> (#[trigger] buffer@[j]).is_blank(),
            decreases size - i,
        {
            buffer.push(Stroke::new([255, 255, 255], ' '));
            i += 1;
        }
        ScreenBuffer { width, height, buffer }
    }

    pub fn index_of(&self, x: u16, y: u16) -> (i: usize)
        ensures
            i == self.spec_index_of(x as int, y as int),
    {
        assert(y * self.width + x <= 65535 * 65535 + 65535) by (nonlinear_arith)
            requires
                0 <= x <= 65535,
                0 <= y <= 65535,
                0 <= self.width <= 65535,
        ;
        y as usize * self.width as usize + x as usize
    }

    /// Stores `s` in the cell of column `x`, row `y`. A column past the end
    /// of a row runs on into the rows below, as far as the grid reaches.
    pub fn set_pixel(&mut self, x: u16, y: u16, s: Stroke)
        requires
            old(self).spec_index_of(x as int, y as int) < old(self)@.len(),
        ensures
            final(self)@ == old(self)@.update(old(self).spec_index_of(x as int, y as int), s),
            final(self).width == old(self).width,
            final(self).height == old(self).height,
    {
        let i = self.index_of(x, y);
        self.buffer[i] = s;
    }

    /// Sets every cell to `s`.
    pub fn fill(&mut self, s: Stroke)
        ensures
            final(self)@ == Seq::new(old(self)@.len(), |i: int| s),
            final(self).width == old(self).width,
            final(self).height == old(self).height,
    {
        let n = self.buffer.len();
        let mut i: usize = 0;
        while i < n
            invariant
                i <= n,
                self.buffer@.len() == n,
                n == old(self)@.len(),
                self.width == old(self).width,
                self.height == old(self).height,
                forall|j: int| 0 <= j < i ==> self.buffer@[j] == s,
            decreases n - i,
        {
            self.buffer[i] = s;
            i += 1;
        }
        assert(self@ =~= Seq::new(old(self)@.len(), |i: int| s));
    }

    /// Sets every cell to the blank stroke.
    pub fn clear(&mut self)
        ensures
            final(self)@.len() == old(self)@.len(),
            forall|i: int| 0 <= i < final(self)@.len() ==> (#[trigger] final(self)@[i]).is_blank(),
            final(self).width == old(self).width,
            final(self).height == old(self).height,
    {
        self.fill(Stroke::new([255, 255, 255], ' '));
    }

    /// Writes the characters of `s` in full white into the cells from
    /// column `p.x`, row `p.y` on, one cell to the right for each. The text
    /// must start on the grid's side of the origin and end in the grid, and
    /// no column that it takes may pass what sixteen bits hold.
    pub fn fill_string(&mut self, s: &str, p: Point)
        requires
            s@.len() > 0 ==> {
                &&& 0 <= p.x
                &&& 0 <= p.y <= u16::MAX
                &&& p.x + s@.len() <= u16::MAX + 1
                &&& old(self).spec_index_of(p.x as int, p.y as int) + s@.len() <= old(self)@.len()
            },
        ensures
            final(self).width == old(self).width,
            final(self).height == old(self).height,
            final(self)@.len() == old(self)@.len(),
            forall|i: int|
                0 <= i < old(self)@.len() ==> {
                    let k = i - old(self).spec_index_of(p.x as int, p.y as int);
                    if 0 <= k < s@.len() {
                        (#[trigger] final(self)@[i]).shows(255, 255, 255, s@[k])
                    } else {
                        final(self)@[i] == old(self)@[i]
                    }
                },
    {
        let n = s.unicode_len();
        let mut i: usize = 0;
        while i < n
            invariant
                i <= n,
                n == s@.len(),
                n > 0 ==> {
                    &&& 0 <= p.x
                    &&& 0 <= p.y <= u16::MAX
                    &&& p.x + n <= u16::MAX + 1
                    &&& old(self).spec_index_of(p.x as int, p.y as int) + n <= old(self)@.len()
                },
                self.width == old(self).width,
                self.height == old(self).height,
                self@.len() == old(self)@.len(),
                forall|j: int|
                    0 <= j < old(self)@.len() ==> {
                        let k = j - old(self).spec_index_of(p.x as int, p.y as int);
                        if 0 <= k < i {
                            (#[trigger] self@[j]).shows(255, 255, 255, s@[k])
                        } else {
                            self@[j] == old(self)@[j]
                        }
                    },
            decreases n - i,
        {
            let c = s.get_char(i);
            let x: u16 = (p.x as usize + i) as u16;
            let at = self.index_of(x, p.y as u16);
            assert(0 <= p.y * self.width) by (nonlinear_arith)
                requires
                    0 <= p.y,
                    0 <= self.width,
            ;
            self.buffer[at] = Stroke::new([255, 255, 255], c);
            i += 1;
        }
    }

    /// The text that shows the cell at column `x`, row `y` on a terminal:
    /// its colour, its place, its glyph.
    pub open spec fn cell_text(&self, x: int, y: int) -> Seq<char> {
        self.pixel(x, y).color_code() + goto_text((x + 1) as nat, (y + 1) as nat)
            + seq![self.pixel(x, y).tex]
    }

    /// The text that shows the first `upto` cells of row `y`.
    pub open spec fn row_text(&self, y: int, upto: int) -> Seq<char>
        decreases upto,
    {
        if upto <= 0 {
            Seq::empty()
        } else {
            self.row_text(y, upto - 1) + self.cell_text(upto - 1, y)
        }
    }

    /// The text that shows the first `rows` rows, after a move of the
    /// cursor to the top left corner.
    pub open spec fn frame_text(&self, rows: int) -> Seq<char>
        decreases rows,
    {
        if rows <= 0 {
            goto_text(1, 1)
        } else {
            self.frame_text(rows - 1) + self.row_text(rows - 1, self.width as int)
        }
    }

    /// The text that shows the whole grid on a terminal, cell by cell from
    /// the top left.
    pub fn render(&self) -> (out: String)
        requires
            self.wf(),
        ensures
            out@ == self.frame_text(self.height as int),
    {
        let mut out = goto_code(1, 1);
        let mut y: u16 = 0;
        while y < self.height
            invariant
                self.wf(),
                y <= self.height,
                out@ == self.frame_text(y as int),
            decreases self.height - y,
        {
            let mut x: u16 = 0;
            while x < self.width
                invariant
                    self.wf(),
                    y < self.height,
                    x <= self.width,
                    out@ == self.frame_text(y as int) + self.row_text(y as int, x as int),
                decreases self.width - x,
            {
                proof {
                    self.lemma_index_in_range(x as int, y as int);
                }
                let s = self.buffer[self.index_of(x, y)];
                let ghost before = out@;
                let color = s.as_str();
                out.append(color.as_str());
                let place = goto_code(x + 1, y + 1);
                out.append(place.as_str());
                out.push(s.tex);
                assert(out@ =~= before + self.cell_text(x as int, y as int));
                x += 1;
            }
            y += 1;
        }
        out
    }
}

} // verus!
