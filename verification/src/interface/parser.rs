use vstd::prelude::*;
use crate::interface::input::is_letter;

verus! {

/// What one line of a mesh text says. Numbers of a vertex are carried as
/// they are written: reading them is left to the caller. Corners of a face
/// are places in the list of the vertices read so far, counted from zero.
#[derive(Debug, Clone, PartialEq, Eq)]
pub enum MeshLine {
    /// Nothing: the line is empty or of a kind that is not read.
    Skip,
    /// A vertex with its three numbers.
    Vertex { x: String, y: String, z: String },
    /// A vertex line with fewer than three numbers; `given` holds those
    /// that are there.
    ShortVertex { given: Vec<String> },
    /// A face with its three corners.
    Face { a: usize, b: usize, c: usize },
    /// A face line on which a corner is missing.
    ShortFace,
    /// A face line on which a corner is no whole number that fits; `message`
    /// says why not.
    BadIndex { message: String },
    /// A face line that names the vertex `index` (counted from one), which
    /// no line so far has given.
    NoSuchVertex { index: usize },
}

/// A `MeshLine` with its texts as sequences of characters, and without the
/// wording of a message.
pub enum MeshLineView {
    Skip,
    Vertex { x: Seq<char>, y: Seq<char>, z: Seq<char> },
    ShortVertex { given: Seq<Seq<char>> },
    Face { a: usize, b: usize, c: usize },
    ShortFace,
    BadIndex,
    NoSuchVertex { index: usize },
}

/// The texts of `words` as sequences of characters.
pub open spec fn texts(words: Seq<String>) -> Seq<Seq<char>> {
    words.map_values(|w: String| w@)
}

impl View for MeshLine {
    type V = MeshLineView;

    open spec fn view(&self) -> MeshLineView {
        match *self {
            MeshLine::Skip => MeshLineView::Skip,
            MeshLine::Vertex { x, y, z } => MeshLineView::Vertex { x: x@, y: y@, z: z@ },
            MeshLine::ShortVertex { given } => MeshLineView::ShortVertex { given: texts(given@) },
            MeshLine::Face { a, b, c } => MeshLineView::Face { a, b, c },
            MeshLine::ShortFace => MeshLineView::ShortFace,
            MeshLine::BadIndex { message } => MeshLineView::BadIndex,
            MeshLine::NoSuchVertex { index } => MeshLineView::NoSuchVertex { index },
        }
    }
}

/// The words of `line`: its pieces between runs of white space, in order.
pub uninterp spec fn split_words(line: Seq<char>) -> Seq<Seq<char>>;

/// `str::split_whitespace`, each piece as a text of its own.
#[verifier::external_body]
fn words_of(line: &str) -> (words: Vec<String>)
    ensures
        texts(words@) == split_words(line@),
{
    line.split_whitespace().map(|w| w.to_string()).collect()
}

/// Whether `c` is one of the digits `0` to `9`.
pub open spec fn is_digit(c: char) -> bool {
    '0' <= c <= '9'
}

/// The number that the digits of `text` write in base ten.
pub open spec fn digits_value(text: Seq<char>) -> nat
    decreases text.len(),
{
    if text.len() == 0 {
        0
    } else {
        digits_value(text.drop_last()) * 10 + (text.last() as nat - '0' as nat) as nat
    }
}

/// The digits of a whole number as it may be written: `text` without the
/// plus sign that may stand in front.
pub open spec fn unsigned_digits(text: Seq<char>) -> Seq<char> {
    if text.len() > 0 && text[0] == '+' {
        text.drop_first()
    } else {
        text
    }
}

/// Whether `text` writes a whole number: at least one digit and nothing
/// but digits, after a plus sign or none.
pub open spec fn is_whole_number(text: Seq<char>) -> bool {
    let digits = unsigned_digits(text);
    digits.len() > 0 && forall|i: int| 0 <= i < digits.len() ==> is_digit(#[trigger] digits[i])
}

#[verifier::external_type_specification]
#[verifier::external_body]
pub struct ExParseIntError(core::num::ParseIntError);

/// `str::parse::<usize>`: succeeds exactly on a whole number that fits, and
/// then gives that number.
#[verifier::external_body]
fn whole_number(text: &str) -> (r: Result<usize, core::num::ParseIntError>)
    ensures
        match r {
            Ok(value) => is_whole_number(text@) && value == digits_value(unsigned_digits(text@)),
            Err(_) => !is_whole_number(text@) || digits_value(unsigned_digits(text@)) > usize::MAX,
        },
{
    text.parse::<usize>()
}

/// What a `ParseIntError` displays as.
#[verifier::external_body]
fn fault_text(fault: &core::num::ParseIntError) -> String {
    fault.to_string()
}

/// Where the first `/` of `token` stands at or after place `i`; the length
/// of `token` where there is none.
pub open spec fn slash_from(token: Seq<char>, i: int) -> int
    decreases token.len() - i,
{
    if i < 0 || i >= token.len() || token[i] == '/' {
        i
    } else {
        slash_from(token, i + 1)
    }
}

/// The part of `token` in front of its first `/`; all of it where it has
/// none.
pub open spec fn before_slash(token: Seq<char>) -> Seq<char> {
    token.subrange(0, slash_from(token, 0))
}

/// What the corner written as `token` means on a mesh that has `count`
/// vertices so far: the place of the vertex, counted from zero, or the
/// fault.
pub open spec fn spec_corner(token: Seq<char>, count: usize) -> Result<usize, MeshLineView> {
    let head = before_slash(token);
    let value = digits_value(unsigned_digits(head));
    if !is_whole_number(head) || value > usize::MAX {
        Err(MeshLineView::BadIndex)
    } else if value == 0 || value > count {
        Err(MeshLineView::NoSuchVertex { index: value as usize })
    } else {
        Ok((value - 1) as usize)
    }
}

/// What a line with the words `words` says on a mesh that has `count`
/// vertices so far. A line is read by its first word: `v` starts a vertex,
/// `f` a face, anything else is passed over. Words after the third number
/// or corner are not read. The corners of a face are read from the left,
/// and the first fault found is the one reported.
pub open spec fn spec_parse_line(words: Seq<Seq<char>>, count: usize) -> MeshLineView {
    if words.len() == 0 {
        MeshLineView::Skip
    } else if words[0] == seq!['v'] {
        if words.len() >= 4 {
            MeshLineView::Vertex { x: words[1], y: words[2], z: words[3] }
        } else {
            MeshLineView::ShortVertex { given: words.subrange(1, words.len() as int) }
        }
    } else if words[0] == seq!['f'] {
        if words.len() < 2 {
            MeshLineView::ShortFace
        } else {
            match spec_corner(words[1], count) {
                Err(fault) => fault,
                Ok(a) => if words.len() < 3 {
                    MeshLineView::ShortFace
                } else {
                    match spec_corner(words[2], count) {
                        Err(fault) => fault,
                        Ok(b) => if words.len() < 4 {
                            MeshLineView::ShortFace
                        } else {
                            match spec_corner(words[3], count) {
                                Err(fault) => fault,
                                Ok(c) => MeshLineView::Face { a, b, c },
                            }
                        },
                    }
                },
            }
        }
    } else {
        MeshLineView::Skip
    }
}

/// The part of `token` in front of its first `/`.
pub fn head_of(token: &str) -> (head: String)
    ensures
        head@ == before_slash(token@),
{
    let n = token.unicode_len();
    let mut head = String::new();
    let mut i: usize = 0;
    while i < n
        invariant
            i <= n,
            n == token@.len(),
            head@ == token@.subrange(0, i as int),
            slash_from(token@, 0) == slash_from(token@, i as int),
        decreases n - i,
    {
        let c = token.get_char(i);
        if c == '/' {
            return head;
        }
        head.push(c);
        assert(head@ =~= token@.subrange(0, i as int + 1));
        i += 1;
    }
    head
}

/// Reads one corner of a face on a mesh that has `count` vertices so far.
pub fn corner(token: &str, count: usize) -> (r: Result<usize, MeshLine>)
    ensures
        match r {
            Ok(place) => spec_corner(token@, count) == Ok::<usize, MeshLineView>(place),
            Err(fault) => spec_corner(token@, count) == Err::<usize, MeshLineView>(fault@),
        },
{
    let head = head_of(token);
    match whole_number(head.as_str()) {
        Err(fault) => Err(MeshLine::BadIndex { message: fault_text(&fault) }),
        Ok(value) => {
            if value == 0 || value > count {
                Err(MeshLine::NoSuchVertex { index: value })
            } else {
                Ok(value - 1)
            }
        },
    }
}

/// Reads one line of a mesh text on a mesh that has `count` vertices so
/// far.
pub fn parse_line(line: &str, count: usize) -> (item: MeshLine)
    ensures
        item@ == spec_parse_line(split_words(line@), count),
{
    let words = words_of(line);
    let ghost w = texts(words@);
    if words.len() == 0 {
        return MeshLine::Skip;
    }
    assert(w[0] == words@[0]@);
    if is_letter(&words[0], 'v') {
        if words.len() >= 4 {
            assert(w[1] == words@[1]@ && w[2] == words@[2]@ && w[3] == words@[3]@);
            return MeshLine::Vertex {
                x: words[1].clone(),
                y: words[2].clone(),
                z: words[3].clone(),
            };
        }
        let mut given: Vec<String> = Vec::new();
        let mut i: usize = 1;
        while i < words.len()
            invariant
                1 <= i <= words@.len(),
                w == texts(words@),
                texts(given@) == w.subrange(1, i as int),
            decreases words@.len() - i,
        {
            let ghost before = texts(given@);
            given.push(words[i].clone());
            assert(texts(given@) =~= before.push(words@[i as int]@));
            assert(w[i as int] == words@[i as int]@);
            assert(w.subrange(1, i as int + 1) =~= w.subrange(1, i as int).push(w[i as int]));
            i += 1;
        }
        return MeshLine::ShortVertex { given };
    }
    if !is_letter(&words[0], 'f') {
        return MeshLine::Skip;
    }
    if words.len() < 2 {
        return MeshLine::ShortFace;
    }
    assert(w[1] == words@[1]@);
    let a = match corner(words[1].as_str(), count) {
        Ok(a) => a,
        Err(fault) => {
            return fault;
        },
    };
    if words.len() < 3 {
        return MeshLine::ShortFace;
    }
    assert(w[2] == words@[2]@);
    let b = match corner(words[2].as_str(), count) {
        Ok(b) => b,
        Err(fault) => {
            return fault;
        },
    };
    if words.len() < 4 {
        return MeshLine::ShortFace;
    }
    assert(w[3] == words@[3]@);
    let c = match corner(words[3].as_str(), count) {
        Ok(c) => c,
        Err(fault) => {
            return fault;
        },
    };
    MeshLine::Face { a, b, c }
}

/// The three numbers of a vertex as they are written.
#[derive(Debug, Clone, PartialEq, Eq)]
pub struct VertexText {
    pub x: String,
    pub y: String,
    pub z: String,
}

/// The three corners of a face: places in the list of vertices, counted
/// from zero.
#[derive(Debug, Clone, Copy, PartialEq, Eq)]
pub struct FaceCorners {
    pub a: usize,
    pub b: usize,
    pub c: usize,
}

/// A fault in a mesh text: what is wrong and the line on which it is.
#[derive(Debug, Clone, PartialEq, Eq)]
pub struct MeshFault {
    /// What the line was read as: one of the faulty kinds of `MeshLine`.
    pub found: MeshLine,
    /// The line as written.
    pub line: String,
}

/// What a mesh text holds, as far as it could be read: the vertices and
/// faces in the order of their lines, up to the first fault if there is
/// one.
#[derive(Debug, Clone, PartialEq, Eq)]
pub struct MeshOutline {
    pub vertices: Vec<VertexText>,
    pub faces: Vec<FaceCorners>,
    pub fault: Option<MeshFault>,
}

/// A `MeshOutline` with its texts as sequences of characters.
pub struct MeshOutlineView {
    pub vertices: Seq<(Seq<char>, Seq<char>, Seq<char>)>,
    pub faces: Seq<FaceCorners>,
    pub fault: Option<(MeshLineView, Seq<char>)>,
}

/// The numbers of `vertices` as sequences of characters.
pub open spec fn vertex_texts(vertices: Seq<VertexText>) -> Seq<(Seq<char>, Seq<char>, Seq<char>)> {
    vertices.map_values(|v: VertexText| (v.x@, v.y@, v.z@))
}

impl View for MeshOutline {
    type V = MeshOutlineView;

    open spec fn view(&self) -> MeshOutlineView {
        MeshOutlineView {
            vertices: vertex_texts(self.vertices@),
            faces: self.faces@,
            fault: match self.fault {
                Some(f) => Some((f.found@, f.line@)),
                None => None,
            },
        }
    }
}

/// The lines of `text`: its pieces between line ends, without the line
/// ends.
pub uninterp spec fn split_lines(text: Seq<char>) -> Seq<Seq<char>>;

/// `str::lines`, each line as a text of its own.
#[verifier::external_body]
fn lines_of(text: &str) -> (lines: Vec<String>)
    ensures
        texts(lines@) == split_lines(text@),
{
    text.lines().map(|l| l.to_string()).collect()
}

/// The outline that `before` becomes when `line` is read after it. Once a
/// fault is found nothing more is read.
pub open spec fn outline_with(before: MeshOutlineView, line: Seq<char>) -> MeshOutlineView {
    if before.fault is Some {
        before
    } else {
        match spec_parse_line(split_words(line), before.vertices.len() as usize) {
            MeshLineView::Skip => before,
            MeshLineView::Vertex { x, y, z } => MeshOutlineView {
                vertices: before.vertices.push((x, y, z)),
                ..before
            },
            MeshLineView::Face { a, b, c } => MeshOutlineView {
                faces: before.faces.push(FaceCorners { a, b, c }),
                ..before
            },
            found => MeshOutlineView { fault: Some((found, line)), ..before },
        }
    }
}

/// The outline of a mesh text with the lines `lines`.
pub open spec fn spec_outline(lines: Seq<Seq<char>>) -> MeshOutlineView
    decreases lines.len(),
{
    if lines.len() == 0 {
        MeshOutlineView { vertices: Seq::empty(), faces: Seq::empty(), fault: None }
    } else {
        outline_with(spec_outline(lines.drop_last()), lines.last())
    }
}

/// Every corner of every face of an outline names a vertex of it.
pub open spec fn faces_name_vertices(outline: MeshOutlineView) -> bool {
    forall|i: int|
        0 <= i < outline.faces.len() ==> {
            let f = #[trigger] outline.faces[i];
            f.a < outline.vertices.len() && f.b < outline.vertices.len() && f.c
                < outline.vertices.len()
        }
}

/// Reads a mesh text line by line.
pub fn parse_mesh(contents: &str) -> (outline: MeshOutline)
    ensures
        outline@ == spec_outline(split_lines(contents@)),
        faces_name_vertices(outline@),
{
    let lines = lines_of(contents);
    let ghost all = texts(lines@);
    let mut outline = MeshOutline { vertices: Vec::new(), faces: Vec::new(), fault: None };
    assert(outline@.vertices =~= Seq::empty());
    let n = lines.len();
    let mut i: usize = 0;
    while i < n
        invariant
            i <= n,
            n == lines@.len(),
            all == texts(lines@),
            all == split_lines(contents@),
            outline.fault is None,
            outline@ == spec_outline(all.subrange(0, i as int)),
            faces_name_vertices(outline@),
        decreases n - i,
    {
        let line = lines[i].as_str();
        let ghost before = outline@;
        proof {
            let next = all.subrange(0, i as int + 1);
            assert(next.drop_last() =~= all.subrange(0, i as int));
            assert(next.last() == line@);
            assert(before.vertices.len() == outline.vertices@.len());
        }
        let item = parse_line(line, outline.vertices.len());
        match item {
            MeshLine::Skip => {},
            MeshLine::Vertex { x, y, z } => {
                let ghost old_vertices = outline.vertices@;
                outline.vertices.push(VertexText { x, y, z });
                assert(vertex_texts(outline.vertices@) =~= vertex_texts(old_vertices).push(
                    (x@, y@, z@),
                ));
            },
            MeshLine::Face { a, b, c } => {
                outline.faces.push(FaceCorners { a, b, c });
                proof {
                    lemma_corners_are_in_range(split_words(line@), outline.vertices@.len() as usize);
                }
            },
            found => {
                let ghost kind = found@;
                outline.fault = Some(MeshFault { found, line: lines[i].clone() });
                proof {
                    assert(outline@.fault == Some((kind, line@)));
                    lemma_outline_stays(all, i as int + 1, n as int);
                    assert(all.subrange(0, n as int) =~= all);
                }
                return outline;
            },
        }
        i += 1;
    }
    assert(all.subrange(0, n as int) =~= all);
    outline
}

/// The corners of a face that a line gives name vertices read so far.
pub proof fn lemma_corners_are_in_range(words: Seq<Seq<char>>, count: usize)
    ensures
        spec_parse_line(words, count) matches MeshLineView::Face { a, b, c } ==> a < count && b
            < count && c < count,
{
}

/// Once a fault is found, the lines that follow change nothing.
proof fn lemma_outline_stays(lines: Seq<Seq<char>>, from: int, to: int)
    requires
        0 <= from <= to <= lines.len(),
        spec_outline(lines.subrange(0, from)).fault is Some,
    ensures
        spec_outline(lines.subrange(0, to)) == spec_outline(lines.subrange(0, from)),
    decreases to - from,
{
    if from < to {
        lemma_outline_stays(lines, from, to - 1);
        assert(lines.subrange(0, to).drop_last() =~= lines.subrange(0, to - 1));
    }
}

} // verus!
