use vstd::prelude::*;
use crate::rendering::stroke::Stroke;

verus! {

/// Three corners and the stroke that the face between them is drawn with.
/// The order of the corners is the winding of the face, from which its
/// facing and its shade are taken. What a corner is (`V`) is left to the
/// caller: this crate carries corners and never reads them.
#[derive(Debug, Copy, Clone, PartialEq)]
pub struct Triangle<V> {
    pub verts: [V; 3],
    pub stroke: Stroke,
}

impl<V: Copy> Triangle<V> {
    pub fn from_vertexes(p0: V, p1: V, p2: V, s: Stroke) -> (t: Triangle<V>)
        ensures
            t.verts@ == seq![p0, p1, p2],
            t.stroke == s,
    {
        let t = Triangle { verts: [p0, p1, p2], stroke: s };
        assert(t.verts@ =~= seq![p0, p1, p2]);
        t
    }

    pub fn from_array(p: [V; 3], s: Stroke) -> (t: Triangle<V>)
        ensures
            t.verts == p,
            t.stroke == s,
    {
        Triangle { verts: p, stroke: s }
    }

    /// The same face drawn with `stroke`.
    pub fn with_stroke(&self, stroke: Stroke) -> (t: Triangle<V>)
        ensures
            t.verts == self.verts,
            t.stroke == stroke,
    {
        Triangle { verts: self.verts, stroke }
    }

    /// Whether `out` is `self` with `f` applied to every corner: each corner
    /// of `out` is a result of `f` on the corner of `self` at the same
    /// place, and the stroke is the same.
    pub open spec fn is_mapped_by<F: Fn(V) -> V>(self, f: &F, out: Triangle<V>) -> bool {
        &&& out.stroke == self.stroke
        &&& f.ensures((self.verts[0],), out.verts[0])
        &&& f.ensures((self.verts[1],), out.verts[1])
        &&& f.ensures((self.verts[2],), out.verts[2])
    }

    /// Whether `f` may be called on every corner.
    pub open spec fn admits<F: Fn(V) -> V>(self, f: &F) -> bool {
        &&& f.requires((self.verts[0],))
        &&& f.requires((self.verts[1],))
        &&& f.requires((self.verts[2],))
    }

    /// The face with `f` applied to every corner. Every transform of a face
    /// is of this form: it treats the three corners alike, keeps their
    /// order and keeps the stroke.
    pub fn transform<F: Fn(V) -> V>(&self, f: &F) -> (out: Triangle<V>)
        requires
            self.admits(f),
        ensures
            self.is_mapped_by(f, out),
    {
        let p0 = f(self.verts[0]);
        let p1 = f(self.verts[1]);
        let p2 = f(self.verts[2]);
        Triangle { verts: [p0, p1, p2], stroke: self.stroke }
    }
}

/// A transform that gives every corner back as it is leaves the corners of
/// a face as they are.
pub proof fn lemma_identity_transform<V: Copy, F: Fn(V) -> V>(
    t: Triangle<V>,
    f: &F,
    out: Triangle<V>,
)
    requires
        t.is_mapped_by(f, out),
        forall|v: V, r: V| f.ensures((v,), r) ==> r == v,
    ensures
        out.verts@ == t.verts@,
        out.stroke == t.stroke,
{
    assert(out.verts@ =~= t.verts@);
}

/// A transform followed by one that undoes it on every corner leaves the
/// corners of a face as they are: transforming adds nothing of its own.
pub proof fn lemma_undone_transform<V: Copy, F: Fn(V) -> V, G: Fn(V) -> V>(
    t: Triangle<V>,
    f: &F,
    mid: Triangle<V>,
    g: &G,
    out: Triangle<V>,
)
    requires
        t.is_mapped_by(f, mid),
        mid.is_mapped_by(g, out),
        forall|v: V, m: V, r: V| f.ensures((v,), m) && g.ensures((m,), r) ==> r == v,
    ensures
        out.verts@ == t.verts@,
        out.stroke == t.stroke,
{
    assert(out.verts@ =~= t.verts@);
}

} // verus!
