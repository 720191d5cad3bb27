use vstd::prelude::*;
use crate::math::triangle::{lemma_identity_transform, lemma_undone_transform, Triangle};

verus! {

/// Faces in a fixed order. A mesh is a snapshot: every operation gives a new
/// mesh and leaves its receiver as it is.
#[derive(Debug, Clone, PartialEq)]
pub struct Mesh<V> {
    pub tris: Vec<Triangle<V>>,
}

impl<V: Copy> Mesh<V> {
    pub fn new(tris: Vec<Triangle<V>>) -> (m: Mesh<V>)
        ensures
            m.tris == tris,
    {
        Mesh { tris }
    }

    /// Whether `f` may be called on every corner of every face.
    pub open spec fn admits<F: Fn(V) -> V>(&self, f: &F) -> bool {
        forall|i: int| 0 <= i < self.tris@.len() ==> (#[trigger] self.tris@[i]).admits(f)
    }

    /// Whether `out` is this mesh with `f` applied to every corner of every
    /// face: as many faces, each the face of this mesh at the same place
    /// with `f` applied to its corners.
    pub open spec fn is_mapped_by<F: Fn(V) -> V>(&self, f: &F, out: Mesh<V>) -> bool {
        &&& out.tris@.len() == self.tris@.len()
        &&& forall|i: int|
            0 <= i < self.tris@.len() ==> self.tris@[i].is_mapped_by(f, #[trigger] out.tris@[i])
    }

    /// The mesh with `f` applied to every corner of every face.
    pub fn transform<F: Fn(V) -> V>(&self, f: &F) -> (out: Mesh<V>)
        requires
            self.admits(f),
        ensures
            self.is_mapped_by(f, out),
    {
        let mut tris: Vec<Triangle<V>> = Vec::new();
        let n = self.tris.len();
        let mut i: usize = 0;
        while i < n
            invariant
                i <= n,
                n == self.tris@.len(),
                self.admits(f),
                tris@.len() == i,
                forall|k: int| 0 <= k < i ==> self.tris@[k].is_mapped_by(f, #[trigger] tris@[k]),
            decreases n - i,
        {
            let t = self.tris[i].transform(f);
            tris.push(t);
            i += 1;
        }
        Mesh { tris }
    }
}

/// The faces of `meshes` as one sequence: mesh after mesh, the faces of
/// each in their order.
pub open spec fn pooled<V>(meshes: Seq<Mesh<V>>) -> Seq<Triangle<V>> {
    meshes.map_values(|m: Mesh<V>| m.tris@).flatten()
}

/// Gathers the faces of `meshes` into one sequence.
pub fn pool<V: Copy>(meshes: &Vec<Mesh<V>>) -> (out: Vec<Triangle<V>>)
    ensures
        out@ == pooled(meshes@),
{
    let mut out: Vec<Triangle<V>> = Vec::new();
    let n = meshes.len();
    let mut i: usize = 0;
    assert(pooled(meshes@.subrange(0, 0)) =~= Seq::<Triangle<V>>::empty());
    while i < n
        invariant
            i <= n,
            n == meshes@.len(),
            out@ == pooled(meshes@.subrange(0, i as int)),
        decreases n - i,
    {
        let tris = &meshes[i].tris;
        let m = tris.len();
        let ghost before = out@;
        let mut j: usize = 0;
        while j < m
            invariant
                j <= m,
                m == tris@.len(),
                out@ == before + tris@.subrange(0, j as int),
            decreases m - j,
        {
            out.push(tris[j]);
            assert(tris@.subrange(0, j as int + 1) =~= tris@.subrange(0, j as int).push(
                tris@[j as int],
            ));
            j += 1;
        }
        proof {
            let done = meshes@.subrange(0, i as int).map_values(|m: Mesh<V>| m.tris@);
            let next = meshes@.subrange(0, i as int + 1).map_values(|m: Mesh<V>| m.tris@);
            assert(next =~= done.push(tris@));
            done.lemma_flatten_push(tris@);
            assert(tris@.subrange(0, m as int) =~= tris@);
        }
        i += 1;
    }
    assert(meshes@.subrange(0, n as int) =~= meshes@);
    out
}

/// A transform that gives every corner back as it is leaves the corners of
/// every face of a mesh as they are.
pub proof fn lemma_identity_transform_of_mesh<V: Copy, F: Fn(V) -> V>(
    m: Mesh<V>,
    f: &F,
    out: Mesh<V>,
    i: int,
)
    requires
        m.is_mapped_by(f, out),
        forall|v: V, r: V| f.ensures((v,), r) ==> r == v,
        0 <= i < m.tris@.len(),
    ensures
        out.tris@[i].verts@ == m.tris@[i].verts@,
        out.tris@[i].stroke == m.tris@[i].stroke,
{
    lemma_identity_transform(m.tris@[i], f, out.tris@[i]);
}

/// A transform followed by one that undoes it on every corner leaves the
/// corners of every face of a mesh as they are.
pub proof fn lemma_undone_transform_of_mesh<V: Copy, F: Fn(V) -> V, G: Fn(V) -> V>(
    m: Mesh<V>,
    f: &F,
    mid: Mesh<V>,
    g: &G,
    out: Mesh<V>,
    i: int,
)
    requires
        m.is_mapped_by(f, mid),
        mid.is_mapped_by(g, out),
        forall|v: V, w: V, r: V| f.ensures((v,), w) && g.ensures((w,), r) ==> r == v,
        0 <= i < m.tris@.len(),
    ensures
        out.tris@.len() == m.tris@.len(),
        out.tris@[i].verts@ == m.tris@[i].verts@,
        out.tris@[i].stroke == m.tris@[i].stroke,
{
    lemma_undone_transform(m.tris@[i], f, mid.tris@[i], g, out.tris@[i]);
}

} // verus!
