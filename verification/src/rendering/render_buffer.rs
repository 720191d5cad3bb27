use vstd::prelude::*;
use crate::interface::input::ActiveCommand;
use crate::rendering::depth_order::{is_depth_sorted, sort_by_depth};
use crate::rendering::object::{advanced, contributions, remaining, Contribution, Object};
use crate::rendering::rasterizer::{draw_triangle, ScreenTriangle};
use crate::rendering::screen_buffer::ScreenBuffer;
use crate::rendering::stroke::Stroke;

verus! {

/// A command was addressed to an object that the scene does not hold.
#[derive(Debug, Clone, Copy, PartialEq, Eq, Structural)]
pub struct NoSuchObject {
    /// The index that was asked for.
    pub index: usize,
    /// The number of objects in the scene.
    pub count: usize,
}

/// The place in `tris` of the last triangle that paints the cell at column
/// `x`, row `y` of a grid of `width` by `height` cells; `-1` where none
/// does.
pub open spec fn top_painter(
    tris: Seq<ScreenTriangle>,
    width: int,
    height: int,
    x: int,
    y: int,
) -> int
    decreases tris.len(),
{
    if tris.len() == 0 {
        -1
    } else if tris.last().paints(width, height, x, y) {
        tris.len() - 1
    } else {
        top_painter(tris.drop_last(), width, height, x, y)
    }
}

/// What the cell at column `x`, row `y` shows once the triangles of `tris`
/// have been drawn over `before` one after the other: the stroke of the
/// last one that paints the cell, or what the cell showed before.
pub open spec fn drawn_pixel(before: ScreenBuffer, tris: Seq<ScreenTriangle>, x: int, y: int) -> Stroke {
    let k = top_painter(tris, before.width as int, before.height as int, x, y);
    if k >= 0 {
        tris[k].stroke
    } else {
        before.pixel(x, y)
    }
}

/// Whether `after` is `before` with the triangles of `tris` drawn over it
/// one after the other.
pub open spec fn is_drawn_over(before: ScreenBuffer, after: ScreenBuffer, tris: Seq<ScreenTriangle>) -> bool {
    &&& after.wf()
    &&& after.width == before.width
    &&& after.height == before.height
    &&& forall|x: int, y: int|
        before.in_grid(x, y) ==> #[trigger] after.pixel(x, y) == drawn_pixel(before, tris, x, y)
}

/// Draws the triangles of `tris` into `buffer` one after the other, so that
/// a later one covers an earlier one where both paint.
pub fn draw_in_order(buffer: &mut ScreenBuffer, tris: &Vec<ScreenTriangle>)
    requires
        old(buffer).wf(),
    ensures
        is_drawn_over(*old(buffer), *final(buffer), tris@),
{
    let n = tris.len();
    let mut i: usize = 0;
    while i < n
        invariant
            i <= n,
            n == tris@.len(),
            old(buffer).wf(),
            is_drawn_over(*old(buffer), *buffer, tris@.subrange(0, i as int)),
        decreases n - i,
    {
        let ghost mid = *buffer;
        draw_triangle(buffer, &tris[i]);
        proof {
            let done = tris@.subrange(0, i as int);
            let next = tris@.subrange(0, i as int + 1);
            assert(next.drop_last() =~= done);
            assert(next.last() == tris@[i as int]);
            assert forall|x: int, y: int| old(buffer).in_grid(x, y) implies #[trigger] buffer.pixel(
                x,
                y,
            ) == drawn_pixel(*old(buffer), next, x, y) by {
                assert(mid.pixel(x, y) == drawn_pixel(*old(buffer), done, x, y));
                if !next.last().paints(mid.width as int, mid.height as int, x, y) {
                    let k = top_painter(done, mid.width as int, mid.height as int, x, y);
                    lemma_top_painter_in_range(done, mid.width as int, mid.height as int, x, y);
                    if k >= 0 {
                        assert(next[k] == done[k]);
                    }
                }
            }
        }
        i += 1;
    }
    assert(tris@.subrange(0, n as int) =~= tris@);
}

/// The last painter of a cell, where there is one, is a place in the
/// sequence, and the triangle at that place paints the cell.
pub proof fn lemma_top_painter_in_range(
    tris: Seq<ScreenTriangle>,
    width: int,
    height: int,
    x: int,
    y: int,
)
    ensures
        -1 <= top_painter(tris, width, height, x, y) < tris.len(),
        top_painter(tris, width, height, x, y) >= 0 ==> tris[top_painter(
            tris,
            width,
            height,
            x,
            y,
        )].paints(width, height, x, y),
        top_painter(tris, width, height, x, y) == -1 ==> forall|k: int|
            0 <= k < tris.len() ==> !(#[trigger] tris[k]).paints(width, height, x, y),
    decreases tris.len(),
{
    if tris.len() > 0 && !tris.last().paints(width, height, x, y) {
        lemma_top_painter_in_range(tris.drop_last(), width, height, x, y);
        if top_painter(tris, width, height, x, y) == -1 {
            assert forall|k: int| 0 <= k < tris.len() implies !(#[trigger] tris[k]).paints(
                width,
                height,
                x,
                y,
            ) by {
                if k < tris.len() - 1 {
                    assert(tris.drop_last()[k] == tris[k]);
                }
            }
        }
    }
}

/// The scene: every object that is alive in the current session.
pub struct RenderBuffer<B, P> {
    pub objs: Vec<Object<B, P>>,
}

impl<B, P: Copy> RenderBuffer<B, P> {
    /// An empty scene.
    pub fn new() -> (scene: RenderBuffer<B, P>)
        ensures
            scene.objs@.len() == 0,
    {
        RenderBuffer { objs: Vec::new() }
    }

    /// Puts `obj` into the scene, behind the objects that are there.
    pub fn add_mesh_worldspace(&mut self, obj: Object<B, P>)
        ensures
            final(self).objs@ == old(self).objs@.push(obj),
    {
        self.objs.push(obj);
    }

    /// Puts `cmd` at the end of the queue of the object at `obj_id`. Where
    /// the scene holds no such object the call is refused and nothing
    /// changes.
    pub fn add_command_to_obj(&mut self, cmd: ActiveCommand<P>, obj_id: usize) -> (r: Result<
        (),
        NoSuchObject,
    >)
        ensures
            final(self).objs@.len() == old(self).objs@.len(),
            forall|k: int|
                0 <= k < old(self).objs@.len() && k != obj_id ==> #[trigger] final(self).objs@[k]
                    == old(self).objs@[k],
            obj_id < old(self).objs@.len() ==> {
                let before = old(self).objs@[obj_id as int];
                let after = final(self).objs@[obj_id as int];
                &&& r is Ok
                &&& after.body == before.body
                &&& after.active_commands@ == before.active_commands@.push(cmd)
            },
            obj_id >= old(self).objs@.len() ==> r == Err::<(), NoSuchObject>(
                (NoSuchObject { index: obj_id, count: old(self).objs@.len() as usize }),
            ),
    {
        let count = self.objs.len();
        if obj_id >= count {
            return Err(NoSuchObject { index: obj_id, count });
        }
        self.objs[obj_id].add_command(cmd);
        Ok(())
    }

    /// Empties the scene.
    pub fn clear(&mut self)
        ensures
            final(self).objs@.len() == 0,
    {
        self.objs.clear();
    }

    /// The triangles of `tris` in draw order: ascending by depth key, those
    /// with equal keys in the order in which they came.
    pub fn order_tris_by_z(tris: Vec<ScreenTriangle>) -> (sorted: Vec<ScreenTriangle>)
        ensures
            is_depth_sorted(tris@, sorted@),
    {
        sort_by_depth(&tris)
    }

    /// Draws the triangles of a frame into `buffer` in draw order.
    pub fn write_meshes_to_buffer(tris: Vec<ScreenTriangle>, buffer: &mut ScreenBuffer)
        requires
            old(buffer).wf(),
        ensures
            exists|drawn: Seq<ScreenTriangle>|
                is_depth_sorted(tris@, drawn) && is_drawn_over(*old(buffer), *final(buffer), drawn),
    {
        let sorted = sort_by_depth(&tris);
        draw_in_order(buffer, &sorted);
    }

    /// Moves the clock of every command in the scene on by `time`
    /// nanoseconds.
    pub fn pass_obj_time(&mut self, time: u128)
        ensures
            final(self).objs@.len() == old(self).objs@.len(),
            forall|k: int|
                0 <= k < old(self).objs@.len() ==> {
                    &&& (#[trigger] final(self).objs@[k]).body == old(self).objs@[k].body
                    &&& final(self).objs@[k].active_commands@ == advanced(
                        old(self).objs@[k].active_commands@,
                        time,
                    )
                },
    {
        let n = self.objs.len();
        let mut i: usize = 0;
        while i < n
            invariant
                i <= n,
                n == old(self).objs@.len(),
                self.objs@.len() == n,
                forall|k: int|
                    0 <= k < i ==> {
                        &&& (#[trigger] self.objs@[k]).body == old(self).objs@[k].body
                        &&& self.objs@[k].active_commands@ == advanced(
                            old(self).objs@[k].active_commands@,
                            time,
                        )
                    },
                forall|k: int| i <= k < n ==> self.objs@[k] == old(self).objs@[k],
            decreases n - i,
        {
            self.objs[i].pass_time(time);
            i += 1;
        }
    }

    /// Resolves every object's queue for one frame. The result holds, for
    /// each object in scene order, what each of its commands adds; the
    /// commands that are complete leave their queues.
    pub fn resolve_objects(&mut self) -> (out: Vec<Vec<Contribution<P>>>)
        ensures
            final(self).objs@.len() == old(self).objs@.len(),
            out@.len() == old(self).objs@.len(),
            forall|k: int|
                0 <= k < old(self).objs@.len() ==> {
                    &&& (#[trigger] out@[k])@ == contributions(old(self).objs@[k].active_commands@)
                    &&& final(self).objs@[k].body == old(self).objs@[k].body
                    &&& final(self).objs@[k].active_commands@ == remaining(
                        old(self).objs@[k].active_commands@,
                    )
                },
    {
        let n = self.objs.len();
        let mut out: Vec<Vec<Contribution<P>>> = Vec::new();
        let mut i: usize = 0;
        while i < n
            invariant
                i <= n,
                n == old(self).objs@.len(),
                self.objs@.len() == n,
                out@.len() == i,
                forall|k: int|
                    0 <= k < i ==> {
                        &&& (#[trigger] out@[k])@ == contributions(
                            old(self).objs@[k].active_commands@,
                        )
                        &&& self.objs@[k].body == old(self).objs@[k].body
                        &&& self.objs@[k].active_commands@ == remaining(
                            old(self).objs@[k].active_commands@,
                        )
                    },
                forall|k: int| i <= k < n ==> self.objs@[k] == old(self).objs@[k],
            decreases n - i,
        {
            let resolved = self.objs[i].apply_commands();
            out.push(resolved);
            i += 1;
        }
        out
    }
}

} // verus!
