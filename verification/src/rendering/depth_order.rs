use vstd::prelude::*;
use vstd::set_lib::{lemma_int_range, lemma_subset_equality, set_int_range};
use crate::rendering::rasterizer::ScreenTriangle;

verus! {

/// Whether the triangle at index `i` of `tris` is drawn before the one at
/// index `j`: it has the lower depth key, or the same key and the earlier
/// place.
pub open spec fn precedes(tris: Seq<ScreenTriangle>, i: int, j: int) -> bool {
    tris[i].depth < tris[j].depth || (tris[i].depth == tris[j].depth && i < j)
}

/// Whether `order` lists indices of `tris` between `lo` and `hi`, one for
/// each, such that each is drawn before all that follow it. As `precedes`
/// never holds of an index and itself, no index is listed twice.
pub open spec fn is_draw_order_of(tris: Seq<ScreenTriangle>, order: Seq<int>, lo: int, hi: int) -> bool {
    &&& order.len() == hi - lo
    &&& forall|k: int| 0 <= k < order.len() ==> lo <= #[trigger] order[k] < hi
    &&& forall|a: int, b: int|
        0 <= a < b < order.len() ==> precedes(tris, #[trigger] order[a], #[trigger] order[b])
}

/// Whether `order` is the draw order of the whole of `tris`.
pub open spec fn is_draw_order(tris: Seq<ScreenTriangle>, order: Seq<int>) -> bool {
    is_draw_order_of(tris, order, 0, tris.len() as int)
}

/// The triangles of `tris` that `order` names, in that order.
pub open spec fn picks(tris: Seq<ScreenTriangle>, order: Seq<int>) -> Seq<ScreenTriangle> {
    Seq::new(order.len(), |k: int| tris[order[k]])
}

/// Whether `sorted` is `tris` in draw order: ascending by depth key, and
/// among equal keys in the order in which `tris` holds them.
pub open spec fn is_depth_sorted(tris: Seq<ScreenTriangle>, sorted: Seq<ScreenTriangle>) -> bool {
    exists|order: Seq<int>| is_draw_order(tris, order) && sorted == picks(tris, order)
}

/// The depth key of the single-precision number with the bit pattern
/// `bits`: its magnitude field, negated where the sign bit is set. Keys are
/// ordered as the numbers are, both zeros share the key zero, and a pattern
/// that stands for no number counts as zero.
pub open spec fn spec_depth_key(bits: u32) -> int {
    let magnitude = bits % 0x8000_0000;
    if magnitude > 0x7f80_0000 {
        0
    } else if bits >= 0x8000_0000 {
        -magnitude
    } else {
        magnitude as int
    }
}

pub fn depth_key(bits: u32) -> (key: i64)
    ensures
        key == spec_depth_key(bits),
{
    let negative = bits >= 0x8000_0000;
    let magnitude: u32 = if negative {
        bits - 0x8000_0000
    } else {
        bits
    };
    if magnitude > 0x7f80_0000 {
        0
    } else if negative {
        -(magnitude as i64)
    } else {
        magnitude as i64
    }
}

fn merge_runs(
    tris: &Vec<ScreenTriangle>,
    left: Vec<ScreenTriangle>,
    Ghost(left_order): Ghost<Seq<int>>,
    right: Vec<ScreenTriangle>,
    Ghost(right_order): Ghost<Seq<int>>,
    Ghost(lo): Ghost<int>,
    Ghost(mid): Ghost<int>,
    Ghost(hi): Ghost<int>,
) -> (r: (Vec<ScreenTriangle>, Ghost<Seq<int>>))
    requires
        0 <= lo <= mid <= hi <= tris@.len(),
        is_draw_order_of(tris@, left_order, lo, mid),
        is_draw_order_of(tris@, right_order, mid, hi),
        left@ == picks(tris@, left_order),
        right@ == picks(tris@, right_order),
    ensures
        is_draw_order_of(tris@, r.1@, lo, hi),
        r.0@ == picks(tris@, r.1@),
{
    let mut out: Vec<ScreenTriangle> = Vec::new();
    let ghost mut order: Seq<int> = Seq::empty();
    let mut i: usize = 0;
    let mut j: usize = 0;
    while i < left.len() || j < right.len()
        invariant
            0 <= lo <= mid <= hi <= tris@.len(),
            is_draw_order_of(tris@, left_order, lo, mid),
            is_draw_order_of(tris@, right_order, mid, hi),
            left@ == picks(tris@, left_order),
            right@ == picks(tris@, right_order),
            i <= left.len(),
            j <= right.len(),
            order.len() == i + j,
            out@ == picks(tris@, order),
            forall|k: int| 0 <= k < order.len() ==> lo <= #[trigger] order[k] < hi,
            forall|a: int, b: int|
                0 <= a < b < order.len() ==> precedes(tris@, #[trigger] order[a], #[trigger] order[b]),
            forall|k: int|
                0 <= k < order.len() && i < left.len() ==> precedes(
                    tris@,
                    #[trigger] order[k],
                    left_order[i as int],
                ),
            forall|k: int|
                0 <= k < order.len() && j < right.len() ==> precedes(
                    tris@,
                    #[trigger] order[k],
                    right_order[j as int],
                ),
        decreases left.len() - i + right.len() - j,
    {
        let take_left = if i >= left.len() {
            false
        } else if j >= right.len() {
            true
        } else {
            left[i].depth <= right[j].depth
        };
        let ghost before = order;
        if take_left {
            proof {
                let x = left_order[i as int];
                order = before.push(x);
                assert(left@[i as int] == tris@[x]);
                if j < right.len() {
                    assert(right@[j as int] == tris@[right_order[j as int]]);
                    assert(precedes(tris@, x, right_order[j as int]));
                }
                assert(picks(tris@, order) =~= picks(tris@, before).push(tris@[x]));
            }
            out.push(left[i]);
            i += 1;
        } else {
            proof {
                let x = right_order[j as int];
                order = before.push(x);
                assert(right@[j as int] == tris@[x]);
                if i < left.len() {
                    assert(left@[i as int] == tris@[left_order[i as int]]);
                    assert(precedes(tris@, x, left_order[i as int]));
                }
                assert(picks(tris@, order) =~= picks(tris@, before).push(tris@[x]));
            }
            out.push(right[j]);
            j += 1;
        }
    }
    (out, Ghost(order))
}

fn sort_range(tris: &Vec<ScreenTriangle>, lo: usize, hi: usize) -> (r: (
    Vec<ScreenTriangle>,
    Ghost<Seq<int>>,
))
    requires
        lo <= hi <= tris@.len(),
    ensures
        is_draw_order_of(tris@, r.1@, lo as int, hi as int),
        r.0@ == picks(tris@, r.1@),
    decreases hi - lo,
{
    let mut out: Vec<ScreenTriangle> = Vec::new();
    if hi - lo == 0 {
        let ghost order: Seq<int> = Seq::empty();
        assert(out@ =~= picks(tris@, order));
        return (out, Ghost(order));
    }
    if hi - lo == 1 {
        out.push(tris[lo]);
        let ghost order: Seq<int> = seq![lo as int];
        assert(out@ =~= picks(tris@, order));
        return (out, Ghost(order));
    }
    let mid: usize = lo + (hi - lo) / 2;
    let (left, left_order) = sort_range(tris, lo, mid);
    let (right, right_order) = sort_range(tris, mid, hi);
    merge_runs(
        tris,
        left,
        left_order,
        right,
        right_order,
        Ghost(lo as int),
        Ghost(mid as int),
        Ghost(hi as int),
    )
}

/// Sorts `tris` into draw order by merging sorted halves.
pub fn sort_by_depth(tris: &Vec<ScreenTriangle>) -> (sorted: Vec<ScreenTriangle>)
    ensures
        is_depth_sorted(tris@, sorted@),
{
    let (sorted, order) = sort_range(tris, 0, tris.len());
    assert(is_draw_order(tris@, order@));
    sorted
}

/// Triangles in draw order have ascending depth keys.
pub proof fn lemma_depth_sorted_ascending(tris: Seq<ScreenTriangle>, sorted: Seq<ScreenTriangle>)
    requires
        is_depth_sorted(tris, sorted),
    ensures
        sorted.len() == tris.len(),
        forall|a: int, b: int|
            0 <= a < b < sorted.len() ==> (#[trigger] sorted[a]).depth <= (#[trigger] sorted[b]).depth,
{
    let order = choose|order: Seq<int>| is_draw_order(tris, order) && sorted == picks(tris, order);
    assert forall|a: int, b: int| 0 <= a < b < sorted.len() implies (#[trigger] sorted[a]).depth <= (
    #[trigger] sorted[b]).depth by {
        assert(precedes(tris, order[a], order[b]));
    }
}

/// A draw order is a permutation: it names every triangle, and none twice.
pub proof fn lemma_draw_order_is_permutation(tris: Seq<ScreenTriangle>, order: Seq<int>)
    requires
        is_draw_order(tris, order),
    ensures
        order.no_duplicates(),
        forall|i: int| 0 <= i < tris.len() ==> order.contains(i),
{
    let n = tris.len() as int;
    assert forall|a: int, b: int| 0 <= a < order.len() && 0 <= b < order.len() && a != b implies order[a]
        != order[b] by {
        if a < b {
            assert(precedes(tris, order[a], order[b]));
        } else {
            assert(precedes(tris, order[b], order[a]));
        }
    }
    order.unique_seq_to_set();
    lemma_int_range(0, n);
    vstd::seq_lib::seq_to_set_is_finite(order);
    assert(order.to_set().subset_of(set_int_range(0, n))) by {
        assert forall|i: int| order.to_set().contains(i) implies set_int_range(0, n).contains(i) by {
            let k = choose|k: int| 0 <= k < order.len() && order[k] == i;
            assert(0 <= order[k] < n);
        }
    }
    lemma_subset_equality(order.to_set(), set_int_range(0, n));
    assert forall|i: int| 0 <= i < n implies order.contains(i) by {
        assert(set_int_range(0, n).contains(i));
        assert(order.to_set().contains(i));
    }
}

/// Two draw orders of the same triangles agree on their first `k` places.
proof fn lemma_draw_orders_agree(tris: Seq<ScreenTriangle>, first: Seq<int>, second: Seq<int>, k: int)
    requires
        is_draw_order(tris, first),
        is_draw_order(tris, second),
        0 <= k <= tris.len(),
    ensures
        forall|m: int| 0 <= m < k ==> first[m] == second[m],
    decreases k,
{
    if k > 0 {
        lemma_draw_orders_agree(tris, first, second, k - 1);
        let i = first[k - 1];
        let j = second[k - 1];
        if i != j {
            lemma_draw_order_is_permutation(tris, first);
            lemma_draw_order_is_permutation(tris, second);
            // Each of the two is named later on by the other order.
            assert(0 <= i < tris.len() && 0 <= j < tris.len());
            assert(first.contains(j) && second.contains(i));
            let at_j = choose|m: int| 0 <= m < first.len() && first[m] == j;
            let at_i = choose|m: int| 0 <= m < second.len() && second[m] == i;
            assert(at_j > k - 1) by {
                if at_j < k - 1 {
                    assert(first[at_j] == second[at_j]);
                    assert(second[at_j] == second[k - 1]);
                }
            }
            assert(at_i > k - 1) by {
                if at_i < k - 1 {
                    assert(first[at_i] == second[at_i]);
                    assert(first[at_i] == first[k - 1]);
                }
            }
            assert(precedes(tris, first[k - 1], first[at_j]));
            assert(precedes(tris, second[k - 1], second[at_i]));
        }
    }
}

/// The draw order of a sequence of triangles is unique, and so is the
/// sequence in draw order.
pub proof fn lemma_depth_sorted_unique(
    tris: Seq<ScreenTriangle>,
    first: Seq<ScreenTriangle>,
    second: Seq<ScreenTriangle>,
)
    requires
        is_depth_sorted(tris, first),
        is_depth_sorted(tris, second),
    ensures
        first == second,
{
    let o1 = choose|order: Seq<int>| is_draw_order(tris, order) && first == picks(tris, order);
    let o2 = choose|order: Seq<int>| is_draw_order(tris, order) && second == picks(tris, order);
    lemma_draw_orders_agree(tris, o1, o2, tris.len() as int);
    assert(o1 =~= o2);
}

/// Triangles with equal depth keys keep their order: of two such, the one
/// that comes first in `tris` is drawn first.
pub proof fn lemma_draw_order_is_stable(tris: Seq<ScreenTriangle>, order: Seq<int>, a: int, b: int)
    requires
        is_draw_order(tris, order),
        0 <= a < order.len(),
        0 <= b < order.len(),
        tris[order[a]].depth == tris[order[b]].depth,
        order[a] < order[b],
    ensures
        a < b,
{
    if b < a {
        assert(precedes(tris, order[b], order[a]));
    }
}

} // verus!
