//! Transforming user UI definition into flat working copy

use vstd::prelude::*;
use crate::widget_def::Link;
use crate::widget_def::Widget;

verus! {

/// Deepest nesting of widgets the transformation follows
pub const MAX_TREE_DEPTH: usize = 64usize;

/// Number of widgets in the tree of `w`, following `d` levels of nesting
pub open spec fn tree_count(w: Widget, d: nat) -> nat
    decreases d, w.children@.len() + 1,
{
    1 + children_count(w, w.children@.len() as int, d)
}

/// Number of widgets in the trees of the first `k` children of `w`, following `d` levels
pub open spec fn children_count(w: Widget, k: int, d: nat) -> nat
    decreases d, k,
{
    if k <= 0 || k > w.children@.len() || d == 0 {
        0
    } else {
        children_count(w, k - 1, d) + tree_count(w.children@[k - 1], (d - 1) as nat)
    }
}

/// Counts the widgets of a tree, nested at most `d` levels deep
fn count_depth(wgt: &Widget, d: usize) -> (n: usize)
    ensures
        tree_count(*wgt, d as nat) <= usize::MAX ==> n == tree_count(*wgt, d as nat),
    decreases d,
{
    let mut n: usize = 1;
    if d > 0 {
        let mut i: usize = 0;
        while i < wgt.children.len()
            invariant
                0 < d,
                i <= wgt.children@.len(),
                children_count(*wgt, i as int, d as nat) + 1 <= usize::MAX ==> n == 1 + children_count(*wgt, i as int, d as nat),
                n >= 1,
            decreases wgt.children@.len() - i,
        {
            let c = count_depth(&wgt.children[i], d - 1);
            n = n.saturating_add(c);
            i = i + 1;
        }
    }
    n
}

/// Counts total number of widgets in tree-like definition
pub fn tree_wgt_count(wgt: &Widget) -> (n: usize)
    ensures
        tree_count(*wgt, MAX_TREE_DEPTH as nat) <= usize::MAX ==> n == tree_count(*wgt, MAX_TREE_DEPTH as nat),
{
    count_depth(wgt, MAX_TREE_DEPTH)
}

/// Links of entry `j` of a flat widget array are consistent: its own index is `j`, and its
/// children follow it and name it as their parent
pub open spec fn link_wf(wgts: Seq<Widget>, j: int) -> bool {
    let l = wgts[j].link;
    &&& l.own_idx == j
    &&& l.children_cnt > 0 ==> {
        &&& j < l.children_idx
        &&& l.children_idx + l.children_cnt <= wgts.len()
        &&& forall|c: int|
            l.children_idx <= c < l.children_idx + l.children_cnt ==> #[trigger] wgts[c].link.parent_idx == j
    }
}

/// Flat widget array as `tree_to_array` lays it out: the window at index 0 is its own parent,
/// every other widget's parent comes before it, and all links are consistent
pub open spec fn wgts_wf(wgts: Seq<Widget>) -> bool {
    &&& wgts.len() > 0
    &&& wgts.len() <= 65536
    &&& wgts[0].link.parent_idx == 0
    &&& forall|j: int| 0 <= j < wgts.len() ==> #[trigger] link_wf(wgts, j)
    &&& forall|j: int| 0 < j < wgts.len() ==> #[trigger] wgts[j].link.parent_idx < j
}

/// The children of entry `j` lie in `lo..hi`
pub open spec fn children_within(wgts: Seq<Widget>, j: int, lo: int, hi: int) -> bool {
    wgts[j].link.children_cnt > 0 ==> lo <= wgts[j].link.children_idx && wgts[j].link.children_idx + wgts[j].link.children_cnt <= hi
}

/// Entries placed by one step of the transformation: the widget's own slot and the range of its descendants
pub open spec fn placed(out_idx: int, lo: int, hi: int, j: int) -> bool {
    j == out_idx || (lo <= j < hi)
}

/// The entry has the widget's id, coordinates, size and properties, and no children of its own
pub open spec fn holds_widget(entry: Widget, w: Widget) -> bool {
    &&& entry.id == w.id
    &&& entry.coord == w.coord
    &&& entry.size == w.size
    &&& entry.prop == w.prop
    &&& entry.children@.len() == 0
}

/// Entry `j` of `out` holds the widget `w`, and its children, `d` levels down, are laid out in
/// the same way, in their order, in the entry's children range; all entries below `j` lie in
/// `lo..hi`
pub open spec fn laid_out(out: Seq<Widget>, j: int, w: Widget, d: nat, lo: int, hi: int) -> bool
    decreases d, 0nat, 0nat,
{
    &&& 0 <= j < out.len()
    &&& holds_widget(out[j], w)
    &&& if d == 0 || w.children@.len() == 0 {
        out[j].link.children_cnt == 0
    } else {
        &&& out[j].link.children_cnt == w.children@.len()
        &&& lo <= out[j].link.children_idx
        &&& out[j].link.children_idx + out[j].link.children_cnt <= hi
        &&& children_laid_out(out, out[j].link.children_idx as int, w, (d - 1) as nat, lo, hi, w.children@.len())
    }
}

/// The first `k` children of `w` are laid out from entry `c` on, `d` levels down
pub open spec fn children_laid_out(out: Seq<Widget>, c: int, w: Widget, d: nat, lo: int, hi: int, k: nat) -> bool
    decreases d, 1nat, k,
{
    if k == 0 || k > w.children@.len() {
        k == 0
    } else {
        &&& children_laid_out(out, c, w, d, lo, hi, (k - 1) as nat)
        &&& laid_out(out, c + k - 1, w.children@[k - 1], d, lo, hi)
    }
}

/// A layout stays when the entries it rests on stay
proof fn lemma_laid_out_frame(out: Seq<Widget>, out2: Seq<Widget>, j: int, w: Widget, d: nat, lo: int, hi: int)
    requires
        laid_out(out, j, w, d, lo, hi),
        out2.len() == out.len(),
        out2[j] == out[j],
        forall|p: int| lo <= p < hi && 0 <= p < out.len() ==> #[trigger] out2[p] == out[p],
    ensures
        laid_out(out2, j, w, d, lo, hi),
    decreases d, 0nat, 0nat,
{
    if d > 0 && w.children@.len() > 0 {
        lemma_children_laid_out_frame(out, out2, out[j].link.children_idx as int, w, (d - 1) as nat, lo, hi, w.children@.len());
    }
}

proof fn lemma_children_laid_out_frame(out: Seq<Widget>, out2: Seq<Widget>, c: int, w: Widget, d: nat, lo: int, hi: int, k: nat)
    requires
        children_laid_out(out, c, w, d, lo, hi, k),
        out2.len() == out.len(),
        forall|p: int| c <= p < c + k && 0 <= p < out.len() ==> #[trigger] out2[p] == out[p],
        forall|p: int| lo <= p < hi && 0 <= p < out.len() ==> #[trigger] out2[p] == out[p],
    ensures
        children_laid_out(out2, c, w, d, lo, hi, k),
    decreases d, 1nat, k,
{
    if k > 0 {
        assert(laid_out(out, c + k - 1, w.children@[k - 1], d, lo, hi));
        assert(out2[c + k - 1] == out[c + k - 1]);
        lemma_children_laid_out_frame(out, out2, c, w, d, lo, hi, (k - 1) as nat);
        lemma_laid_out_frame(out, out2, c + k - 1, w.children@[k - 1], d, lo, hi);
    }
}

/// A layout within a range is also within any wider range
proof fn lemma_laid_out_widen(out: Seq<Widget>, j: int, w: Widget, d: nat, lo: int, hi: int, lo2: int, hi2: int)
    requires
        laid_out(out, j, w, d, lo, hi),
        lo2 <= lo,
        hi <= hi2,
    ensures
        laid_out(out, j, w, d, lo2, hi2),
    decreases d, 0nat, 0nat,
{
    if d > 0 && w.children@.len() > 0 {
        lemma_children_laid_out_widen(out, out[j].link.children_idx as int, w, (d - 1) as nat, lo, hi, lo2, hi2, w.children@.len());
    }
}

proof fn lemma_children_laid_out_widen(out: Seq<Widget>, c: int, w: Widget, d: nat, lo: int, hi: int, lo2: int, hi2: int, k: nat)
    requires
        children_laid_out(out, c, w, d, lo, hi, k),
        lo2 <= lo,
        hi <= hi2,
    ensures
        children_laid_out(out, c, w, d, lo2, hi2, k),
    decreases d, 1nat, k,
{
    if k > 0 {
        lemma_children_laid_out_widen(out, c, w, d, lo, hi, lo2, hi2, (k - 1) as nat);
        lemma_laid_out_widen(out, c + k - 1, w.children@[k - 1], d, lo, hi, lo2, hi2);
    }
}

/// Places the tree of `wgt` into `out`: the widget at `out_idx`, its descendants from `next_free` on;
/// returns the first free index after them
fn do_transform(out: &mut Vec<Widget>, wgt: &Widget, out_idx: usize, parent_idx: usize, next_free: usize, d: usize) -> (nf: usize)
    requires
        out_idx < next_free,
        parent_idx < 65536,
        parent_idx <= out_idx,
        next_free + children_count(*wgt, wgt.children@.len() as int, d as nat) <= old(out)@.len(),
        old(out)@.len() <= 65536,
    ensures
        final(out)@.len() == old(out)@.len(),
        nf == next_free + children_count(*wgt, wgt.children@.len() as int, d as nat),
        forall|j: int| 0 <= j < old(out)@.len() && !placed(out_idx as int, next_free as int, nf as int, j)
            ==> #[trigger] final(out)@[j] == old(out)@[j],
        forall|j: int| placed(out_idx as int, next_free as int, nf as int, j) ==> #[trigger] link_wf(final(out)@, j),
        final(out)@[out_idx as int].link.parent_idx == parent_idx,
        forall|j: int| next_free <= j < nf ==> #[trigger] final(out)@[j].link.parent_idx < j,
        forall|j: int| placed(out_idx as int, next_free as int, nf as int, j) ==> #[trigger] children_within(final(out)@, j, next_free as int, nf as int),
        laid_out(final(out)@, out_idx as int, *wgt, d as nat, next_free as int, nf as int),
    decreases d, 0nat,
{
    let n_children = wgt.children.len();
    let has_children = n_children > 0 && d > 0;
    let mut w = *wgt;
    w.children = &[];
    w.link = Link {
        own_idx: out_idx as u16,
        parent_idx: parent_idx as u16,
        children_idx: if has_children { next_free as u16 } else { 0 },
        children_cnt: if has_children { n_children as u16 } else { 0 },
    };
    out.set(out_idx, w);
    if !has_children {
        return next_free;
    }
    proof {
        lemma_children_count_ge(*wgt, n_children as int, d as nat);
    }
    let mut nf = next_free + n_children;
    let mut i: usize = 0;
    while i < n_children
        invariant
            0 < d,
            n_children == wgt.children@.len(),
            0 < n_children,
            i <= n_children,
            out@.len() == old(out)@.len(),
            out@.len() <= 65536,
            out_idx < next_free,
            nf == next_free + n_children + (children_count(*wgt, i as int, d as nat) - i),
            children_count(*wgt, i as int, d as nat) >= i,
            next_free + children_count(*wgt, n_children as int, d as nat) <= out@.len(),
            forall|j: int| 0 <= j < out@.len() && !placed(out_idx as int, next_free as int, nf as int, j)
                ==> #[trigger] out@[j] == old(out)@[j],
            out@[out_idx as int] == w,
            forall|j: int| next_free + i <= j < next_free + n_children ==> #[trigger] out@[j] == old(out)@[j],
            forall|j: int| next_free <= j < next_free + i ==> #[trigger] link_wf(out@, j),
            forall|j: int| next_free + n_children <= j < nf ==> #[trigger] link_wf(out@, j),
            forall|j: int| next_free <= j < next_free + i ==> #[trigger] out@[j].link.parent_idx == out_idx,
            forall|j: int| next_free + n_children <= j < nf ==> #[trigger] out@[j].link.parent_idx < j,
            forall|j: int| next_free <= j < next_free + i ==> #[trigger] children_within(out@, j, next_free + n_children, nf as int),
            forall|j: int| next_free + n_children <= j < nf ==> #[trigger] children_within(out@, j, next_free + n_children, nf as int),
            children_laid_out(out@, next_free as int, *wgt, (d - 1) as nat, next_free + n_children, nf as int, i as nat),
        decreases n_children - i,
    {
        proof {
            lemma_children_count_step(*wgt, i as int + 1, d as nat);
            lemma_children_count_mono(*wgt, i as int + 1, n_children as int, d as nat);
        }
        let ghost before = out@;
        let child_nf = do_transform(out, &wgt.children[i], next_free + i, out_idx, nf, d - 1);
        proof {
            lemma_children_laid_out_frame(before, out@, next_free as int, *wgt, (d - 1) as nat, next_free + n_children, nf as int, i as nat);
            lemma_children_laid_out_widen(out@, next_free as int, *wgt, (d - 1) as nat, next_free + n_children, nf as int, next_free + n_children, child_nf as int, i as nat);
            lemma_laid_out_widen(out@, next_free + i, wgt.children@[i as int], (d - 1) as nat, nf as int, child_nf as int, next_free + n_children, child_nf as int);
            assert(children_laid_out(out@, next_free as int, *wgt, (d - 1) as nat, next_free + n_children, child_nf as int, (i + 1) as nat));
            assert forall|j: int| next_free <= j < next_free + i implies #[trigger] link_wf(out@, j) by {
                assert(link_wf(before, j));
                assert(children_within(before, j, next_free + n_children, nf as int));
                assert(out@[j] == before[j]);
                let l = before[j].link;
                if l.children_cnt > 0 {
                    assert forall|c: int| l.children_idx <= c < l.children_idx + l.children_cnt implies #[trigger] out@[c].link.parent_idx == j by {
                        assert(before[c].link.parent_idx == j);
                    }
                }
            }
            assert forall|j: int| next_free <= j < next_free + i implies #[trigger] children_within(out@, j, next_free + n_children, child_nf as int) by {
                assert(children_within(before, j, next_free + n_children, nf as int));
            }
            assert forall|j: int| next_free + n_children <= j < nf implies #[trigger] children_within(out@, j, next_free + n_children, child_nf as int) by {
                assert(children_within(before, j, next_free + n_children, nf as int));
            }
            assert forall|j: int| next_free + n_children <= j < nf implies #[trigger] link_wf(out@, j) by {
                assert(link_wf(before, j));
                assert(children_within(before, j, next_free + n_children, nf as int));
                assert(out@[j] == before[j]);
                let l = before[j].link;
                if l.children_cnt > 0 {
                    assert forall|c: int| l.children_idx <= c < l.children_idx + l.children_cnt implies #[trigger] out@[c].link.parent_idx == j by {
                        assert(before[c].link.parent_idx == j);
                    }
                }
            }
        }
        proof {
            let p = next_free + i;
            assert(children_within(out@, p as int, nf as int, child_nf as int));
            assert forall|j: int| nf <= j < child_nf implies #[trigger] children_within(out@, j, next_free + n_children, child_nf as int) by {
                assert(placed(p as int, nf as int, child_nf as int, j));
                assert(children_within(out@, j, nf as int, child_nf as int));
            }
        }
        nf = child_nf;
        i = i + 1;
    }
    proof {
        lemma_children_laid_out_widen(out@, next_free as int, *wgt, (d - 1) as nat, next_free + n_children, nf as int, next_free as int, nf as int, n_children as nat);
        assert forall|c: int| next_free <= c < next_free + n_children implies #[trigger] out@[c].link.parent_idx == out_idx by {
        }
        assert(link_wf(out@, out_idx as int));
        assert forall|j: int| placed(out_idx as int, next_free as int, nf as int, j) implies #[trigger] children_within(out@, j, next_free as int, nf as int) by {
            if j != out_idx {
                if j < next_free + n_children {
                    assert(children_within(out@, j, next_free + n_children, nf as int));
                } else {
                    assert(children_within(out@, j, next_free + n_children, nf as int));
                }
            }
        }
    }
    nf
}

proof fn lemma_children_count_ge(w: Widget, k: int, d: nat)
    requires
        0 <= k <= w.children@.len(),
        d > 0,
    ensures
        children_count(w, k, d) >= k,
    decreases k,
{
    if k > 0 {
        lemma_children_count_ge(w, k - 1, d);
        lemma_children_count_step(w, k, d);
        assert(tree_count(w.children@[k - 1], (d - 1) as nat) >= 1);
    }
}

proof fn lemma_children_count_step(w: Widget, k: int, d: nat)
    requires
        0 < k <= w.children@.len(),
        d > 0,
    ensures
        children_count(w, k, d) == children_count(w, k - 1, d) + tree_count(w.children@[k - 1], (d - 1) as nat),
{
}

proof fn lemma_children_count_mono(w: Widget, k: int, m: int, d: nat)
    requires
        0 <= k <= m <= w.children@.len(),
        d > 0,
    ensures
        children_count(w, k, d) + (m - k) <= children_count(w, m, d),
    decreases m - k,
{
    if k < m {
        lemma_children_count_mono(w, k + 1, m, d);
        assert(children_count(w, k + 1, d) == children_count(w, k, d) + tree_count(w.children@[k], (d - 1) as nat));
    }
}

/// Transforms user tree-like UI definition into flat array of widgets with Link structure filled-in;
/// children deeper than `MAX_TREE_DEPTH` levels are left out
pub fn tree_to_array(wgt: &Widget) -> (out: Vec<Widget>)
    requires
        tree_count(*wgt, MAX_TREE_DEPTH as nat) <= 65536,
    ensures
        out@.len() == tree_count(*wgt, MAX_TREE_DEPTH as nat),
        wgts_wf(out@),
        laid_out(out@, 0, *wgt, MAX_TREE_DEPTH as nat, 1, out@.len() as int),
{
    let n = tree_wgt_count(wgt);
    let mut out: Vec<Widget> = Vec::new();
    let mut i: usize = 0;
    while i < n
        invariant
            i <= n,
            out@.len() == i,
        decreases n - i,
    {
        out.push(Widget::cdeflt());
        i = i + 1;
    }
    do_transform(&mut out, wgt, 0, 0, 1, MAX_TREE_DEPTH);
    proof {
        assert forall|j: int| 0 <= j < out@.len() implies #[trigger] link_wf(out@, j) by {
            assert(placed(0, 1, n as int, j));
        }
    }
    out
}

} // verus!
