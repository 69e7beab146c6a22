//! # RTWins Window Manager

use vstd::prelude::*;
use crate::pal::Pal;
use crate::terminal::Term;
use crate::widget_def::WindowState;
use crate::widget_impl::WidgetState;

verus! {

// ---------------------------------------------------------------------------------------------- //

/// Position of the first `w` in `v` at or after `i`; -1 when there is none
pub open spec fn first_index_from(v: Seq<usize>, w: usize, i: int) -> int
    decreases v.len() - i,
{
    if i < 0 || i >= v.len() {
        -1
    } else if v[i] == w {
        i
    } else {
        first_index_from(v, w, i + 1)
    }
}

/// Position of the first `w` in `v`; -1 when there is none
pub open spec fn first_index(v: Seq<usize>, w: usize) -> int {
    first_index_from(v, w, 0)
}

/// The visible windows after showing window `w`: a hidden window goes on the top;
/// a visible one under another is moved to the top, unless it is the main window (index 0)
pub open spec fn shown(v: Seq<usize>, w: usize) -> Seq<usize> {
    let i = first_index(v, w);
    if i < 0 {
        v.push(w)
    } else if w > 0 && i + 1 < v.len() {
        v.remove(i).push(w)
    } else {
        v
    }
}

/// The visible windows after hiding window `w`: its first entry is removed
pub open spec fn hidden(v: Seq<usize>, w: usize) -> Seq<usize> {
    let i = first_index(v, w);
    if i < 0 {
        v
    } else {
        v.remove(i)
    }
}

/// No window is listed twice
pub open spec fn no_duplicates(v: Seq<usize>) -> bool {
    forall|i: int, j: int| 0 <= i < j < v.len() ==> v[i] != v[j]
}

proof fn lemma_first_index_from(v: Seq<usize>, w: usize, i: int)
    requires
        0 <= i <= v.len(),
    ensures
        -1 <= first_index_from(v, w, i) < v.len(),
        first_index_from(v, w, i) >= 0 ==> i <= first_index_from(v, w, i)
            && v[first_index_from(v, w, i)] == w,
        first_index_from(v, w, i) >= 0 ==> forall|k: int|
            i <= k < first_index_from(v, w, i) ==> v[k] != w,
        first_index_from(v, w, i) < 0 ==> forall|k: int| i <= k < v.len() ==> v[k] != w,
    decreases v.len() - i,
{
    if i < v.len() && v[i] != w {
        lemma_first_index_from(v, w, i + 1);
    }
}

/// What [`first_index`] gives: the first position holding `w`, or -1 when `w` is absent
pub proof fn lemma_first_index(v: Seq<usize>, w: usize)
    ensures
        -1 <= first_index(v, w) < v.len(),
        first_index(v, w) >= 0 ==> v[first_index(v, w)] == w,
        first_index(v, w) >= 0 ==> forall|k: int| 0 <= k < first_index(v, w) ==> v[k] != w,
        first_index(v, w) < 0 <==> !v.contains(w),
{
    lemma_first_index_from(v, w, 0);
    if first_index(v, w) >= 0 {
        assert(v.contains(w));
    }
}

/// Position of the first `wnd_idx` in `visible`
pub fn find_visible(visible: &[usize], wnd_idx: usize) -> (r: Option<usize>)
    ensures
        match r {
            Some(i) => i == first_index(visible@, wnd_idx),
            None => first_index(visible@, wnd_idx) == -1,
        },
{
    let mut i: usize = 0;
    while i < visible.len()
        invariant
            i <= visible@.len(),
            first_index(visible@, wnd_idx) == first_index_from(visible@, wnd_idx, i as int),
        decreases visible.len() - i,
    {
        if visible[i] == wnd_idx {
            return Some(i);
        }
        i = i + 1;
    }
    None
}

/// Puts window `wnd_idx` among the visible ones, as [`shown`] says;
/// returns true when it was hidden or under another window
pub fn show_in(visible: &mut Vec<usize>, wnd_idx: usize) -> (r: bool)
    ensures
        final(visible)@ == shown(old(visible)@, wnd_idx),
        r == (first_index(old(visible)@, wnd_idx) < 0 || (wnd_idx > 0 && first_index(
            old(visible)@,
            wnd_idx,
        ) + 1 < old(visible)@.len())),
{
    proof {
        lemma_first_index(old(visible)@, wnd_idx);
    }
    match find_visible(visible.as_slice(), wnd_idx) {
        Some(idx) => {
            assert(visible@ == old(visible)@);
            assert(idx < visible.len());
            if wnd_idx > 0 && idx + 1 < visible.len() {
                let tmp = visible.remove(idx);
                visible.push(tmp);
                true
            } else {
                false
            }
        },
        None => {
            visible.push(wnd_idx);
            true
        },
    }
}

/// Removes window `wnd_idx` from the visible ones, as [`hidden`] says;
/// returns true when it was visible
pub fn hide_in(visible: &mut Vec<usize>, wnd_idx: usize) -> (r: bool)
    ensures
        final(visible)@ == hidden(old(visible)@, wnd_idx),
        r == old(visible)@.contains(wnd_idx),
{
    proof {
        lemma_first_index(old(visible)@, wnd_idx);
    }
    match find_visible(visible.as_slice(), wnd_idx) {
        Some(idx) => {
            visible.remove(idx);
            true
        },
        None => false,
    }
}

// ---------------------------------------------------------------------------------------------- //

/// Showing a window makes it visible, and puts it on the top unless it is the main window
/// that was already visible
pub proof fn lemma_show_makes_visible(v: Seq<usize>, w: usize)
    ensures
        shown(v, w).contains(w),
        w > 0 || !v.contains(w) ==> shown(v, w).last() == w,
{
    lemma_first_index(v, w);
    let s = shown(v, w);
    if first_index(v, w) < 0 || (w > 0 && first_index(v, w) + 1 < v.len()) {
        assert(s[s.len() - 1] == w);
    } else {
        assert(s[first_index(v, w)] == w);
        if w > 0 {
            assert(first_index(v, w) == v.len() - 1);
        }
    }
}

/// Showing an already visible window changes which windows are visible only in their order
pub proof fn lemma_show_keeps_windows(v: Seq<usize>, w: usize)
    ensures
        shown(v, w).to_multiset() == (if v.contains(w) { v.to_multiset() } else {
            v.to_multiset().insert(w)
        }),
{
    lemma_first_index(v, w);
    broadcast use vstd::seq_lib::group_to_multiset_ensures;

    let i = first_index(v, w);
    if i >= 0 && w > 0 && i + 1 < v.len() {
        let r = v.remove(i);
        assert(v =~= r.insert(i, w));
        r.to_multiset_ensures();
    }
}

/// Hiding a window of a list without repetitions leaves it invisible, and keeps the list
/// without repetitions
pub proof fn lemma_hide_makes_invisible(v: Seq<usize>, w: usize)
    requires
        no_duplicates(v),
    ensures
        !hidden(v, w).contains(w),
        no_duplicates(hidden(v, w)),
{
    lemma_first_index(v, w);
    let h = hidden(v, w);
    let i = first_index(v, w);
    if i >= 0 {
        assert forall|k: int| 0 <= k < h.len() implies h[k] != w by {
            if k < i {
                assert(h[k] == v[k]);
            } else {
                assert(h[k] == v[k + 1]);
            }
        }
        assert forall|a: int, b: int| 0 <= a < b < h.len() implies h[a] != h[b] by {
            let a1 = if a < i { a } else { a + 1 };
            let b1 = if b < i { b } else { b + 1 };
            assert(h[a] == v[a1] && h[b] == v[b1]);
        }
    }
}

/// Showing keeps a list without repetitions so
pub proof fn lemma_show_no_duplicates(v: Seq<usize>, w: usize)
    requires
        no_duplicates(v),
    ensures
        no_duplicates(shown(v, w)),
{
    lemma_first_index(v, w);
    let i = first_index(v, w);
    let s = shown(v, w);
    if i < 0 {
        assert forall|a: int, b: int| 0 <= a < b < s.len() implies s[a] != s[b] by {
            if b == v.len() {
                assert(v.contains(v[a]));
            }
        }
    } else if w > 0 && i + 1 < v.len() {
        lemma_hide_makes_invisible(v, w);
        let r = v.remove(i);
        assert(r == hidden(v, w));
        assert forall|a: int, b: int| 0 <= a < b < s.len() implies s[a] != s[b] by {
            if b == r.len() {
                assert(s[a] == r[a]);
                assert(r.contains(r[a]));
            } else {
                assert(s[a] == r[a] && s[b] == r[b]);
            }
        }
    }
}

/// Hiding a window that was not visible after showing it restores the list of visible windows
pub proof fn lemma_hide_undoes_show(v: Seq<usize>, w: usize)
    requires
        !v.contains(w),
    ensures
        hidden(shown(v, w), w) == v,
{
    lemma_first_index(v, w);
    let s = shown(v, w);
    assert(s == v.push(w));
    lemma_first_index(s, w);
    assert(s.contains(w)) by {
        assert(s[v.len() as int] == w);
    }
    let j = first_index(s, w);
    if j < v.len() {
        assert(v[j] == s[j]);
        assert(v.contains(w));
    }
    assert(j == v.len());
    assert(s.remove(j) =~= v);
}

// ---------------------------------------------------------------------------------------------- //

/// Window manager: owns the windows and the list of the visible ones, bottom first
pub trait WindowManager {
    /// The windows' state type
    type Wnd: WindowState;

    /// The visible windows, bottom first
    spec fn visible_windows(&self) -> Seq<usize>;

    /// Returns any window state
    fn get_ref(&self, wnd_idx: usize) -> Option<&Self::Wnd>;

    /// Returns any window mutable state
    fn get_mut(&mut self, wnd_idx: usize) -> (r: Option<&mut Self::Wnd>)
        ensures
            final(self).visible_windows() == old(self).visible_windows(),
    ;

    /// Returns vector of visible windows
    fn get_visible(&self) -> (r: &[usize])
        ensures
            r@ == self.visible_windows(),
    ;

    /// Returns mutable vector of visible windows
    fn get_visible_mut(&mut self) -> (r: &mut Vec<usize>)
        ensures
            r@ == old(self).visible_windows(),
            final(self).visible_windows() == final(r)@,
    ;

    /// Check if given window is visible
    fn is_visible(&self, wnd_idx: usize) -> (r: bool)
        ensures
            r == self.visible_windows().contains(wnd_idx),
    {
        proof {
            lemma_first_index(self.visible_windows(), wnd_idx);
        }
        find_visible(self.get_visible(), wnd_idx).is_some()
    }

    /// Returns top window state
    fn get_top_ref(&self) -> (r: Option<&Self::Wnd>)
        ensures
            self.visible_windows().len() == 0 ==> r is None,
    {
        let visible = self.get_visible();
        if visible.len() > 0 {
            self.get_ref(visible[visible.len() - 1])
        } else {
            None
        }
    }

    /// Returns top window mutable state
    fn get_top_mut(&mut self) -> (r: Option<&mut Self::Wnd>)
        ensures
            old(self).visible_windows().len() == 0 ==> r is None,
            final(self).visible_windows() == old(self).visible_windows(),
    {
        let visible = self.get_visible();
        let n = visible.len();
        if n > 0 {
            let top = visible[n - 1];
            self.get_mut(top)
        } else {
            None
        }
    }

    /// Checks if given window is visible and on the top
    fn is_top(&self, wnd_idx: usize) -> (r: bool)
        ensures
            r == (self.visible_windows().len() > 0 && self.visible_windows().last() == wnd_idx),
    {
        let visible = self.get_visible();
        if visible.len() > 0 {
            visible[visible.len() - 1] == wnd_idx
        } else {
            false
        }
    }
}

/// Show the window of `wm`, push on the top (if not main wnd)
pub fn show<P: Pal, M: WindowManager>(wm: &mut M, term: &mut Term<P>, wst: &mut WidgetState, wnd_idx: usize)
    ensures
        final(wm).visible_windows() == shown(old(wm).visible_windows(), wnd_idx),
{
    let visible = wm.get_visible_mut();
    let was_visible = find_visible(visible.as_slice(), wnd_idx).is_some();
    let changed = show_in(visible, wnd_idx);
    if changed {
        if was_visible {
            draw_all(wm, term, wst);
        } else {
            draw_top(wm, term, wst);
        }
    }
}

/// Hide window
pub fn hide_wnd<P: Pal, M: WindowManager>(wm: &mut M, term: &mut Term<P>, wst: &mut WidgetState, wnd_idx: usize)
    ensures
        final(wm).visible_windows() == hidden(old(wm).visible_windows(), wnd_idx),
{
    let visible = wm.get_visible_mut();
    if hide_in(visible, wnd_idx) {
        let now_empty = visible.len() == 0;
        if !now_empty {
            draw_all(wm, term, wst);
        } else {
            term.screen_clr_all();
            term.flush_buff();
        }
    }
}

/// Draw the top window only
pub fn draw_top<P: Pal, M: WindowManager>(wm: &mut M, term: &mut Term<P>, wst: &mut WidgetState)
    ensures
        final(wm).visible_windows() == old(wm).visible_windows(),
{
    if let Some(ws) = wm.get_top_mut() {
        term.draw_wnd(ws, wst);
    }
}

/// Draw the top window invalidated widgets
pub fn draw_top_invalidated<P: Pal, M: WindowManager>(wm: &mut M, term: &mut Term<P>, wst: &mut WidgetState)
    ensures
        final(wm).visible_windows() == old(wm).visible_windows(),
{
    if let Some(ws) = wm.get_top_mut() {
        term.draw_invalidated(ws, wst);
    }
}

/// Redraw windows from bottom to top
pub fn draw_all<P: Pal, M: WindowManager>(wm: &mut M, term: &mut Term<P>, wst: &mut WidgetState)
    ensures
        final(wm).visible_windows() == old(wm).visible_windows(),
{
    let mut visible: Vec<usize> = Vec::new();
    let src = wm.get_visible();
    let mut k: usize = 0;
    while k < src.len()
        invariant
            k <= src@.len(),
        decreases src.len() - k,
    {
        visible.push(src[k]);
        k = k + 1;
    }
    let mut wnd_idx: usize = 0;
    while wnd_idx < 99
        invariant
            wm.visible_windows() == old(wm).visible_windows(),
        ensures
            wm.visible_windows() == old(wm).visible_windows(),
        decreases 99 - wnd_idx,
    {
        match wm.get_mut(wnd_idx) {
            Some(ws) => {
                if find_visible(visible.as_slice(), wnd_idx).is_some() {
                    term.draw_wnd(ws, wst);
                }
            },
            None => {
                break;
            },
        }
        wnd_idx = wnd_idx + 1;
    }
}

} // verus!
