//! # RTWins Widget behavior

use vstd::prelude::*;
use crate::common::Coord;
use crate::common::Rect;
use crate::common::sat_add_u8;
use crate::common::point_in_rect;
use crate::common::rect_in_rect;
use crate::common::Size;
use crate::esc::cursor_goto_seq;
use crate::string_ext::displayed_width_of;
use crate::input::Key;
use crate::input::KeyMod;
use crate::input::MouseEvent;
use crate::input::MouseInfo;
use crate::input::KEY_MOD_SPECIAL;
use crate::input::KEY_MOD_CTRL;
use crate::input::KEY_MOD_SHIFT;
use crate::input::charbuff_text;
use crate::string_ext::StringExt;
use crate::string_ext::erase_range;
use crate::string_ext::trim_at;
use crate::string_ext::insert_at;
use crate::widget_def::rstate::CbbxState;
use crate::widget_def::rstate::LbxState;
use crate::widget_def::rstate::TxtbxState;
use crate::input::InputInfo;
use crate::input::InputEvent;
use crate::pal::Pal;
use crate::string_ext::StrExt;
use crate::terminal::Term;
use crate::widget_def::ButtonStyle;
use crate::widget_def::Property;
use crate::widget_def::WId;
use crate::widget_def::WIDGET_ID_NONE;
use crate::widget_def::same_answers;
use crate::widget_def::Widget;
use crate::widget_def::WindowState;

pub mod transform;

verus! {

// ---------------------------------------------------------------------------------------------- //
// ---- WIDGET STATE ---------------------------------------------------------------------------- //

/// Text edit in progress
#[derive(Clone)]
pub struct TextEditState {
    pub wgt_id: WId,
    pub cursor_pos: i16,
    pub txt: String,
}

impl Default for TextEditState {
    fn default() -> (r: Self)
        ensures
            r.wgt_id == WIDGET_ID_NONE,
            r.cursor_pos == 0,
            r.txt@ == Seq::<char>::empty(),
    {
        TextEditState { wgt_id: WIDGET_ID_NONE, cursor_pos: 0, txt: String::new() }
    }
}

/// A toggle or a selection the library hands to the window
pub enum WindowCall {
    /// `on_checkbox_toggle` on the check box of this id
    CheckboxToggle(WId),
    /// `on_radio_select` on the radio button of this id
    RadioSelect(WId),
}

/// State object for current top window;
/// using WId instead of references solves lifetime problems
pub struct WidgetState {
    pub focused_wgt: WId,
    pub mouse_down_wgt: WId,
    pub cbx_drop_down: WId,
    pub text_edit_state: TextEditState,
    pub mouse_down_ii: InputInfo,
    /// The toggles and selections handed to the window so far, the latest last
    pub window_calls: Ghost<Seq<WindowCall>>,
}

/// Widget state right after creation or reset
pub open spec fn widget_state_is_reset(s: WidgetState) -> bool {
    &&& s.focused_wgt == WIDGET_ID_NONE
    &&& s.mouse_down_wgt == WIDGET_ID_NONE
    &&& s.cbx_drop_down == WIDGET_ID_NONE
    &&& s.text_edit_state.wgt_id == WIDGET_ID_NONE
    &&& s.text_edit_state.cursor_pos == 0
    &&& s.text_edit_state.txt@ == Seq::<char>::empty()
    &&& s.mouse_down_ii.evnt is NoInput
    &&& s.mouse_down_ii.kmod.mask == 0
}

impl Default for WidgetState {
    fn default() -> (r: Self)
        ensures
            widget_state_is_reset(r),
    {
        WidgetState {
            focused_wgt: WIDGET_ID_NONE,
            mouse_down_wgt: WIDGET_ID_NONE,
            cbx_drop_down: WIDGET_ID_NONE,
            text_edit_state: TextEditState::default(),
            mouse_down_ii: InputInfo::default(),
            window_calls: Ghost(Seq::empty()),
        }
    }
}

impl WidgetState {
    /// Back to the state right after creation
    pub fn reset(&mut self)
        ensures
            widget_state_is_reset(*final(self)),
    {
        *self = Self::default();
    }
}

/// Shall be called eg. on top window change
pub fn reset_internal_state(wst: &mut WidgetState)
    ensures
        widget_state_is_reset(*final(wst)),
{
    wst.reset();
}

/// Mark internal clicked widget id
pub fn mark_button_down(wst: &mut WidgetState, btn: &Widget, is_down: bool)
    ensures
        final(wst).mouse_down_wgt == (if is_down { btn.id } else { WIDGET_ID_NONE }),
        final(wst).focused_wgt == old(wst).focused_wgt,
        final(wst).cbx_drop_down == old(wst).cbx_drop_down,
        final(wst).text_edit_state.wgt_id == old(wst).text_edit_state.wgt_id,
        final(wst).text_edit_state.cursor_pos == old(wst).text_edit_state.cursor_pos,
        final(wst).text_edit_state.txt@ == old(wst).text_edit_state.txt@,
        final(wst).mouse_down_ii == old(wst).mouse_down_ii,
{
    wst.mouse_down_wgt = if is_down { btn.id } else { WIDGET_ID_NONE };
}

// ---------------------------------------------------------------------------------------------- //
// ---- WIDGETS GENERAL FUNCTIONS --------------------------------------------------------------- //

/// Parent-type widgets: those that hold other widgets
pub open spec fn is_parent_type(p: Property) -> bool {
    p is Window || p is Panel || p is PageCtrl || p is Page || p is Layer
}

/// Checks if given widget is parent-type
pub fn is_parent(wgt: &Widget) -> (r: bool)
    ensures
        r == is_parent_type(wgt.prop),
{
    match wgt.prop {
        Property::Window(_) | Property::Panel(_) | Property::PageCtrl(_) | Property::Page(_)
        | Property::Layer(_) => true,
        _ => false,
    }
}

/// Parent of a widget in a flat widgets array; the widget itself when its parent index is out of range
pub open spec fn parent_of(wgts: Seq<Widget>, w: Widget) -> Widget {
    if (w.link.parent_idx as int) < wgts.len() { wgts[w.link.parent_idx as int] } else { w }
}

/// Get `wgt`'s parent, using flat widgets layout produced by `tree_to_array()`
pub fn get_parent<'a>(wgts: &'a [Widget], wgt: &'a Widget) -> (r: &'a Widget)
    ensures
        *r == parent_of(wgts@, *wgt),
{
    let idx = wgt.link.parent_idx as usize;
    if idx < wgts.len() {
        &wgts[idx]
    } else {
        wgt
    }
}

/// Index of the first widget with the given id, searching from `i`
pub open spec fn first_with_id(wgts: Seq<Widget>, id: WId, i: int) -> Option<int>
    decreases wgts.len() - i,
{
    if i < 0 || i >= wgts.len() {
        None
    } else if wgts[i].id == id {
        Some(i)
    } else {
        first_with_id(wgts, id, i + 1)
    }
}

/// Widget found by id: the first one with that id; none for `WIDGET_ID_NONE`
pub open spec fn widget_by_id(wgts: Seq<Widget>, id: WId) -> Option<Widget> {
    if id == WIDGET_ID_NONE {
        None
    } else {
        match first_with_id(wgts, id, 0) {
            Some(i) => Some(wgts[i]),
            None => None,
        }
    }
}

proof fn lemma_first_with_id_bounds(wgts: Seq<Widget>, id: WId, i: int)
    ensures
        first_with_id(wgts, id, i) matches Some(j) ==> i <= j < wgts.len() && wgts[j].id == id,
    decreases wgts.len() - i,
{
    if !(i < 0 || i >= wgts.len()) && wgts[i].id != id {
        lemma_first_with_id_bounds(wgts, id, i + 1);
    }
}

/// Search for Widget with given `id` in transformed widgets array
pub fn find_by_id(wndarray: &[Widget], id: WId) -> (r: Option<&Widget>)
    ensures
        match r {
            Some(w) => widget_by_id(wndarray@, id) == Some(*w),
            None => widget_by_id(wndarray@, id) is None,
        },
{
    if id == WIDGET_ID_NONE {
        return None;
    }
    let mut i: usize = 0;
    while i < wndarray.len()
        invariant
            i <= wndarray@.len(),
            id != WIDGET_ID_NONE,
            first_with_id(wndarray@, id, 0) == first_with_id(wndarray@, id, i as int),
        decreases wndarray@.len() - i,
    {
        if wndarray[i].id == id {
            assert(first_with_id(wndarray@, id, i as int) == Some(i as int));
            return Some(&wndarray[i]);
        }
        i = i + 1;
    }
    None
}

/// The children of a parent widget in the flat array: the range its link names, cut to the array
pub open spec fn children_range(wgts: Seq<Widget>, p: Widget) -> (int, int) {
    let lo = p.link.children_idx as int;
    let hi = p.link.children_idx + p.link.children_cnt;
    let lo2 = if lo < wgts.len() { lo } else { wgts.len() as int };
    let hi2 = if hi < wgts.len() { hi } else { wgts.len() as int };
    (lo2, if hi2 < lo2 { lo2 } else { hi2 })
}

/// In a well-formed widget array every child of a widget names that widget as its parent,
/// and the window is its own parent
pub proof fn lemma_children_name_parent(wgts: Seq<Widget>, j: int, k: int)
    requires
        transform::wgts_wf(wgts),
        0 <= j < wgts.len(),
        0 <= k < children_range(wgts, wgts[j]).1 - children_range(wgts, wgts[j]).0,
    ensures
        parent_of(wgts, wgts[children_range(wgts, wgts[j]).0 + k]) == wgts[j],
        parent_of(wgts, wgts[0]) == wgts[0],
{
    assert(transform::link_wf(wgts, j));
    let c = children_range(wgts, wgts[j]).0 + k;
    assert(wgts[c].link.parent_idx == j);
}

/// Children of a parent widget
pub fn children_of<'a>(wgts: &'a [Widget], parent: &Widget) -> (r: &'a [Widget])
    ensures
        r@ == wgts@.subrange(children_range(wgts@, *parent).0, children_range(wgts@, *parent).1),
        r@.len() <= parent.link.children_cnt,
{
    let lo0 = parent.link.children_idx as usize;
    let hi0 = lo0 + parent.link.children_cnt as usize;
    let lo = if lo0 < wgts.len() { lo0 } else { wgts.len() };
    let hi1 = if hi0 < wgts.len() { hi0 } else { wgts.len() };
    let hi = if hi1 < lo { lo } else { hi1 };
    vstd::slice::slice_subrange(wgts, lo, hi)
}

impl Widget {
    /// Returns the widget's children
    pub fn iter_children<'a>(&self, wgts: &'a [Widget]) -> (r: &'a [Widget])
        ensures
            r@ == wgts@.subrange(children_range(wgts@, *self).0, children_range(wgts@, *self).1),
    {
        children_of(wgts, self)
    }

    /// Returns iterator going up the parents hierarchy, but starting at the widget itself
    pub fn iter_parents<'a>(&self, wgts: &'a [Widget]) -> (r: ParentsIter<'a>)
        ensures
            r.wgt == *self,
            r.wgts@ == wgts@,
            !r.finished,
    {
        ParentsIter::new(wgts, *self)
    }
}

/// Iterator over parent-type Widget children
pub struct ChildrenIter<'a> {
    pub children: &'a [Widget],
    pub idx: usize,
}

impl<'a> ChildrenIter<'a> {
    /// Creates a new iterator over the children of `parent_wgt`;
    /// a widget that is not a parent has none
    pub fn new(wgts: &'a [Widget], parent_wgt: &Widget) -> (r: Self)
        ensures
            r.children@ == wgts@.subrange(children_range(wgts@, *parent_wgt).0, children_range(wgts@, *parent_wgt).1),
            r.idx == 0,
    {
        ChildrenIter { children: children_of(wgts, parent_wgt), idx: 0 }
    }

    /// Next child, if any
    pub fn next(&mut self) -> (r: Option<&'a Widget>)
        ensures
            final(self).children == old(self).children,
            old(self).idx < old(self).children@.len() ==> r == Some(&old(self).children@[old(self).idx as int]) && final(self).idx == old(self).idx + 1,
            old(self).idx >= old(self).children@.len() ==> r is None && final(self).idx == old(self).idx,
    {
        if self.idx < self.children.len() {
            let r = &self.children[self.idx];
            self.idx = self.idx + 1;
            Some(r)
        } else {
            None
        }
    }

    /// Number of children left
    pub fn count(self) -> (n: usize)
        ensures
            n == (if self.idx < self.children@.len() { self.children@.len() - self.idx } else { 0 }),
    {
        if self.idx < self.children.len() {
            self.children.len() - self.idx
        } else {
            0
        }
    }
}

/// Iterator that traverses over parents hierarchy, starting at `wgt`, up to the root Window
pub struct ParentsIter<'a> {
    pub wgts: &'a [Widget],
    pub wgt: Widget,
    pub finished: bool,
}

impl<'a> ParentsIter<'a> {
    /// Creates a new iterator starting at `wgt`
    pub fn new(wgts: &'a [Widget], wgt: Widget) -> (r: Self)
        ensures
            r.wgt == wgt,
            r.wgts@ == wgts@,
            !r.finished,
    {
        ParentsIter { wgts, wgt, finished: false }
    }

    /// The current widget, then its parent on the next call; none after the root
    pub fn next(&mut self) -> (r: Option<Widget>)
        ensures
            final(self).wgts == old(self).wgts,
            old(self).finished ==> r is None && *final(self) == *old(self),
            !old(self).finished ==> r == Some(old(self).wgt)
                && final(self).finished == (old(self).wgt.link.own_idx == 0)
                && final(self).wgt == parent_of(old(self).wgts@, old(self).wgt),
    {
        if !self.finished {
            let ret = self.wgt;
            self.finished = self.wgt.link.own_idx == 0;
            self.wgt = *get_parent(self.wgts, &ret);
            Some(ret)
        } else {
            None
        }
    }
}

// ---------------------------------------------------------------------------------------------- //
// ---- PAGE CONTROL HELPERS -------------------------------------------------------------------- //

/// Index of the page among its page control's children
pub open spec fn page_index_in(wgts: Seq<Widget>, page: Widget) -> Option<int> {
    if page.prop is Page {
        let pg = parent_of(wgts, page);
        let (lo, hi) = children_range(wgts, pg);
        match first_with_id(wgts.subrange(lo, hi), page.id, 0) {
            Some(i) => if i <= i16::MAX { Some(i) } else { None },
            None => None,
        }
    } else {
        None
    }
}

/// Returns given page index on parent PageCtrl
pub fn page_page_idx(wgts: &[Widget], page: &Widget) -> (r: Option<i16>)
    ensures
        match r {
            Some(i) => page_index_in(wgts@, *page) == Some(i as int),
            None => page_index_in(wgts@, *page) is None,
        },
{
    match page.prop {
        Property::Page(_) => {},
        _ => return None,
    }
    let pgctrl = get_parent(wgts, page);
    let children = children_of(wgts, pgctrl);
    let mut idx: usize = 0;
    while idx < children.len()
        invariant
            idx <= children@.len(),
            page.prop is Page,
            children@ == wgts@.subrange(
                children_range(wgts@, parent_of(wgts@, *page)).0,
                children_range(wgts@, parent_of(wgts@, *page)).1,
            ),
            first_with_id(children@, page.id, 0) == first_with_id(children@, page.id, idx as int),
        decreases children@.len() - idx,
    {
        if children[idx].id == page.id {
            assert(first_with_id(children@, page.id, idx as int) == Some(idx as int));
            return if idx <= 32767 { Some(idx as i16) } else { None };
        }
        idx = idx + 1;
    }
    None
}

/// Returns WId of page at PageCtrl pages index
pub fn pagectrl_page_wid(wgts: &[Widget], pgctrl: &Widget, page_idx: i16) -> (r: WId)
    ensures
        r == (if pgctrl.prop is PageCtrl && 0 <= page_idx < children_range(wgts@, *pgctrl).1 - children_range(wgts@, *pgctrl).0 {
            wgts@[children_range(wgts@, *pgctrl).0 + page_idx].id
        } else {
            WIDGET_ID_NONE
        }),
{
    match pgctrl.prop {
        Property::PageCtrl(_) => {
            let children = children_of(wgts, pgctrl);
            if page_idx >= 0 && (page_idx as usize) < children.len() {
                return children[page_idx as usize].id;
            }
        },
        _ => {},
    }
    WIDGET_ID_NONE
}

/// Returns PageCtrl pages count
pub fn pagectrl_page_count(widgets: &[Widget], pgctrl_id: WId) -> (r: u16)
    ensures
        r == (match widget_by_id(widgets@, pgctrl_id) {
            Some(w) => w.link.children_cnt,
            None => 0,
        }),
{
    match find_by_id(widgets, pgctrl_id) {
        Some(pgctrl) => pgctrl.link.children_cnt,
        None => 0,
    }
}

/// Checks both `pgctrl` widget type and if `page_id` is one of its pages
pub fn pagectrl_find_page<'a>(wgts: &'a [Widget], pgctrl: &Widget, page_id: WId) -> (r: Option<&'a Widget>)
    ensures
        match r {
            Some(pg) => pgctrl.prop is PageCtrl && ({
                let (lo, hi) = children_range(wgts@, *pgctrl);
                first_with_id(wgts@.subrange(lo, hi), page_id, 0) matches Some(i) && *pg == wgts@[lo + i]
            }),
            None => !(pgctrl.prop is PageCtrl) || ({
                let (lo, hi) = children_range(wgts@, *pgctrl);
                first_with_id(wgts@.subrange(lo, hi), page_id, 0) is None
            }),
        },
{
    match pgctrl.prop {
        Property::PageCtrl(_) => {
            let children = children_of(wgts, pgctrl);
            let mut i: usize = 0;
            while i < children.len()
                invariant
                    i <= children@.len(),
                    pgctrl.prop is PageCtrl,
                    children@ == wgts@.subrange(children_range(wgts@, *pgctrl).0, children_range(wgts@, *pgctrl).1),
                    first_with_id(children@, page_id, 0) == first_with_id(children@, page_id, i as int),
                decreases children@.len() - i,
            {
                if children[i].id == page_id {
                    assert(first_with_id(children@, page_id, i as int) == Some(i as int));
                    return Some(&children[i]);
                }
                i = i + 1;
            }
            None
        },
        _ => None,
    }
}

// ---------------------------------------------------------------------------------------------- //
// ---- SCREEN POSITION, VISIBILITY ------------------------------------------------------------- //

/// Coordinates `coord` of a widget below `cur`, moved by the positions of `cur`'s parents, up to
/// the window: a page control adds its tab width, the window adds its screen position `wnd`;
/// `steps` parents were visited already, and at most as many as there are widgets are
pub open spec fn screen_coord_from(wgts: Seq<Widget>, cur: Widget, coord: Coord, wnd: Coord, steps: nat) -> Coord
    decreases wgts.len() - steps,
{
    if cur.link.own_idx == 0 || steps >= wgts.len() {
        coord
    } else {
        let parent = parent_of(wgts, cur);
        let c2 = match parent.prop {
            Property::Window(_) => Coord { col: sat_add_u8(coord.col, wnd.col), row: sat_add_u8(coord.row, wnd.row) },
            Property::PageCtrl(p) => Coord {
                col: ((sat_add_u8(coord.col, parent.coord.col) + p.tab_width) % 256) as u8,
                row: sat_add_u8(coord.row, parent.coord.row),
            },
            _ => Coord { col: sat_add_u8(coord.col, parent.coord.col), row: sat_add_u8(coord.row, parent.coord.row) },
        };
        screen_coord_from(wgts, parent, c2, wnd, steps + 1)
    }
}

/// Screen position of a widget of the widgets `wgts` of a window placed at `wnd`: the window's
/// own, for the window, else as `screen_coord_from` gives it from the widget's coordinates
pub open spec fn screen_pos(wgts: Seq<Widget>, wgt: Widget, wnd: Coord) -> Coord {
    if wgt.prop is Window {
        wnd
    } else {
        screen_coord_from(wgts, wgt, wgt.coord, wnd, 0)
    }
}

/// Screen coordinates of a widget of the widget array `wgts` of a window placed at `wnd_coord`:
/// its own coordinates plus those of all its parents, page controls adding their tab width and
/// the window its screen position
pub fn screen_coord_in(wgts: &[Widget], wgt: &Widget, wnd_coord: Coord) -> (c: Coord)
    ensures
        c == screen_pos(wgts@, *wgt, wnd_coord),
{
    match wgt.prop {
        Property::Window(_) => {
            return wnd_coord;
        },
        _ => {},
    }
    let mut coord = wgt.coord;
    let mut cur = *wgt;
    let mut steps: usize = 0;
    while cur.link.own_idx != 0 && steps < wgts.len()
        invariant
            steps <= wgts@.len(),
            screen_coord_from(wgts@, cur, coord, wnd_coord, steps as nat) == screen_coord_from(
                wgts@,
                *wgt,
                wgt.coord,
                wnd_coord,
                0,
            ),
        decreases wgts@.len() - steps,
    {
        let parent = *get_parent(wgts, &cur);
        match parent.prop {
            Property::Window(_) => {
                coord = coord + wnd_coord;
            },
            Property::PageCtrl(p) => {
                coord = coord + parent.coord;
                coord.col = coord.col.wrapping_add(p.tab_width);
            },
            _ => {
                coord = coord + parent.coord;
            },
        }
        cur = parent;
        steps = steps + 1;
    }
    coord
}

/// Screen coordinates of the widget of the window `ws`: see [`screen_coord_in`], with the
/// window's widgets and screen position
pub fn get_screen_coord<W: WindowState>(ws: &mut W, wgt: &Widget) -> (c: Coord)
    ensures
        c == screen_pos(old(ws).widgets_spec(), *wgt, old(ws).window_coord_spec()),
        same_answers(old(ws), final(ws)),
{
    let wnd_coord = ws.get_window_coord();
    screen_coord_in(ws.get_widgets(), wgt, wnd_coord)
}

/// `cur`, and its parents up to the window, are all shown by the window `ws`; `steps` parents
/// were visited already, and at most as many as there are widgets are
pub open spec fn shown_chain<W: WindowState>(ws: &W, wgts: Seq<Widget>, cur: Widget, steps: nat) -> bool
    decreases wgts.len() - steps,
{
    ws.visible_spec(cur) && (cur.link.own_idx == 0 || steps >= wgts.len() || shown_chain(
        ws,
        wgts,
        parent_of(wgts, cur),
        steps + 1,
    ))
}

/// `cur`, and its parents up to the window, are all enabled in the window `ws`; `steps` parents
/// were visited already, and at most as many as there are widgets are
pub open spec fn enabled_chain<W: WindowState>(ws: &W, wgts: Seq<Widget>, cur: Widget, steps: nat) -> bool
    decreases wgts.len() - steps,
{
    ws.enabled_spec(cur) && (cur.link.own_idx == 0 || steps >= wgts.len() || enabled_chain(
        ws,
        wgts,
        parent_of(wgts, cur),
        steps + 1,
    ))
}

/// A widget is visible when it and all its parents are
pub fn is_visible<W: WindowState>(ws: &W, wgt: &Widget) -> (r: bool)
    ensures
        r == shown_chain(ws, ws.widgets_spec(), *wgt, 0),
{
    let wgts = ws.get_widgets();
    let mut cur = *wgt;
    let mut steps: usize = 0;
    loop
        invariant
            steps <= wgts@.len(),
            wgts@ == ws.widgets_spec(),
            shown_chain(ws, wgts@, cur, steps as nat) == shown_chain(ws, wgts@, *wgt, 0),
        decreases wgts@.len() + 1 - steps,
    {
        if !ws.is_visible(&cur) {
            return false;
        }
        if cur.link.own_idx == 0 || steps >= wgts.len() {
            return true;
        }
        cur = *get_parent(wgts, &cur);
        steps = steps + 1;
    }
}

/// A widget is enabled when it and all its parents are
pub fn is_enabled<W: WindowState>(ws: &W, wgt: &Widget) -> (r: bool)
    ensures
        r == enabled_chain(ws, ws.widgets_spec(), *wgt, 0),
{
    let wgts = ws.get_widgets();
    let mut cur = *wgt;
    let mut steps: usize = 0;
    loop
        invariant
            steps <= wgts@.len(),
            wgts@ == ws.widgets_spec(),
            enabled_chain(ws, wgts@, cur, steps as nat) == enabled_chain(ws, wgts@, *wgt, 0),
        decreases wgts@.len() + 1 - steps,
    {
        if !ws.is_enabled(&cur) {
            return false;
        }
        if cur.link.own_idx == 0 || steps >= wgts.len() {
            return true;
        }
        cur = *get_parent(wgts, &cur);
        steps = steps + 1;
    }
}

/// Width a one-line widget takes on screen: the text width plus the decoration, wrapping like `u8`
pub open spec fn deco_width_of(txt_w: int, deco: u8) -> u8 {
    ((txt_w % 256) as u8).wrapping_add(deco)
}

/// Width a one-line widget takes on screen: the text width plus the decoration, wrapping like `u8`
fn deco_width(txt_w: usize, deco: u8) -> (r: u8)
    ensures
        r == deco_width_of(txt_w as int, deco),
{
    ((txt_w % 256) as u8).wrapping_add(deco)
}

/// Text width of a button as its size is computed for the mouse: the width of its text, else
/// its set width, else `asked_w`, the width of the text the window gives for it
pub open spec fn button_text_width(wgt: Widget, text: Seq<char>, asked_w: int) -> int {
    if text.len() > 0 {
        displayed_width_of(text)
    } else if wgt.size.width > 0 {
        wgt.size.width as int
    } else {
        asked_w
    }
}

/// The size of the area of a widget that answers the mouse, and whether a hit on the widget ends
/// the search for the widget under the mouse; `asked_w` is the width of the text the window gives
/// for a button that has neither a text nor a width of its own
pub open spec fn hit_area(wgt: Widget, asked_w: int) -> (Size, bool) {
    match wgt.prop {
        Property::TextEdit(_) => (wgt.size, true),
        Property::CheckBox(p) => (Size { width: deco_width_of(displayed_width_of(p.text@), 4), height: 1 }, true),
        Property::Radio(p) => (Size { width: deco_width_of(displayed_width_of(p.text@), 4), height: 1 }, true),
        Property::Button(p) => {
            let w = button_text_width(wgt, p.text@, asked_w);
            match p.style {
                ButtonStyle::Simple => (Size { width: deco_width_of(w, 4), height: 1 }, true),
                ButtonStyle::Solid => (Size { width: deco_width_of(w, 2), height: 1 }, true),
                ButtonStyle::Solid1p5 => (Size { width: deco_width_of(w, 2), height: 3 }, true),
            }
        },
        Property::PageCtrl(p) => (Size { width: p.tab_width, ..wgt.size }, true),
        Property::ListBox(_) => (wgt.size, true),
        Property::ComboBox(_) => (wgt.size, true),
        _ => (wgt.size, false),
    }
}

/// `size` is the size of the area of `wgt` that answers the mouse, for some width of the text the
/// window gives for it
pub open spec fn hit_area_sized(wgt: Widget, size: Size) -> bool {
    exists|aw: int| size == (#[trigger] hit_area(wgt, aw)).0
}

/// Computes `hit_area`
pub fn hit_area_of(wgt: &Widget, asked_w: usize) -> (r: (Size, bool))
    ensures
        r == hit_area(*wgt, asked_w as int),
{
    match wgt.prop {
        Property::TextEdit(_) => (wgt.size, true),
        Property::CheckBox(p) => (Size { width: deco_width(p.text.displayed_width(), 4), height: 1 }, true),
        Property::Radio(p) => (Size { width: deco_width(p.text.displayed_width(), 4), height: 1 }, true),
        Property::Button(p) => {
            let txt_w: usize = if p.text.unicode_len() > 0 {
                p.text.displayed_width()
            } else if wgt.size.width > 0 {
                wgt.size.width as usize
            } else {
                asked_w
            };
            match p.style {
                ButtonStyle::Simple => (Size { width: deco_width(txt_w, 4), height: 1 }, true),
                ButtonStyle::Solid => (Size { width: deco_width(txt_w, 2), height: 1 }, true),
                ButtonStyle::Solid1p5 => (Size { width: deco_width(txt_w, 2), height: 3 }, true),
            }
        },
        Property::PageCtrl(p) => (Size { width: p.tab_width, height: wgt.size.height }, true),
        Property::ListBox(_) => (wgt.size, true),
        Property::ComboBox(_) => (wgt.size, true),
        _ => (wgt.size, false),
    }
}

/// The whole screen
pub open spec fn whole_screen() -> Rect {
    Rect { coord: Coord { col: 0, row: 0 }, size: Size { width: u8::MAX, height: u8::MAX } }
}

/// The search for the widget under `col:row` from index `i` on: `rects` are the widgets' areas
/// that answer the mouse, `stops` whether a hit on each ends the search, `vis` whether each is
/// visible; `best` is the innermost area found so far and `found` its index. A visible widget
/// under the point whose area lies in the best one becomes the best; if its hit ends the search,
/// it is the answer, else the last best is
pub open spec fn hit_search(
    rects: Seq<Rect>,
    stops: Seq<bool>,
    vis: Seq<bool>,
    col: int,
    row: int,
    i: int,
    best: Rect,
    found: Option<int>,
) -> Option<int>
    decreases rects.len() - i,
{
    if i < 0 || i >= rects.len() {
        found
    } else if point_in_rect(rects[i], col, row) && vis[i] && rect_in_rect(best, rects[i]) {
        if stops[i] {
            Some(i)
        } else {
            hit_search(rects, stops, vis, col, row, i + 1, rects[i], Some(i))
        }
    } else {
        hit_search(rects, stops, vis, col, row, i + 1, best, found)
    }
}

/// Index of the widget under `col:row`, as `hit_search` from the first widget and the whole screen
pub fn find_hit(rects: &[Rect], stops: &[bool], vis: &[bool], col: u8, row: u8) -> (r: Option<usize>)
    requires
        stops@.len() == rects@.len(),
        vis@.len() == rects@.len(),
    ensures
        r matches Some(k) ==> k < rects@.len() && point_in_rect(rects@[k as int], col as int, row as int) && vis@[k as int],
        hit_search(rects@, stops@, vis@, col as int, row as int, 0, whole_screen(), None)
            == (match r { Some(k) => Some(k as int), None => None::<int> }),
{
    let mut best = Rect::cdeflt();
    best.set_max();
    let mut found: Option<usize> = None;
    let mut i: usize = 0;
    while i < rects.len()
        invariant
            i <= rects@.len(),
            stops@.len() == rects@.len(),
            vis@.len() == rects@.len(),
            found matches Some(k) ==> k < i,
            hit_search(rects@, stops@, vis@, col as int, row as int, 0, whole_screen(), None)
                == hit_search(rects@, stops@, vis@, col as int, row as int, i as int, best,
                    match found { Some(k) => Some(k as int), None => None::<int> }),
        decreases rects@.len() - i,
    {
        let rect = rects[i];
        if rect.is_point_within(col, row) && vis[i] && best.is_rect_within(&rect) {
            if stops[i] {
                proof {
                    lemma_hit_search_hits(rects@, stops@, vis@, col as int, row as int, 0, whole_screen(), None);
                }
                return Some(i);
            }
            best = rect;
            found = Some(i);
        }
        i = i + 1;
    }
    proof {
        lemma_hit_search_hits(rects@, stops@, vis@, col as int, row as int, 0, whole_screen(), None);
    }
    found
}

/// Width of the text the window gives for a button with neither a text nor a width of its own;
/// 0 for any other widget
pub open spec fn asked_width<W: WindowState>(ws: &W, w: Widget) -> int {
    match w.prop {
        Property::Button(p) => if p.text@.len() == 0 && w.size.width == 0 {
            displayed_width_of(ws.button_text_spec(w))
        } else {
            0
        },
        _ => 0,
    }
}

/// The widths `asked_width` gives for each widget of the window
pub open spec fn asked_widths<W: WindowState>(ws: &W) -> Seq<int> {
    Seq::new(ws.widgets_spec().len(), |k: int| asked_width(ws, ws.widgets_spec()[k]))
}

/// The areas of the window's widgets that answer the mouse, at their screen positions; `aws[k]`
/// is the width of the text the window gives for widget `k` when it is a button without text
/// and width of its own
pub open spec fn hit_rects<W: WindowState>(ws: &W, aws: Seq<int>) -> Seq<Rect> {
    Seq::new(ws.widgets_spec().len(), |k: int| Rect {
        coord: screen_pos(ws.widgets_spec(), ws.widgets_spec()[k], ws.window_coord_spec()),
        size: hit_area(ws.widgets_spec()[k], aws[k]).0,
    })
}

/// Whether a hit on each widget of the window ends the search
pub open spec fn hit_stops<W: WindowState>(ws: &W, aws: Seq<int>) -> Seq<bool> {
    Seq::new(ws.widgets_spec().len(), |k: int| hit_area(ws.widgets_spec()[k], aws[k]).1)
}

/// Whether each widget of the window is under `col:row` and shown
pub open spec fn hit_vis<W: WindowState>(ws: &W, aws: Seq<int>, col: int, row: int) -> Seq<bool> {
    Seq::new(ws.widgets_spec().len(), |k: int| point_in_rect(hit_rects(ws, aws)[k], col, row)
        && shown_chain(ws, ws.widgets_spec(), ws.widgets_spec()[k], 0))
}

/// Index of the widget of the window under `col:row`: the hit search over the window's widgets
pub open spec fn hit_at<W: WindowState>(ws: &W, aws: Seq<int>, col: int, row: int) -> Option<int> {
    hit_search(hit_rects(ws, aws), hit_stops(ws, aws), hit_vis(ws, aws, col, row), col, row, 0, whole_screen(), None)
}

/// The widget a reference points at, if any
pub open spec fn widget_of(r: Option<&Widget>) -> Option<Widget> {
    match r {
        Some(w) => Some(*w),
        None => None,
    }
}

/// `r` and `rect` are what finding the widget under `col:row` gives: the widget the hit search
/// picks and its area, or none and the rectangle `rect0` kept
pub open spec fn found_at<W: WindowState>(ws: &W, col: int, row: int, r: Option<Widget>, rect: Rect, rect0: Rect) -> bool {
    let aws = asked_widths(ws);
    match hit_at(ws, aws, col, row) {
        Some(k) => r == Some(ws.widgets_spec()[k]) && rect == hit_rects(ws, aws)[k],
        None => r is None && rect == rect0,
    }
}

/// Finds visible Widget at cursor position `col:row`;
/// Sets `wgt_rect` to found widget screen-based coordinates
pub fn find_at<W: WindowState>(ws: &mut W, col: u8, row: u8, wgt_rect: &mut Rect) -> (r: Option<&'static Widget>)
    ensures
        r is Some ==> point_in_rect(*final(wgt_rect), col as int, row as int),
        r matches Some(w) ==> hit_area_sized(*w, final(wgt_rect).size),
        r matches Some(w) ==> found_in(old(ws), *w, final(wgt_rect).coord),
        r is None ==> *final(wgt_rect) == *old(wgt_rect),
        found_at(old(ws), col as int, row as int, widget_of(r), *final(wgt_rect), *old(wgt_rect)),
        same_answers(old(ws), final(ws)),
{
    let wgts = ws.get_widgets();
    let mut rects: Vec<Rect> = Vec::new();
    let mut stops: Vec<bool> = Vec::new();
    let mut vis: Vec<bool> = Vec::new();
    let ghost mut aws: Seq<int> = Seq::empty();
    let mut i: usize = 0;
    while i < wgts.len()
        invariant
            i <= wgts@.len(),
            rects@.len() == i,
            stops@.len() == i,
            vis@.len() == i,
            aws.len() == i,
            forall|k: int| 0 <= k < i ==> aws[k] == #[trigger] asked_widths(old(ws))[k],
            wgts@ == old(ws).widgets_spec(),
            same_answers(old(ws), ws),
            forall|k: int| 0 <= k < i ==> #[trigger] rects@[k] == (Rect {
                coord: screen_pos(wgts@, wgts@[k], old(ws).window_coord_spec()),
                size: hit_area(wgts@[k], aws[k]).0,
            }),
            forall|k: int| 0 <= k < i ==> #[trigger] stops@[k] == hit_area(wgts@[k], aws[k]).1,
            forall|k: int| 0 <= k < i ==> #[trigger] vis@[k] == (point_in_rect(rects@[k], col as int, row as int)
                && shown_chain(old(ws), wgts@, wgts@[k], 0)),
        decreases wgts@.len() - i,
    {
        let wgt: &'static Widget = &wgts[i];
        let coord = get_screen_coord(ws, wgt);
        let asked_w: usize = match wgt.prop {
            Property::Button(p) => {
                if p.text.unicode_len() == 0 && wgt.size.width == 0 {
                    let mut s = String::new();
                    ws.get_button_text(wgt, &mut s);
                    s.as_str().displayed_width()
                } else {
                    0
                }
            },
            _ => 0,
        };
        let (size, stop) = hit_area_of(wgt, asked_w);
        let rect = Rect { coord: coord, size: size };
        // only a widget under the mouse is asked whether it is visible
        let visible = if rect.is_point_within(col, row) { is_visible(ws, wgt) } else { false };
        proof {
            lemma_shown_chain_same(old(ws), ws, wgts@, *wgt, 0);
        }
        let ghost prev = rects@;
        let ghost prev_stops = stops@;
        let ghost prev_vis = vis@;
        let ghost prev_aws = aws;
        rects.push(rect);
        stops.push(stop);
        vis.push(visible);
        proof {
            aws = aws.push(asked_w as int);
            assert forall|k: int| 0 <= k < i + 1 implies aws[k] == #[trigger] asked_widths(old(ws))[k] by {
                if k < i {
                    assert(aws[k] == prev_aws[k]);
                }
            }
            assert forall|k: int| 0 <= k < i + 1 implies #[trigger] rects@[k] == (Rect {
                coord: screen_pos(wgts@, wgts@[k], old(ws).window_coord_spec()),
                size: hit_area(wgts@[k], aws[k]).0,
            }) by {
                if k < i {
                    assert(rects@[k] == prev[k]);
                    assert(aws[k] == prev_aws[k]);
                }
            }
            assert forall|k: int| 0 <= k < i + 1 implies #[trigger] stops@[k] == hit_area(wgts@[k], aws[k]).1 by {
                if k < i {
                    assert(stops@[k] == prev_stops[k]);
                    assert(aws[k] == prev_aws[k]);
                }
            }
            assert forall|k: int| 0 <= k < i + 1 implies #[trigger] vis@[k] == (point_in_rect(rects@[k], col as int, row as int)
                && shown_chain(old(ws), wgts@, wgts@[k], 0)) by {
                if k < i {
                    assert(vis@[k] == prev_vis[k]);
                    assert(rects@[k] == prev[k]);
                }
            }
        }
        i = i + 1;
    }
    proof {
        assert(aws =~= asked_widths(old(ws)));
        assert(rects@ =~= hit_rects(old(ws), aws));
        assert(stops@ =~= hit_stops(old(ws), aws));
        assert(vis@ =~= hit_vis(old(ws), aws, col as int, row as int));
    }
    match find_hit(rects.as_slice(), stops.as_slice(), vis.as_slice(), col, row) {
        Some(k) => {
            *wgt_rect = rects[k];
            assert(wgts@[k as int] == old(ws).widgets_spec()[k as int]);
            proof {
                assert(hit_area_sized(wgts@[k as int], rects@[k as int].size));
                assert(found_at(old(ws), col as int, row as int, Some(wgts@[k as int]), *wgt_rect, *old(wgt_rect)));
            }
            Some(&wgts[k])
        },
        None => {
            assert(found_at(old(ws), col as int, row as int, None::<Widget>, *wgt_rect, *old(wgt_rect)));
            None
        },
    }
}

/// `w` is one of the widgets of the window `ws`, placed at `coord` on screen and shown
pub open spec fn found_in<W: WindowState>(ws: &W, w: Widget, coord: Coord) -> bool {
    &&& exists|k: int| 0 <= k < ws.widgets_spec().len() && #[trigger] ws.widgets_spec()[k] == w
    &&& coord == screen_pos(ws.widgets_spec(), w, ws.window_coord_spec())
    &&& shown_chain(ws, ws.widgets_spec(), w, 0)
}

/// Two window states that give the same answers show the same widgets
pub proof fn lemma_shown_chain_same<W: WindowState>(a: &W, b: &W, wgts: Seq<Widget>, cur: Widget, steps: nat)
    requires
        same_answers(a, b),
    ensures
        shown_chain(a, wgts, cur, steps) == shown_chain(b, wgts, cur, steps),
    decreases wgts.len() - steps,
{
    assert(a.visible_spec(cur) == b.visible_spec(cur));
    if !(cur.link.own_idx == 0 || steps >= wgts.len()) {
        lemma_shown_chain_same(a, b, wgts, parent_of(wgts, cur), steps + 1);
    }
}

/// Two window states that give the same answers have the same widgets enabled
pub proof fn lemma_enabled_chain_same<W: WindowState>(a: &W, b: &W, wgts: Seq<Widget>, cur: Widget, steps: nat)
    requires
        same_answers(a, b),
    ensures
        enabled_chain(a, wgts, cur, steps) == enabled_chain(b, wgts, cur, steps),
    decreases wgts.len() - steps,
{
    assert(a.enabled_spec(cur) == b.enabled_spec(cur));
    if !(cur.link.own_idx == 0 || steps >= wgts.len()) {
        lemma_enabled_chain_same(a, b, wgts, parent_of(wgts, cur), steps + 1);
    }
}

/// What the search finds is under the point, or was found before it started
pub proof fn lemma_hit_search_hits(
    rects: Seq<Rect>,
    stops: Seq<bool>,
    vis: Seq<bool>,
    col: int,
    row: int,
    i: int,
    best: Rect,
    found: Option<int>,
)
    requires
        0 <= i,
        stops.len() == rects.len(),
        vis.len() == rects.len(),
    ensures
        hit_search(rects, stops, vis, col, row, i, best, found) matches Some(k) ==> (
            found == Some(k) || (i <= k < rects.len() && point_in_rect(rects[k], col, row) && vis[k])),
    decreases rects.len() - i,
{
    if i < rects.len() {
        if point_in_rect(rects[i], col, row) && vis[i] && rect_in_rect(best, rects[i]) {
            if !stops[i] {
                lemma_hit_search_hits(rects, stops, vis, col, row, i + 1, rects[i], Some(i));
            }
        } else {
            lemma_hit_search_hits(rects, stops, vis, col, row, i + 1, best, found);
        }
    }
}

/// Column of a text edit's cursor: stepped back by `delta`, half the edit's width, while the cursor
/// position `cur` does not fit in the edit's `max_w` columns
pub open spec fn edit_cursor_col(col: u8, cur: int, max_w: int, delta: u8) -> u8
    decreases cur + 128,
{
    if 0 < delta && delta <= 127 && cur >= -128 && max_w >= 0 && cur >= max_w - 1 {
        edit_cursor_col(col.wrapping_sub(delta), cur - delta, max_w, delta)
    } else {
        col
    }
}

/// Remainder of a division rounded toward zero, as Rust's `%` computes it: it has the sign of `a`
pub open spec fn trunc_rem(a: int, b: int) -> int {
    if a >= 0 { a % b } else { -((-a) % b) }
}

/// Screen position the cursor is put at for a widget whose screen position is `coord`: `te_id`
/// and `te_cursor` are the edited widget and its cursor position, `page_idx` the page a page
/// control shows, `sel_idx` the item a list box has selected
pub open spec fn cursor_spot(wgt: Widget, coord: Coord, te_id: WId, te_cursor: i16, page_idx: i16, sel_idx: i16) -> Coord {
    match wgt.prop {
        Property::TextEdit(_) => {
            if wgt.id == te_id {
                let max_w = wgt.size.width.wrapping_sub(3);
                let col = coord.col.wrapping_add(te_cursor as u8);
                Coord { col: edit_cursor_col(col, te_cursor as int, max_w as int, max_w / 2), ..coord }
            } else {
                Coord { col: coord.col.wrapping_add(wgt.size.width.wrapping_sub(2)), ..coord }
            }
        },
        Property::CheckBox(_) => Coord { col: coord.col.wrapping_add(1), ..coord },
        Property::Radio(_) => Coord { col: coord.col.wrapping_add(1), ..coord },
        Property::Button(p) => match p.style {
            ButtonStyle::Simple => Coord { col: coord.col.wrapping_add(2), ..coord },
            ButtonStyle::Solid => Coord { col: coord.col.wrapping_add(1), ..coord },
            ButtonStyle::Solid1p5 => Coord { col: coord.col.wrapping_add(1), row: coord.row.wrapping_add(1) },
        },
        Property::PageCtrl(p) => Coord {
            row: coord.row.wrapping_add(1).wrapping_add(p.vert_offs).wrapping_add(page_idx as u8),
            ..coord
        },
        Property::ListBox(p) => {
            let frame: u8 = if p.no_frame { 1 } else { 0 };
            let page_size = wgt.size.height.wrapping_sub((frame * 2) as u8);
            let row: i16 = if page_size > 0 { trunc_rem(sel_idx as int, page_size as int) as i16 } else { 0 };
            Coord { col: coord.col.wrapping_add(frame), row: coord.row.wrapping_add(frame).wrapping_add(row as u8) }
        },
        _ => coord,
    }
}

/// Computes `cursor_spot`
pub fn cursor_spot_of(wgt: &Widget, coord: Coord, te_id: WId, te_cursor: i16, page_idx: i16, sel_idx: i16) -> (c: Coord)
    ensures
        c == cursor_spot(*wgt, coord, te_id, te_cursor, page_idx, sel_idx),
{
    let ghost c0 = coord;
    let mut coord = coord;
    match wgt.prop {
        Property::TextEdit(_) => {
            if wgt.id == te_id {
                let max_w: u8 = wgt.size.width.wrapping_sub(3);
                coord.col = coord.col.wrapping_add(te_cursor as u8);
                let mut cursor_pos: i32 = te_cursor as i32;
                let delta: u8 = max_w / 2;
                let ghost col0 = coord.col;
                while delta > 0 && cursor_pos >= -128 && cursor_pos >= max_w as i32 - 1
                    invariant
                        delta == max_w / 2,
                        coord.row == c0.row,
                        -32768 - 128 <= cursor_pos <= 32767,
                        edit_cursor_col(coord.col, cursor_pos as int, max_w as int, delta)
                            == edit_cursor_col(col0, te_cursor as int, max_w as int, delta),
                    decreases cursor_pos + 128,
                {
                    coord.col = coord.col.wrapping_sub(delta);
                    cursor_pos = cursor_pos - delta as i32;
                }
            } else {
                coord.col = coord.col.wrapping_add(wgt.size.width.wrapping_sub(2));
            }
        },
        Property::CheckBox(_) => {
            coord.col = coord.col.wrapping_add(1);
        },
        Property::Radio(_) => {
            coord.col = coord.col.wrapping_add(1);
        },
        Property::Button(p) => {
            match p.style {
                ButtonStyle::Simple => {
                    coord.col = coord.col.wrapping_add(2);
                },
                ButtonStyle::Solid => {
                    coord.col = coord.col.wrapping_add(1);
                },
                ButtonStyle::Solid1p5 => {
                    coord.col = coord.col.wrapping_add(1);
                    coord.row = coord.row.wrapping_add(1);
                },
            }
        },
        Property::PageCtrl(p) => {
            coord.row = coord.row.wrapping_add(1).wrapping_add(p.vert_offs);
            coord.row = coord.row.wrapping_add(page_idx as u8);
        },
        Property::ListBox(p) => {
            let frame_size: u8 = if p.no_frame { 1 } else { 0 };
            let page_size: u8 = wgt.size.height.wrapping_sub(frame_size * 2);
            let row: i16 = if page_size > 0 { sel_idx % (page_size as i16) } else { 0 };
            coord.col = coord.col.wrapping_add(frame_size);
            coord.row = coord.row.wrapping_add(frame_size).wrapping_add(row as u8);
            assert(coord == cursor_spot(*wgt, c0, te_id, te_cursor, page_idx, sel_idx));
        },
        _ => {},
    }
    coord
}

/// Move cursor to the best position for given type of the widget
/// The page a page control shows; 0 for other widgets
pub open spec fn shown_page_of<W: WindowState>(ws: &W, wgt: Widget) -> i16 {
    if wgt.prop is PageCtrl {
        ws.page_index_spec(wgt)
    } else {
        0
    }
}

pub fn set_cursor_at<P: Pal, W: WindowState>(term: &mut Term<P>, ws: &mut W, wst: &WidgetState, wgt: &Widget)
    ensures
        final(term).font() == old(term).font(),
        final(term).logs_row == old(term).logs_row,
        exists|sel_idx: i16| {
            let c = #[trigger] cursor_spot(
                *wgt,
                screen_pos(old(ws).widgets_spec(), *wgt, old(ws).window_coord_spec()),
                wst.text_edit_state.wgt_id,
                wst.text_edit_state.cursor_pos,
                shown_page_of(old(ws), *wgt),
                sel_idx,
            );
            final(term).sent@ == old(term).sent@ + cursor_goto_seq(c.row as nat, c.col as nat)
        },
        same_answers(old(ws), final(ws)),
{
    let coord = get_screen_coord(ws, wgt);
    let ghost w1 = *ws;
    let page_idx: i16 = match wgt.prop {
        Property::PageCtrl(_) => ws.get_page_ctrl_page_index(wgt),
        _ => 0,
    };
    assert(page_idx == shown_page_of(old(ws), *wgt)) by {
        assert(w1.page_index_spec(*wgt) == old(ws).page_index_spec(*wgt));
    }
    let ghost w2 = *ws;
    let sel_idx: i16 = match wgt.prop {
        Property::ListBox(_) => {
            let mut lbs = LbxState::default();
            ws.get_list_box_state(wgt, &mut lbs);
            lbs.sel_idx
        },
        _ => 0,
    };
    proof {
        lemma_same_answers_trans(old(ws), &w1, &w2);
        lemma_same_answers_trans(old(ws), &w2, ws);
    }
    let c = cursor_spot_of(wgt, coord, wst.text_edit_state.wgt_id, wst.text_edit_state.cursor_pos, page_idx, sel_idx);
    term.move_to(c.col as u16, c.row as u16);
    assert(c == cursor_spot(
        *wgt,
        screen_pos(old(ws).widgets_spec(), *wgt, old(ws).window_coord_spec()),
        wst.text_edit_state.wgt_id,
        wst.text_edit_state.cursor_pos,
        shown_page_of(old(ws), *wgt),
        sel_idx,
    ));
}

// ---------------------------------------------------------------------------------------------- //
// ---- FOCUS ----------------------------------------------------------------------------------- //

/// Widget types that can take the focus
pub open spec fn is_focusable_type(p: Property) -> bool {
    p is TextEdit || p is CheckBox || p is Radio || p is Button || p is ListBox || p is ComboBox || p is TextBox
}

/// A widget can take the focus when it is of a focusable type and enabled
fn is_focusable<W: WindowState>(ws: &W, wgt: &Widget) -> (r: bool)
    ensures
        r == (is_focusable_type(wgt.prop) && enabled_chain(ws, ws.widgets_spec(), *wgt, 0)),
{
    match wgt.prop {
        Property::TextEdit(_) | Property::CheckBox(_) | Property::Radio(_) | Property::Button(_)
        | Property::ListBox(_) | Property::ComboBox(_) | Property::TextBox(_) => is_enabled(ws, wgt),
        _ => false,
    }
}

/// A widget of the given id exists and can take the focus
fn is_focusable_by_id<W: WindowState>(ws: &W, widget_id: WId) -> (r: bool)
    ensures
        r == (match widget_by_id(ws.widgets_spec(), widget_id) {
            Some(w) => is_focusable_type(w.prop) && enabled_chain(ws, ws.widgets_spec(), w, 0),
            None => false,
        }),
{
    match find_by_id(ws.get_widgets(), widget_id) {
        Some(wgt) => is_focusable(ws, wgt),
        None => false,
    }
}

/// Bounds of the children of a parent widget in the flat array, as `children_range`
fn children_bounds(wgts: &[Widget], parent: &Widget) -> (r: (usize, usize))
    ensures
        r.0 as int == children_range(wgts@, *parent).0,
        r.1 as int == children_range(wgts@, *parent).1,
        r.0 <= r.1 <= wgts@.len(),
{
    let lo0 = parent.link.children_idx as usize;
    let hi0 = lo0 + parent.link.children_cnt as usize;
    let lo = if lo0 < wgts.len() { lo0 } else { wgts.len() };
    let hi1 = if hi0 < wgts.len() { hi0 } else { wgts.len() };
    let hi = if hi1 < lo { lo } else { hi1 };
    (lo, hi)
}

/// Index of the parent of the widget at `idx`; the widget's own index when its parent index is
/// out of range
fn parent_index(wgts: &[Widget], idx: usize) -> (r: usize)
    requires
        idx < wgts@.len(),
    ensures
        r < wgts@.len(),
        wgts@[r as int] == parent_of(wgts@, wgts@[idx as int]),
        r as int == parent_index_of(wgts@, idx as int),
{
    let p = wgts[idx].link.parent_idx as usize;
    if p < wgts.len() { p } else { idx }
}

/// The search for the next widget to focus returns to where it started: the parent at `p` is the
/// first parent of the search
pub open spec fn loops_back(wgts: Seq<Widget>, p: int, first: Option<usize>) -> bool {
    first matches Some(f) && wgts[p].link.own_idx == wgts[f as int].link.own_idx && wgts[p].id == wgts[f as int].id
}

/// Parent types whose own children the focus search goes through
pub open spec fn plain_parent_type(p: Property) -> bool {
    p is Window || p is Panel || p is Page || p is Layer
}

/// The focus search among the children of the widget at `p` goes on past its first checks
pub open spec fn search_starts(wgts: Seq<Widget>, p: int, first: Option<usize>, focused_id: WId, fuel: usize) -> bool {
    &&& fuel > 0
    &&& !loops_back(wgts, p, first)
    &&& wgts[p].id != focused_id
    &&& plain_parent_type(wgts[p].prop)
}

/// The child at the border the search starts from when nothing is focused: the first one going
/// forward, the last one going backward
pub open spec fn border_child(wgts: Seq<Widget>, p: int, forward: bool) -> int {
    if forward { children_range(wgts, wgts[p]).0 } else { children_range(wgts, wgts[p]).1 - 1 }
}

/// The child at position `i` of the widget at `p` is the first of its children with the id
pub open spec fn first_child_with_id(wgts: Seq<Widget>, p: int, id: WId, i: int) -> bool {
    let lo = children_range(wgts, wgts[p]).0;
    &&& 0 <= i < children_range(wgts, wgts[p]).1 - lo
    &&& wgts[lo + i].id == id
    &&& forall|k: int| 0 <= k < i ==> #[trigger] wgts[lo + k].id != id
}

/// The position next to `i` in the given direction
pub open spec fn next_to(i: int, forward: bool) -> int {
    if forward { i + 1 } else { i - 1 }
}

/// Index of the widget whose children the focus search goes through, for the widget at `p`:
/// the widget itself for a plain parent, the page shown for a page control; none for others
pub open spec fn search_parent(wgts: Seq<Widget>, page_of: Seq<i16>, p: int) -> Option<int> {
    let w = wgts[p];
    if plain_parent_type(w.prop) {
        Some(p)
    } else if w.prop is PageCtrl {
        let idx = page_of[p];
        if 0 <= idx < w.link.children_cnt && w.link.children_idx + idx < wgts.len() {
            Some(w.link.children_idx + idx)
        } else {
            None
        }
    } else {
        None
    }
}

/// The first panel, page or layer the focus search went through: `par` when none was before
pub open spec fn next_first_parent(wgts: Seq<Widget>, par: int, first: Option<usize>) -> Option<usize> {
    if (wgts[par].prop is Page || wgts[par].prop is Panel || wgts[par].prop is Layer) && first is None {
        Some(par as usize)
    } else {
        first
    }
}

/// Index of the parent of the widget at `i`; `i` itself when its parent index is out of range
pub open spec fn parent_index_of(wgts: Seq<Widget>, i: int) -> int {
    if (wgts[i].link.parent_idx as int) < wgts.len() {
        wgts[i].link.parent_idx as int
    } else {
        i
    }
}

/// The focus search among the children of the widget at `p`: the widget that gets the focus,
/// and whether a full loop over the widgets was detected. It starts from the focused child (or,
/// when `fid` is none, from the first child going forward and the last going backward, descending
/// into it when it is a parent), then goes through the children by `focus_scan`
pub open spec fn focus_search(
    wgts: Seq<Widget>,
    can_focus: Seq<bool>,
    page_of: Seq<i16>,
    p: int,
    fid: WId,
    fwd: bool,
    first: Option<usize>,
    fuel: nat,
) -> (Option<int>, bool)
    decreases fuel, 1int, 0int,
{
    if fuel == 0 || !(0 <= p < wgts.len()) {
        (None, false)
    } else if loops_back(wgts, p, first) {
        (None, true)
    } else if wgts[p].id == fid {
        (None, false)
    } else {
        match search_parent(wgts, page_of, p) {
            None => (None, false),
            Some(par) => {
                let lo = children_range(wgts, wgts[par]).0;
                let hi = children_range(wgts, wgts[par]).1;
                let first2 = next_first_parent(wgts, par, first);
                if hi - lo <= 0 {
                    (None, false)
                } else if fid == WIDGET_ID_NONE {
                    let start = if fwd { 0 } else { hi - lo - 1 };
                    let child = lo + start;
                    if can_focus[child] {
                        (Some(child), false)
                    } else {
                        let sub = if is_parent_type(wgts[child].prop) {
                            focus_search(wgts, can_focus, page_of, child, WIDGET_ID_NONE, fwd, first2, (fuel - 1) as nat)
                        } else {
                            (None, false)
                        };
                        if sub.0 is Some {
                            sub
                        } else {
                            (focus_scan(wgts, can_focus, page_of, par, fwd, first2, fuel, start, 0), sub.1)
                        }
                    }
                } else {
                    match first_with_id(wgts.subrange(lo, hi), fid, 0) {
                        None => (None, false),
                        Some(i) => (focus_scan(wgts, can_focus, page_of, par, fwd, first2, fuel, i, 0), false),
                    }
                }
            },
        }
    }
}

/// The focus search going through the children of the widget at `par` from position `idx`, `n`
/// steps taken: the next child in the given direction takes the focus, or is a parent whose
/// search gives the answer; at the border a panel or a layer hands the search to its parent,
/// from the panel or layer on, and others turn around; after as many steps as there are children,
/// there is none
pub open spec fn focus_scan(
    wgts: Seq<Widget>,
    can_focus: Seq<bool>,
    page_of: Seq<i16>,
    par: int,
    fwd: bool,
    first: Option<usize>,
    fuel: nat,
    idx: int,
    n: int,
) -> Option<int>
    decreases fuel, 0int, children_range(wgts, wgts[par]).1 - children_range(wgts, wgts[par]).0 - n,
{
    let lo = children_range(wgts, wgts[par]).0;
    let cnt = children_range(wgts, wgts[par]).1 - lo;
    if fuel == 0 || n < 0 || n >= cnt {
        None
    } else {
        let i1 = next_to(idx, fwd);
        let border = i1 == cnt || i1 == -1;
        if border && (wgts[par].prop is Panel || wgts[par].prop is Layer) {
            focus_search(wgts, can_focus, page_of, parent_index_of(wgts, par), wgts[par].id, fwd, first, (fuel - 1) as nat).0
        } else {
            let i2 = if border {
                if i1 >= cnt { 0 } else { cnt - 1 }
            } else {
                i1
            };
            let child = lo + i2;
            if can_focus[child] {
                Some(child)
            } else if is_parent_type(wgts[child].prop) {
                let sub = focus_search(wgts, can_focus, page_of, child, WIDGET_ID_NONE, fwd, first, (fuel - 1) as nat);
                if sub.0 is Some {
                    sub.0
                } else if sub.1 {
                    None
                } else {
                    focus_scan(wgts, can_focus, page_of, par, fwd, first, fuel, i2, n + 1)
                }
            } else {
                focus_scan(wgts, can_focus, page_of, par, fwd, first, fuel, i2, n + 1)
            }
        }
    }
}

/// The first widget of `s` from position 0 on with the id is at `i`, when none before it has it
proof fn lemma_first_with_id_at(s: Seq<Widget>, id: WId, i: int, j: int)
    requires
        0 <= j <= i < s.len(),
        s[i].id == id,
        forall|k: int| 0 <= k < i ==> #[trigger] s[k].id != id,
    ensures
        first_with_id(s, id, j) == Some(i),
    decreases i - j,
{
    if j < i {
        lemma_first_with_id_at(s, id, i, j + 1);
    }
}

/// No widget of `s` from position `j` on has the id
proof fn lemma_first_with_id_none(s: Seq<Widget>, id: WId, j: int)
    requires
        0 <= j,
        forall|k: int| j <= k < s.len() ==> #[trigger] s[k].id != id,
    ensures
        first_with_id(s, id, j) is None,
    decreases s.len() - j,
{
    if j < s.len() {
        lemma_first_with_id_none(s, id, j + 1);
    }
}

/// Next widget to focus among the children of the widget at `parent_in`, searching from the
/// focused one (or from the border when `focused_id` is none) in the given direction, descending
/// into parent-type children and climbing out of panels and layers. `can_focus[k]` tells whether
/// widget `k` takes the focus now (of a focusable type, enabled and visible, it and its parents),
/// `page_of[k]` which page the page control `k` shows; `fuel` bounds the recursion. The answer is
/// the index of a widget that takes the focus, as `focus_search` gives it; `break_search` is set
/// when the search detected a full loop
#[verifier::rlimit(40)]
pub fn next_focusable_in(
    wgts: &[Widget],
    can_focus: &[bool],
    page_of: &[i16],
    parent_in: usize,
    focused_id: WId,
    forward: bool,
    first_parent_in: Option<usize>,
    break_search: &mut bool,
    fuel: usize,
) -> (r: Option<usize>)
    requires
        can_focus@.len() == wgts@.len(),
        page_of@.len() == wgts@.len(),
        parent_in < wgts@.len(),
        first_parent_in matches Some(f) ==> f < wgts@.len(),
    ensures
        r matches Some(k) ==> k < wgts@.len() && can_focus@[k as int],
        fuel == 0 ==> r is None,
        fuel > 0 && !loops_back(wgts@, parent_in as int, first_parent_in) && wgts@[parent_in as int].id == focused_id
            ==> r is None,
        search_starts(wgts@, parent_in as int, first_parent_in, focused_id, fuel) && focused_id == WIDGET_ID_NONE
            && children_range(wgts@, wgts@[parent_in as int]).0 < children_range(wgts@, wgts@[parent_in as int]).1
            && can_focus@[border_child(wgts@, parent_in as int, forward)]
            ==> r == Some(border_child(wgts@, parent_in as int, forward) as usize),
        forall|i: int|
            #![trigger wgts@[children_range(wgts@, wgts@[parent_in as int]).0 + i]]
            search_starts(wgts@, parent_in as int, first_parent_in, focused_id, fuel) && focused_id != WIDGET_ID_NONE
                && first_child_with_id(wgts@, parent_in as int, focused_id, i)
                && 0 <= next_to(i, forward) < children_range(wgts@, wgts@[parent_in as int]).1
                    - children_range(wgts@, wgts@[parent_in as int]).0
                && can_focus@[children_range(wgts@, wgts@[parent_in as int]).0 + next_to(i, forward)]
                ==> r == Some((children_range(wgts@, wgts@[parent_in as int]).0 + next_to(i, forward)) as usize),
        search_starts(wgts@, parent_in as int, first_parent_in, focused_id, fuel) && focused_id != WIDGET_ID_NONE
            && (forall|k: int|
                children_range(wgts@, wgts@[parent_in as int]).0 <= k < children_range(wgts@, wgts@[parent_in as int]).1
                    ==> #[trigger] wgts@[k].id != focused_id)
            ==> r is None,
        ({
            let (sr, sb) = focus_search(wgts@, can_focus@, page_of@, parent_in as int, focused_id, forward, first_parent_in, fuel as nat);
            &&& sr == (match r { Some(k) => Some(k as int), None => None::<int> })
            &&& *final(break_search) == (*old(break_search) || sb)
        }),
    decreases fuel,
{
    if fuel == 0 {
        return None;
    }
    let mut parent: usize = parent_in;
    let mut first_parent = first_parent_in;
    match first_parent {
        Some(fp) => {
            if wgts[parent].link.own_idx == wgts[fp].link.own_idx && wgts[parent].id == wgts[fp].id {
                // full loop detected
                *break_search = true;
                return None;
            }
        },
        None => {},
    }
    if wgts[parent].id == focused_id {
        return None;
    }
    // get childrens and their number
    match wgts[parent].prop {
        Property::Window(_) | Property::Panel(_) | Property::Page(_) | Property::Layer(_) => {},
        Property::PageCtrl(_) => {
            // get selected page childrens
            let idx = page_of[parent];
            if idx >= 0 && (idx as u16) < wgts[parent].link.children_cnt {
                let pi = wgts[parent].link.children_idx as usize + idx as usize;
                if pi < wgts.len() {
                    parent = pi;
                } else {
                    return None;
                }
            } else {
                return None;
            }
        },
        _ => {
            // not a parent type widget
            return None;
        },
    }
    let (lo, hi) = children_bounds(wgts, &wgts[parent]);
    let child_cnt = hi - lo;
    assert(child_cnt <= 65535);
    if child_cnt == 0 {
        return None;
    }
    match wgts[parent].prop {
        Property::Page(_) | Property::Panel(_) | Property::Layer(_) => {
            if first_parent.is_none() {
                // it must be Panel/Page/Layer because while traversing we never step below Page level
                first_parent = Some(parent);
            }
        },
        _ => {},
    }
    // child position; -1 and `child_cnt` are the borders
    let mut child_idx: i64 = 0;
    if focused_id == WIDGET_ID_NONE {
        // get first/last of the children ID
        child_idx = if forward { 0 } else { child_cnt as i64 - 1 };
        let child: usize = lo + child_idx as usize;
        if can_focus[child] {
            return Some(child);
        }
        if is_parent(&wgts[child]) {
            match next_focusable_in(wgts, can_focus, page_of, child, WIDGET_ID_NONE, forward, first_parent, break_search, fuel - 1) {
                Some(nf) => {
                    return Some(nf);
                },
                None => {},
            }
        }
    } else {
        // get pointer to focusedID
        while child_idx < child_cnt as i64 && wgts[lo + child_idx as usize].id != focused_id
            invariant
                0 <= child_idx <= child_cnt,
                forall|k: int| 0 <= k < child_idx ==> #[trigger] wgts@[lo + k].id != focused_id,
                lo + child_cnt == hi,
                lo + child_cnt <= wgts@.len(),
                child_cnt <= 65535,
            decreases child_cnt - child_idx,
        {
            child_idx = child_idx + 1;
        }
        if child_idx >= child_cnt as i64 {
            // focused ID not found on the parent
            proof {
                let sub = wgts@.subrange(lo as int, hi as int);
                assert forall|k: int| 0 <= k < sub.len() implies #[trigger] sub[k].id != focused_id by {
                    assert(sub[k] == wgts@[lo + k]);
                }
                lemma_first_with_id_none(sub, focused_id, 0);
            }
            return None;
        }
        proof {
            let sub = wgts@.subrange(lo as int, hi as int);
            assert forall|k: int| 0 <= k < child_idx implies #[trigger] sub[k].id != focused_id by {
                assert(sub[k] == wgts@[lo + k]);
            }
            assert(sub[child_idx as int] == wgts@[lo + child_idx]);
            lemma_first_with_id_at(sub, focused_id, child_idx as int, 0);
        }
    }
    // iterate until focusable found or children border reached
    let mut n: usize = 0;
    let ghost start = child_idx as int;
    while n < child_cnt
        invariant
            0 <= child_idx < child_cnt,
            0 <= start < child_cnt,
            n == 0 ==> child_idx == start,
            n >= 1 ==> !(0 <= next_to(start, forward) < child_cnt && can_focus@[lo + next_to(start, forward)]),
            focused_id == WIDGET_ID_NONE ==> start == (if forward { 0 } else { child_cnt - 1 }) && !can_focus@[lo + start],
            focused_id != WIDGET_ID_NONE ==> wgts@[lo + start].id == focused_id
                && forall|k: int| 0 <= k < start ==> #[trigger] wgts@[lo + k].id != focused_id,
            lo as int == children_range(wgts@, wgts@[parent as int]).0,
            hi as int == children_range(wgts@, wgts@[parent as int]).1,
            plain_parent_type(wgts@[parent_in as int].prop) ==> parent == parent_in,
            wgts@[parent_in as int].id != focused_id,
            lo + child_cnt == hi,
            lo + child_cnt <= wgts@.len(),
            child_cnt <= 65535,
            fuel > 0,
            parent < wgts@.len(),
            can_focus@.len() == wgts@.len(),
            page_of@.len() == wgts@.len(),
            first_parent matches Some(f) ==> f < wgts@.len(),
            n <= child_cnt,
            search_parent(wgts@, page_of@, parent_in as int) == Some(parent as int),
            first_parent == next_first_parent(wgts@, parent as int, first_parent_in),
            focus_scan(wgts@, can_focus@, page_of@, parent as int, forward, first_parent, fuel as nat, child_idx as int, n as int)
                == focus_search(wgts@, can_focus@, page_of@, parent_in as int, focused_id, forward, first_parent_in, fuel as nat).0,
            *break_search == (*old(break_search) || focus_search(wgts@, can_focus@, page_of@, parent_in as int, focused_id, forward, first_parent_in, fuel as nat).1),
        decreases child_cnt - n,
    {
        n = n + 1;
        child_idx = if forward { child_idx + 1 } else { child_idx - 1 };
        if child_idx == child_cnt as i64 || child_idx == -1 {
            // border reached: if we are on Panel or Layer, jump to next sibling
            match wgts[parent].prop {
                Property::Panel(_) | Property::Layer(_) => {
                    let parents_parent = parent_index(wgts, parent);
                    let mut brk = false;
                    return next_focusable_in(wgts, can_focus, page_of, parents_parent, wgts[parent].id, forward, first_parent, &mut brk, fuel - 1);
                },
                _ => {},
            }
            // make a turn around
            if child_idx >= child_cnt as i64 {
                child_idx = 0;
            } else {
                child_idx = child_cnt as i64 - 1;
            }
        }
        let child: usize = lo + child_idx as usize;
        if can_focus[child] {
            return Some(child);
        }
        if is_parent(&wgts[child]) {
            let mut brk = false;
            match next_focusable_in(wgts, can_focus, page_of, child, WIDGET_ID_NONE, forward, first_parent, &mut brk, fuel - 1) {
                Some(nf) => {
                    return Some(nf);
                },
                None => {},
            }
            if brk {
                return None;
            }
        }
    }
    None
}

/// Recursion bound of the focus search for a window of `n` widgets
fn focus_fuel(n: usize) -> (f: usize)
    ensures
        f == (if n < 1000000 { 4 * n + 8 } else { 4000008 }),
{
    if n < 1000000 { 4 * n + 8 } else { 4000008 }
}

/// The window's answers the focus search needs, widget by widget: whether it takes the focus
/// now, and which page a page control shows
fn focus_answers<W: WindowState>(ws: &mut W, wgts: &[Widget]) -> (r: (Vec<bool>, Vec<i16>))
    requires
        wgts@ == old(ws).widgets_spec(),
    ensures
        r.0@.len() == wgts@.len(),
        r.1@.len() == wgts@.len(),
        forall|k: int| 0 <= k < wgts@.len() ==> #[trigger] r.0@[k] == (is_focusable_type(wgts@[k].prop)
            && enabled_chain(old(ws), wgts@, wgts@[k], 0) && shown_chain(old(ws), wgts@, wgts@[k], 0)),
        forall|k: int| 0 <= k < wgts@.len() ==> #[trigger] r.1@[k] == (if wgts@[k].prop is PageCtrl {
            old(ws).page_index_spec(wgts@[k])
        } else {
            0
        }),
        same_answers(old(ws), final(ws)),
{
    let mut can: Vec<bool> = Vec::new();
    let mut pages: Vec<i16> = Vec::new();
    let mut k: usize = 0;
    while k < wgts.len()
        invariant
            k <= wgts@.len(),
            can@.len() == k,
            pages@.len() == k,
            wgts@ == old(ws).widgets_spec(),
            same_answers(old(ws), ws),
            forall|j: int| 0 <= j < k ==> #[trigger] can@[j] == (is_focusable_type(wgts@[j].prop)
                && enabled_chain(old(ws), wgts@, wgts@[j], 0) && shown_chain(old(ws), wgts@, wgts@[j], 0)),
            forall|j: int| 0 <= j < k ==> #[trigger] pages@[j] == (if wgts@[j].prop is PageCtrl {
                old(ws).page_index_spec(wgts@[j])
            } else {
                0
            }),
        decreases wgts@.len() - k,
    {
        let wgt = &wgts[k];
        proof {
            lemma_shown_chain_same(old(ws), ws, wgts@, *wgt, 0);
            lemma_enabled_chain_same(old(ws), ws, wgts@, *wgt, 0);
        }
        let ok = is_focusable(ws, wgt) && is_visible(ws, wgt);
        let pg: i16 = match wgt.prop {
            Property::PageCtrl(_) => ws.get_page_ctrl_page_index(wgt),
            _ => 0,
        };
        can.push(ok);
        pages.push(pg);
        k = k + 1;
    }
    (can, pages)
}

/// Index of the first widget with the given id; none for `WIDGET_ID_NONE`
fn index_by_id(wgts: &[Widget], id: WId) -> (r: Option<usize>)
    ensures
        r matches Some(k) ==> k < wgts@.len() && wgts@[k as int].id == id,
        match r {
            Some(k) => id != WIDGET_ID_NONE && first_with_id(wgts@, id, 0) == Some(k as int),
            None => id == WIDGET_ID_NONE || first_with_id(wgts@, id, 0) is None,
        },
{
    if id == WIDGET_ID_NONE {
        return None;
    }
    let mut i: usize = 0;
    while i < wgts.len()
        invariant
            i <= wgts@.len(),
            id != WIDGET_ID_NONE,
            first_with_id(wgts@, id, 0) == first_with_id(wgts@, id, i as int),
        decreases wgts@.len() - i,
    {
        if wgts[i].id == id {
            assert(first_with_id(wgts@, id, i as int) == Some(i as int));
            return Some(i);
        }
        i = i + 1;
    }
    assert(first_with_id(wgts@, id, i as int) is None);
    None
}

/// Whether each widget of the window `ws` takes the focus now: of a focusable type, enabled and
/// shown, it and its parents
pub open spec fn focus_can_seq<W: WindowState>(ws: &W) -> Seq<bool> {
    Seq::new(ws.widgets_spec().len(), |k: int| is_focusable_type(ws.widgets_spec()[k].prop)
        && enabled_chain(ws, ws.widgets_spec(), ws.widgets_spec()[k], 0)
        && shown_chain(ws, ws.widgets_spec(), ws.widgets_spec()[k], 0))
}

/// The page each page control of the window `ws` shows; 0 for other widgets
pub open spec fn focus_page_seq<W: WindowState>(ws: &W) -> Seq<i16> {
    Seq::new(ws.widgets_spec().len(), |k: int| if ws.widgets_spec()[k].prop is PageCtrl {
        ws.page_index_spec(ws.widgets_spec()[k])
    } else {
        0
    })
}

/// Id of the widget the focus goes to from the one with id `fid` (the first widget when no
/// widget has it) in the given direction: the focus search among the children of its parent
pub open spec fn next_focus_id<W: WindowState>(ws: &W, fid: WId, fwd: bool) -> WId {
    let wgts = ws.widgets_spec();
    let fi: Option<int> = if fid != WIDGET_ID_NONE && first_with_id(wgts, fid, 0) is Some {
        first_with_id(wgts, fid, 0)
    } else if wgts.len() > 0 {
        Some(0)
    } else {
        None
    };
    match fi {
        Some(i) => {
            let fuel = if wgts.len() < 1000000 { 4 * wgts.len() + 8 } else { 4000008 };
            match focus_search(wgts, focus_can_seq(ws), focus_page_seq(ws), parent_index_of(wgts, i), fid, fwd, None, fuel as nat).0 {
                Some(k) => wgts[k].id,
                None => WIDGET_ID_NONE,
            }
        },
        None => WIDGET_ID_NONE,
    }
}

/// Giving the same answers is transitive
pub proof fn lemma_same_answers_trans<W: WindowState>(a: &W, b: &W, c: &W)
    requires
        same_answers(a, b),
        same_answers(b, c),
    ensures
        same_answers(a, c),
{
    assert forall|w: Widget| #[trigger] a.visible_spec(w) == c.visible_spec(w) by {
        assert(a.visible_spec(w) == b.visible_spec(w));
    }
    assert forall|w: Widget| #[trigger] a.enabled_spec(w) == c.enabled_spec(w) by {
        assert(a.enabled_spec(w) == b.enabled_spec(w));
    }
    assert forall|w: Widget| #[trigger] a.page_index_spec(w) == c.page_index_spec(w) by {
        assert(a.page_index_spec(w) == b.page_index_spec(w));
    }
    assert forall|w: Widget| #[trigger] a.combo_state_spec(w) == c.combo_state_spec(w) by {
        assert(a.combo_state_spec(w) == b.combo_state_spec(w));
    }
    assert forall|w: Widget, i: InputInfo| #[trigger] a.unhandled_spec(w, i) == c.unhandled_spec(w, i) by {
        assert(a.unhandled_spec(w, i) == b.unhandled_spec(w, i));
    }
    assert forall|w: Widget| #[trigger] a.button_text_spec(w) == c.button_text_spec(w) by {
        assert(a.button_text_spec(w) == b.button_text_spec(w));
    }
    assert forall|w: Widget| #[trigger] a.list_state_spec(w) == c.list_state_spec(w) by {
        assert(a.list_state_spec(w) == b.list_state_spec(w));
    }
    assert forall|w: Widget| #[trigger] a.text_box_spec(w) == c.text_box_spec(w) by {
        assert(a.text_box_spec(w) == b.text_box_spec(w));
    }
}

/// Two window states that give the same answers send the focus to the same widget
pub proof fn lemma_next_focus_same<W: WindowState>(a: &W, b: &W, fid: WId, fwd: bool)
    requires
        same_answers(a, b),
    ensures
        next_focus_id(a, fid, fwd) == next_focus_id(b, fid, fwd),
{
    let wgts = a.widgets_spec();
    assert forall|k: int| 0 <= k < wgts.len() implies focus_can_seq(a)[k] == focus_can_seq(b)[k] by {
        lemma_shown_chain_same(a, b, wgts, wgts[k], 0);
        lemma_enabled_chain_same(a, b, wgts, wgts[k], 0);
    }
    assert(focus_can_seq(a) =~= focus_can_seq(b));
    assert forall|k: int| 0 <= k < wgts.len() implies focus_page_seq(a)[k] == focus_page_seq(b)[k] by {
        assert(a.page_index_spec(wgts[k]) == b.page_index_spec(wgts[k]));
    }
    assert(focus_page_seq(a) =~= focus_page_seq(b));
}

/// Next widget to focus among the children of `parent`, a widget of the window `ws`, searching from the focused one (or from the border when
/// `focused_id` is none) in the given direction, as `focus_search` gives it over the window's
/// answers: a widget of a focusable type, enabled and shown, it and its parents. `first_parent` is
/// the panel, page or layer the search started in; `break_search` is set when a full loop was
/// detected. The search runs on the widget at `parent`'s position in the window's widgets; none
/// when that position is past them
pub fn get_next_focusable<W: WindowState>(
    ws: &mut W,
    parent: &Widget,
    focused_id: WId,
    forward: bool,
    first_parent: Option<&Widget>,
    break_search: &mut bool,
) -> (r: Option<&'static Widget>)
    ensures
        same_answers(old(ws), final(ws)),
        r matches Some(w) ==> is_focusable_type(w.prop) && enabled_chain(old(ws), old(ws).widgets_spec(), *w, 0)
            && shown_chain(old(ws), old(ws).widgets_spec(), *w, 0)
            && exists|k: int| 0 <= k < old(ws).widgets_spec().len() && #[trigger] old(ws).widgets_spec()[k] == *w,
        ({
            let wgts = old(ws).widgets_spec();
            let pi = parent.link.own_idx as int;
            let fp: Option<usize> = match first_parent {
                Some(f) => if (f.link.own_idx as int) < wgts.len() { Some(f.link.own_idx as usize) } else { None },
                None => None,
            };
            let fuel: int = if wgts.len() < 1000000 { 4 * wgts.len() as int + 8 } else { 4000008 };
            if pi < wgts.len() {
                widget_of(r) == match focus_search(wgts, focus_can_seq(old(ws)), focus_page_seq(old(ws)), pi, focused_id, forward, fp, fuel as nat).0 {
                    Some(k) => Some(wgts[k]),
                    None => None::<Widget>,
                }
            } else {
                r is None && *final(break_search) == *old(break_search)
            }
        }),
{
    let wgts = ws.get_widgets();
    let pi = parent.link.own_idx as usize;
    if pi >= wgts.len() {
        return None;
    }
    let fp: Option<usize> = match first_parent {
        Some(f) => if (f.link.own_idx as usize) < wgts.len() { Some(f.link.own_idx as usize) } else { None },
        None => None,
    };
    let (can, pages) = focus_answers(ws, wgts);
    assert(can@ =~= focus_can_seq(old(ws)));
    assert(pages@ =~= focus_page_seq(old(ws)));
    match next_focusable_in(wgts, can.as_slice(), pages.as_slice(), pi, focused_id, forward, fp, break_search, focus_fuel(wgts.len())) {
        Some(k) => {
            assert(can@[k as int]);
            Some(&wgts[k])
        },
        None => None,
    }
}

/// Id of the widget next to the focused one, in the given direction; none when there is none
fn get_next_to_focus<W: WindowState>(ws: &mut W, focused_id: WId, forward: bool) -> (r: WId)
    ensures
        r == next_focus_id(old(ws), focused_id, forward),
        same_answers(old(ws), final(ws)),
{
    let wgts = ws.get_widgets();
    let focused_idx: Option<usize> = match index_by_id(wgts, focused_id) {
        Some(k) => Some(k),
        // here, fail is possible only if invalid focused_id was passed
        None => if wgts.len() > 0 { Some(0) } else { None },
    };
    match focused_idx {
        Some(fi) => {
            // use the parent to get next widget
            let parent = parent_index(wgts, fi);
            let (can, pages) = focus_answers(ws, wgts);
            assert(can@ =~= focus_can_seq(old(ws)));
            assert(pages@ =~= focus_page_seq(old(ws)));
            let mut brk = false;
            match next_focusable_in(wgts, can.as_slice(), pages.as_slice(), parent, focused_id, forward, None, &mut brk, focus_fuel(wgts.len())) {
                Some(k) => wgts[k].id,
                None => WIDGET_ID_NONE,
            }
        },
        None => WIDGET_ID_NONE,
    }
}

/// Id of the parent of the widget with id `fid`; the window's id when no widget has it
pub open spec fn parent_focus_id(wgts: Seq<Widget>, fid: WId) -> WId {
    match widget_by_id(wgts, fid) {
        Some(w) => parent_of(wgts, w).id,
        None => if wgts.len() > 0 { wgts[0].id } else { WIDGET_ID_NONE },
    }
}

/// Id of the parent of the focused widget; the window's id when nothing is focused
fn get_parent_to_focus<W: WindowState>(ws: &mut W, focused_id: WId) -> (r: WId)
    ensures
        r == parent_focus_id(old(ws).widgets_spec(), focused_id),
        *final(ws) == *old(ws),
{
    let wgts = ws.get_widgets();
    match find_by_id(wgts, focused_id) {
        Some(focused_wgt) => get_parent(wgts, focused_wgt).id,
        None => if wgts.len() > 0 { wgts[0].id } else { WIDGET_ID_NONE },
    }
}

/// Moves the focus to `new_id`; tells whether it changed
fn change_focus_to<P: Pal, W: WindowState>(ws: &mut W, wst: &mut WidgetState, term: &mut Term<P>, new_id: WId) -> (r: bool)
    ensures
        final(term).font() == old(term).font(),
        final(term).logs_row == old(term).logs_row,
        r == (new_id != old(ws).focused_spec()),
        r && widget_by_id(old(ws).widgets_spec(), new_id) is Some ==> final(wst).focused_wgt == new_id,
        r ==> final(ws).focused_spec() == new_id,
        final(ws).widgets_spec() == old(ws).widgets_spec(),
        forall|w: Widget| #[trigger] final(ws).combo_state_spec(w) == old(ws).combo_state_spec(w),
        forall|w: Widget| #[trigger] final(ws).list_state_spec(w) == old(ws).list_state_spec(w),
        final(wst).mouse_down_wgt == old(wst).mouse_down_wgt,
{
    let curr_id = ws.get_focused_id();
    if new_id != curr_id {
        let prev_id = curr_id;
        ws.set_focused_id(new_id);
        let wgts = ws.get_widgets();
        match find_by_id(wgts, new_id) {
            Some(new_focused_wgt) => {
                proof {
                    lemma_first_with_id_bounds(wgts@, new_id, 0);
                }
                match new_focused_wgt.prop {
                    Property::ListBox(_) => {
                        let mut lbs = LbxState::default();
                        ws.get_list_box_state(new_focused_wgt, &mut lbs);
                        if lbs.item_idx < 0 && lbs.items_cnt > 0 {
                            ws.on_list_box_select(new_focused_wgt, lbs.sel_idx);
                        }
                    },
                    _ => {},
                }
                let ghost w1 = *ws;
                assert(forall|w: Widget| #[trigger] w1.combo_state_spec(w) == old(ws).combo_state_spec(w));
                assert(forall|w: Widget| #[trigger] w1.list_state_spec(w) == old(ws).list_state_spec(w));
                set_cursor_at(term, ws, wst, new_focused_wgt);
                assert(forall|w: Widget| #[trigger] ws.combo_state_spec(w) == w1.combo_state_spec(w));
                assert(forall|w: Widget| #[trigger] ws.list_state_spec(w) == w1.list_state_spec(w));
                wst.focused_wgt = new_focused_wgt.id;
            },
            None => {},
        }
        if is_focusable_by_id(ws, prev_id) {
            ws.invalidate(prev_id);
        }
        if is_focusable_by_id(ws, new_id) {
            ws.invalidate(new_id);
        }
        return true;
    }
    false
}

// ---------------------------------------------------------------------------------------------- //
// ---- PURE STATE TRANSITIONS ------------------------------------------------------------------ //

/// Selection moved by `delta` in a list of `cnt` items, wrapping around at both ends
pub open spec fn wrapped_sel(sel: int, delta: int, cnt: int) -> int {
    let s = sel + delta;
    if s < 0 {
        cnt - 1
    } else if s >= cnt {
        0
    } else {
        s
    }
}

/// Selection moved by `delta` in a list of `cnt` items, wrapping around at both ends
pub fn wrap_sel(sel: i16, delta: i32, cnt: i16) -> (r: i16)
    requires
        -100000 <= delta <= 100000,
        cnt > 0,
    ensures
        r == wrapped_sel(sel as int, delta as int, cnt as int),
{
    let s: i32 = sel as i32 + delta;
    if s < 0 {
        cnt - 1
    } else if s >= cnt as i32 {
        0
    } else {
        s as i16
    }
}

/// Page index after moving to the next or previous page of `cnt`, wrapping around
pub open spec fn page_after_step(idx: int, next: bool, cnt: int) -> int {
    let i = if next { idx + 1 } else { idx - 1 };
    let i2 = if i < 0 { cnt - 1 } else { i };
    if i2 >= cnt { 0 } else { i2 }
}

/// Page index after moving to the next or previous page of `cnt`, wrapping around
pub fn page_step(idx: i16, next: bool, cnt: u16) -> (r: i16)
    requires
        cnt <= 32767,
    ensures
        r == page_after_step(idx as int, next, cnt as int),
{
    let i: i32 = if next { idx as i32 + 1 } else { idx as i32 - 1 };
    let i2: i32 = if i < 0 { cnt as i32 - 1 } else { i };
    if i2 >= cnt as i32 { 0 } else { i2 as i16 }
}

/// First visible line after scrolling by `delta` a text of `len` lines showing `visible` of them
pub open spec fn scrolled_top(top: int, delta: int, len: int, visible: int) -> int {
    let t = top + delta;
    let t2 = if t > len - visible { len - visible } else { t };
    if t2 < 0 { 0 } else { t2 }
}

/// First visible line after scrolling by `delta` a text of `len` lines showing `visible` of them
pub fn scroll_top(top: i16, delta: i32, len: i32, visible: i32) -> (r: i16)
    requires
        -100000 <= delta <= 100000,
        0 <= len <= 32767,
        -100000 <= visible <= 100000,
    ensures
        r == (if scrolled_top(top as int, delta as int, len as int, visible as int) > i16::MAX {
            i16::MAX as int
        } else {
            scrolled_top(top as int, delta as int, len as int, visible as int)
        }),
{
    let t: i32 = top as i32 + delta;
    let t2: i32 = if t > len - visible { len - visible } else { t };
    if t2 < 0 {
        0
    } else if t2 > i16::MAX as i32 {
        i16::MAX
    } else {
        t2 as i16
    }
}

/// Stepping to the next page and back to the previous one returns to the page,
/// and every step stays among the pages
pub proof fn lemma_page_step_round_trip(idx: int, cnt: int)
    requires
        0 <= idx < cnt,
    ensures
        0 <= page_after_step(idx, true, cnt) < cnt,
        0 <= page_after_step(idx, false, cnt) < cnt,
        page_after_step(page_after_step(idx, true, cnt), false, cnt) == idx,
        page_after_step(page_after_step(idx, false, cnt), true, cnt) == idx,
{
}

/// Moving a selection one item down and back up returns to it,
/// and every move stays among the items
pub proof fn lemma_wrap_sel_round_trip(sel: int, cnt: int)
    requires
        0 <= sel < cnt,
    ensures
        0 <= wrapped_sel(sel, 1, cnt) < cnt,
        0 <= wrapped_sel(sel, -1, cnt) < cnt,
        wrapped_sel(wrapped_sel(sel, 1, cnt), -1, cnt) == sel,
        wrapped_sel(wrapped_sel(sel, -1, cnt), 1, cnt) == sel,
{
}

/// Scrolling never shows lines before the first one, nor, when the text is longer than the
/// box, past its end
pub proof fn lemma_scroll_in_range(top: int, delta: int, len: int, visible: int)
    ensures
        0 <= scrolled_top(top, delta, len, visible),
        len >= visible ==> scrolled_top(top, delta, len, visible) <= len - visible,
{
}

/// Outcome of a key in a text edit in edit mode
#[derive(Copy, Clone, Debug, PartialEq, Eq, Structural)]
pub enum EditOutcome {
    /// the key is not for the edit
    Ignored,
    /// the key was taken, nothing to redraw
    Handled,
    /// the key changed the edit, it is to be redrawn
    Redraw,
    /// the edit is finished and its text is to be committed
    Commit,
}

/// Text edit state as a value: edited widget, cursor position and text
pub struct EditView {
    pub id: WId,
    pub cursor: int,
    pub txt: Seq<char>,
}

/// View of a text edit state
pub open spec fn edit_view(te: TextEditState) -> EditView {
    EditView { id: te.wgt_id, cursor: te.cursor_pos as int, txt: te.txt@ }
}

/// Character position the cursor points at; a negative cursor points past any text
pub open spec fn cursor_char_idx(cur: int) -> int {
    if cur < 0 { usize::MAX as int } else { cur }
}

/// Effect of a key on a text edit in edit mode: the new state and the outcome
pub open spec fn edit_key_effect(e: EditView, key: Key, ctrl: bool, psw: bool) -> (EditView, EditOutcome) {
    let cur = e.cursor;
    match key {
        Key::Esc => (EditView { id: WIDGET_ID_NONE, ..e }, EditOutcome::Redraw),
        Key::Tab => if !psw {
            (EditView { cursor: cur + 4, txt: insert_at(e.txt, if cur > 0 { cur } else { 0 }, seq![' ', ' ', ' ', ' ']), ..e }, EditOutcome::Redraw)
        } else {
            (e, EditOutcome::Handled)
        },
        Key::Enter => (e, EditOutcome::Commit),
        Key::Backspace => if cur > 0 {
            if ctrl {
                (EditView { cursor: 0, txt: erase_range(e.txt, 0, cur), ..e }, EditOutcome::Redraw)
            } else {
                (EditView { cursor: cur - 1, txt: erase_range(e.txt, cur - 1, 1), ..e }, EditOutcome::Redraw)
            }
        } else {
            (e, EditOutcome::Handled)
        },
        Key::Delete => if !psw {
            if ctrl {
                (EditView { txt: trim_at(e.txt, cursor_char_idx(cur)), ..e }, EditOutcome::Redraw)
            } else {
                (EditView { txt: erase_range(e.txt, cursor_char_idx(cur), 1), ..e }, EditOutcome::Redraw)
            }
        } else {
            (e, EditOutcome::Handled)
        },
        Key::Left => if !psw && cur > 0 {
            (EditView { cursor: cur - 1, ..e }, EditOutcome::Redraw)
        } else {
            (e, EditOutcome::Handled)
        },
        Key::Right => if !psw && cur < e.txt.len() {
            (EditView { cursor: cur + 1, ..e }, EditOutcome::Redraw)
        } else {
            (e, EditOutcome::Handled)
        },
        Key::Home => if !psw {
            (EditView { cursor: 0, ..e }, EditOutcome::Redraw)
        } else {
            (e, EditOutcome::Handled)
        },
        Key::End => if !psw {
            (EditView { cursor: e.txt.len() as int, ..e }, EditOutcome::Redraw)
        } else {
            (e, EditOutcome::Handled)
        },
        _ => (e, EditOutcome::Ignored),
    }
}

/// Cursor position kept by the state: the position when it fits in `i16`
pub open spec fn kept_cursor(cur: int) -> i16 {
    if i16::MIN <= cur <= i16::MAX { cur as i16 } else if cur > i16::MAX { i16::MAX } else { i16::MIN }
}

/// Applies a key to a text edit in edit mode
pub fn edit_on_key(te: &mut TextEditState, key: Key, ctrl: bool, psw: bool) -> (r: EditOutcome)
    ensures
        ({
            let (e2, out) = edit_key_effect(edit_view(*old(te)), key, ctrl, psw);
            &&& r == out
            &&& final(te).wgt_id == e2.id
            &&& final(te).txt@ == e2.txt
            &&& final(te).cursor_pos == kept_cursor(e2.cursor)
        }),
{
    let cursor_pos: i32 = te.cursor_pos as i32;
    let idx: usize = if cursor_pos < 0 { usize::MAX } else { cursor_pos as usize };
    match key {
        Key::Esc => {
            // cancel editing
            te.wgt_id = WIDGET_ID_NONE;
            EditOutcome::Redraw
        },
        Key::Tab => {
            if !psw {
                // real TAB may have different widths and require extra processing
                let at: usize = if cursor_pos > 0 { cursor_pos as usize } else { 0 };
                proof {
                    reveal_strlit("    ");
                }
                te.txt.insert_str_at_char_idx(at, "    ");
                assert("    "@ =~= seq![' ', ' ', ' ', ' ']);
                te.cursor_pos = clamp_cursor(cursor_pos + 4);
                EditOutcome::Redraw
            } else {
                EditOutcome::Handled
            }
        },
        Key::Enter => EditOutcome::Commit,
        Key::Backspace => {
            if cursor_pos > 0 {
                if ctrl {
                    te.txt.erase_char_range(0, cursor_pos as usize);
                    te.cursor_pos = 0;
                } else {
                    te.txt.erase_char_range((cursor_pos - 1) as usize, 1);
                    te.cursor_pos = clamp_cursor(cursor_pos - 1);
                }
                EditOutcome::Redraw
            } else {
                EditOutcome::Handled
            }
        },
        Key::Delete => {
            if !psw {
                if ctrl {
                    te.txt.trim_at_char_idx(idx);
                } else {
                    te.txt.erase_char_range(idx, 1);
                }
                EditOutcome::Redraw
            } else {
                EditOutcome::Handled
            }
        },
        Key::Left => {
            if !psw && cursor_pos > 0 {
                te.cursor_pos = clamp_cursor(cursor_pos - 1);
                EditOutcome::Redraw
            } else {
                EditOutcome::Handled
            }
        },
        Key::Right => {
            let n = te.txt.as_str().unicode_len();
            if !psw && (cursor_pos < 0 || (cursor_pos as usize) < n) {
                te.cursor_pos = clamp_cursor(cursor_pos + 1);
                EditOutcome::Redraw
            } else {
                EditOutcome::Handled
            }
        },
        Key::Home => {
            if !psw {
                te.cursor_pos = 0;
                EditOutcome::Redraw
            } else {
                EditOutcome::Handled
            }
        },
        Key::End => {
            if !psw {
                let n = te.txt.as_str().unicode_len();
                te.cursor_pos = if n <= 32767 { n as i16 } else { i16::MAX };
                EditOutcome::Redraw
            } else {
                EditOutcome::Handled
            }
        },
        _ => EditOutcome::Ignored,
    }
}

/// Cursor position kept in `i16`
fn clamp_cursor(c: i32) -> (r: i16)
    ensures
        r == kept_cursor(c as int),
{
    if c > i16::MAX as i32 {
        i16::MAX
    } else if c < i16::MIN as i32 {
        i16::MIN
    } else {
        c as i16
    }
}

/// Applies a typed character to a text edit in edit mode: inserted at the cursor, which moves past it
pub fn edit_on_char(te: &mut TextEditState, ch: &str)
    ensures
        final(te).wgt_id == old(te).wgt_id,
        final(te).txt@ == insert_at(old(te).txt@, cursor_char_idx(old(te).cursor_pos as int), ch@),
        final(te).cursor_pos == kept_cursor(old(te).cursor_pos + 1),
{
    let cursor_pos: i32 = te.cursor_pos as i32;
    let idx: usize = if cursor_pos < 0 { usize::MAX } else { cursor_pos as usize };
    te.txt.insert_str_at_char_idx(idx, ch);
    te.cursor_pos = clamp_cursor(cursor_pos + 1);
}

/// Effect of an input on a text edit in edit mode: a key as `edit_key_effect` gives it, a
/// character inserted at the cursor, which moves past it; other input is not for the edit
pub open spec fn edit_input_effect(e: EditView, ii: InputInfo, psw: bool) -> (EditView, EditOutcome) {
    match ii.evnt {
        InputEvent::Key(k) => edit_key_effect(e, k, ii.kmod.mask & KEY_MOD_CTRL != 0, psw),
        InputEvent::Char(cb) => (
            EditView { cursor: e.cursor + 1, txt: insert_at(e.txt, cursor_char_idx(e.cursor), charbuff_text(cb)), ..e },
            EditOutcome::Redraw,
        ),
        _ => (e, EditOutcome::Ignored),
    }
}

/// What the editing keys do to a text edit whose cursor `c` stands within its text: Backspace
/// removes the character before the cursor and moves it back (with Ctrl, everything before the
/// cursor), Delete removes the character at the cursor (with Ctrl, everything from it on), Tab
/// inserts four spaces at the cursor, the arrows, Home and End move the cursor, Esc leaves edit
/// mode, Enter commits; a typed character goes in at the cursor
pub proof fn lemma_edit_keys(e: EditView, ii: InputInfo, psw: bool)
    requires
        0 <= e.cursor <= e.txt.len(),
    ensures
        ({
            let c = e.cursor;
            let t = e.txt;
            let ctrl = ii.kmod.mask & KEY_MOD_CTRL != 0;
            let (e2, out) = edit_input_effect(e, ii, psw);
            &&& ii.evnt == InputEvent::Key(Key::Backspace) && !ctrl && c > 0 ==> e2.txt == t.take(c - 1) + t.skip(c)
                && e2.cursor == c - 1 && e2.id == e.id && out == EditOutcome::Redraw
            &&& ii.evnt == InputEvent::Key(Key::Backspace) && ctrl && c > 0 ==> e2.txt == t.skip(c) && e2.cursor == 0
                && out == EditOutcome::Redraw
            &&& ii.evnt == InputEvent::Key(Key::Backspace) && c == 0 ==> e2 == e && out == EditOutcome::Handled
            &&& ii.evnt == InputEvent::Key(Key::Delete) && !psw && !ctrl && c < t.len() ==> e2.txt == t.take(c) + t.skip(c + 1)
                && e2.cursor == c && out == EditOutcome::Redraw
            &&& ii.evnt == InputEvent::Key(Key::Delete) && !psw && !ctrl && c == t.len() ==> e2.txt == t && e2.cursor == c
            &&& ii.evnt == InputEvent::Key(Key::Delete) && !psw && ctrl ==> e2.txt == t.take(c) && e2.cursor == c
            &&& ii.evnt == InputEvent::Key(Key::Tab) && !psw ==> e2.txt == t.take(c) + seq![' ', ' ', ' ', ' '] + t.skip(c)
                && e2.cursor == c + 4
            &&& ii.evnt == InputEvent::Key(Key::Left) && !psw ==> e2.txt == t && e2.cursor == (if c > 0 { c - 1 } else { c })
            &&& ii.evnt == InputEvent::Key(Key::Right) && !psw ==> e2.txt == t && e2.cursor == (if c < t.len() { c + 1 } else { c })
            &&& ii.evnt == InputEvent::Key(Key::Home) && !psw ==> e2.txt == t && e2.cursor == 0
            &&& ii.evnt == InputEvent::Key(Key::End) && !psw ==> e2.txt == t && e2.cursor == t.len()
            &&& ii.evnt == InputEvent::Key(Key::Esc) ==> e2.id == WIDGET_ID_NONE && e2.txt == t
            &&& ii.evnt == InputEvent::Key(Key::Enter) ==> e2 == e && out == EditOutcome::Commit
            &&& ii.evnt matches InputEvent::Char(cb) ==> e2.txt == t.take(c) + charbuff_text(cb) + t.skip(c)
                && e2.cursor == c + 1
        }),
{
    let c = e.cursor;
    let t = e.txt;
    assert(t.take(t.len() as int) =~= t);
    assert(t.skip(t.len() as int) =~= Seq::<char>::empty());
    assert(t.take(c) + seq![' ', ' ', ' ', ' '] + t.skip(c) =~= insert_at(t, c, seq![' ', ' ', ' ', ' '])) by {
        if c == t.len() {
            assert(t + seq![' ', ' ', ' ', ' '] =~= t.take(c) + seq![' ', ' ', ' ', ' '] + t.skip(c));
        }
    }
    if let InputEvent::Char(cb) = ii.evnt {
        let ins = charbuff_text(cb);
        if c == t.len() {
            assert(t + ins =~= t.take(c) + ins + t.skip(c));
        }
    }
    if c > 0 {
        assert(erase_range(t, c - 1, 1) =~= t.take(c - 1) + t.skip(c));
        assert(erase_range(t, 0, c) =~= t.skip(c)) by {
            assert(t.take(0) + t.skip(c) =~= t.skip(c));
        }
    }
    if c < t.len() {
        assert(erase_range(t, c, 1) =~= t.take(c) + t.skip(c + 1));
    }
}

/// Applies an input to a text edit in edit mode
pub fn edit_on_input(te: &mut TextEditState, ii: &InputInfo, psw: bool) -> (r: EditOutcome)
    ensures
        ({
            let (e2, out) = edit_input_effect(edit_view(*old(te)), *ii, psw);
            &&& r == out
            &&& final(te).wgt_id == e2.id
            &&& final(te).txt@ == e2.txt
            &&& final(te).cursor_pos == kept_cursor(e2.cursor)
        }),
{
    match ii.evnt {
        InputEvent::Key(key) => edit_on_key(te, key, ii.kmod.has_ctrl(), psw),
        InputEvent::Char(cb) => {
            edit_on_char(te, cb.as_str());
            EditOutcome::Redraw
        },
        _ => EditOutcome::Ignored,
    }
}

/// The text edit `te` and the answer `r` after an input in edit mode that the window's own
/// handler left to the edit, from `e1`: as `edit_input_effect` gives them, a taken input
/// answered true; a commit ends the edit mode and hands the text to the window, which may change it;
/// a change or a commit has the edit redrawn (`inv`: the window has it among the widgets to redraw)
pub open spec fn edit_input_done(e1: EditView, ii: InputInfo, psw: bool, te: TextEditState, r: bool, inv: bool) -> bool {
    let (e2, out) = edit_input_effect(e1, ii, psw);
    &&& r == (out != EditOutcome::Ignored)
    &&& (out == EditOutcome::Redraw || out == EditOutcome::Commit) ==> inv
    &&& te.cursor_pos == kept_cursor(e2.cursor)
    &&& out == EditOutcome::Commit ==> te.wgt_id == WIDGET_ID_NONE
    &&& out != EditOutcome::Commit ==> te.wgt_id == e2.id && te.txt@ == e2.txt
}

/// The text edit `te` and the answer `r` after an input in edit mode: the window's handler left
/// the edit as `e1`, of the same widget as `e0`; it took the input (`handled`, answered true) or
/// left it to the edit; one it took has the edit redrawn (`inv`)
pub open spec fn edit_after_handler(e0: EditView, e1: EditView, handled: bool, ii: InputInfo, psw: bool, te: TextEditState, r: bool, inv: bool) -> bool {
    &&& e1.id == e0.id
    &&& handled ==> r && edit_view(te) == e1 && inv
    &&& !handled ==> edit_input_done(e1, ii, psw, te, r, inv)
}

/// A text edit masks its text as a password
pub open spec fn edit_psw(wgt: Widget) -> bool {
    match wgt.prop {
        Property::TextEdit(p) => p.psw_mask,
        _ => false,
    }
}

// ---------------------------------------------------------------------------------------------- //
// ---- PAGE CONTROL, COMBO BOX, RADIO ---------------------------------------------------------- //

/// Selects the next or the previous page of a page control, wrapping around
fn pagectrl_change_page<P: Pal, W: WindowState>(ws: &mut W, wst: &mut WidgetState, term: &mut Term<P>, pgctrl: &Widget, next: bool)
    ensures
        final(term).font() == old(term).font(),
        final(term).logs_row == old(term).logs_row,
        final(ws).page_index_spec(*pgctrl) == page_after_step(
            old(ws).page_index_spec(*pgctrl) as int,
            next,
            if pgctrl.link.children_cnt <= 32767 { pgctrl.link.children_cnt as int } else { 32767 },
        ),
        final(wst).text_edit_state.wgt_id == WIDGET_ID_NONE,
        final(ws).widgets_spec() == old(ws).widgets_spec(),
{
    let idx = ws.get_page_ctrl_page_index(pgctrl);
    let cnt: u16 = if pgctrl.link.children_cnt <= 32767 { pgctrl.link.children_cnt } else { 32767 };
    let pgidx = page_step(idx, next, cnt);
    ws.on_page_control_page_change(pgctrl, pgidx);
    let ghost w1 = *ws;
    ws.invalidate(pgctrl.id);
    // cancel EDIT mode
    wst.text_edit_state.wgt_id = WIDGET_ID_NONE;
    let ghost w2 = *ws;
    let focused_id = ws.get_focused_id();
    let ghost w3 = *ws;
    assert(w3.page_index_spec(*pgctrl) == pgidx) by {
        assert(w2.page_index_spec(*pgctrl) == w1.page_index_spec(*pgctrl));
        assert(w3.page_index_spec(*pgctrl) == w2.page_index_spec(*pgctrl));
    }
    match find_by_id(ws.get_widgets(), focused_id) {
        Some(focused) => {
            wst.focused_wgt = focused.id;
            set_cursor_at(term, ws, wst, focused);
            assert(ws.page_index_spec(*pgctrl) == w3.page_index_spec(*pgctrl));
        },
        None => {
            wst.focused_wgt = WIDGET_ID_NONE;
            term.move_to_home();
        },
    }
}

/// The page control of id `pgctrl_id` and the index, among its pages, of its page of id
/// `page_id`; none when there is no such page control or page
pub open spec fn page_to_select(wgts: Seq<Widget>, pgctrl_id: WId, page_id: WId) -> Option<(Widget, int)> {
    match widget_by_id(wgts, pgctrl_id) {
        Some(pc) => if pc.prop is PageCtrl {
            let (lo, hi) = children_range(wgts, pc);
            match first_with_id(wgts.subrange(lo, hi), page_id, 0) {
                Some(i) => match page_index_in(wgts, wgts[lo + i]) {
                    Some(pi) => Some((pc, pi)),
                    None => None,
                },
                None => None,
            }
        } else {
            None
        },
        None => None,
    }
}

/// Selects the given page of a page control: the window is told the page control and the
/// page's index (`page_to_select`); nothing happens when the page is not one of its pages
pub fn pagectrl_select_page<W: WindowState>(ws: &mut W, pgctrl_id: WId, page_id: WId)
    ensures
        page_to_select(old(ws).widgets_spec(), pgctrl_id, page_id) is None ==> *final(ws) == *old(ws),
        page_to_select(old(ws).widgets_spec(), pgctrl_id, page_id) matches Some((pc, pi)) ==>
            final(ws).page_index_spec(pc) == pi && final(ws).invalidated_spec().contains(pgctrl_id)
            && final(ws).widgets_spec() == old(ws).widgets_spec(),
{
    let wgts = ws.get_widgets();
    match find_by_id(wgts, pgctrl_id) {
        Some(pgctrl) => {
            match pagectrl_find_page(wgts, pgctrl, page_id) {
                Some(page) => {
                    match page_page_idx(wgts, page) {
                        Some(pg_idx) => {
                            ws.on_page_control_page_change(pgctrl, pg_idx);
                            ws.invalidate(pgctrl_id);
                        },
                        None => {},
                    }
                },
                None => {},
            }
        },
        None => {},
    }
}

/// Selects the next or the previous page of a page control
pub fn pagectrl_select_next_page<P: Pal, W: WindowState>(ws: &mut W, wst: &mut WidgetState, term: &mut Term<P>, pgctrl_id: WId, next: bool)
    ensures
        final(term).font() == old(term).font(),
        final(term).logs_row == old(term).logs_row,
        widget_by_id(old(ws).widgets_spec(), pgctrl_id) is None ==> *final(ws) == *old(ws) && *final(wst) == *old(wst)
            && final(term).sent@ == old(term).sent@,
        widget_by_id(old(ws).widgets_spec(), pgctrl_id) matches Some(pc) ==> final(ws).page_index_spec(pc) == page_after_step(
            old(ws).page_index_spec(pc) as int,
            next,
            if pc.link.children_cnt <= 32767 { pc.link.children_cnt as int } else { 32767 },
        ) && final(wst).text_edit_state.wgt_id == WIDGET_ID_NONE,
{
    match find_by_id(ws.get_widgets(), pgctrl_id) {
        Some(pgctrl) => pagectrl_change_page(ws, wst, term, pgctrl, next),
        None => {},
    }
}

/// The first page control among the window's children
fn find_main_pg_control<W: WindowState>(ws: &mut W) -> (r: Option<&'static Widget>)
    ensures
        r matches Some(w) ==> w.prop is PageCtrl,
        widget_of(r) == main_page_ctrl(old(ws).widgets_spec()),
        *final(ws) == *old(ws),
{
    let wgts = ws.get_widgets();
    if wgts.len() == 0 {
        return None;
    }
    let children: &'static [Widget] = children_of(wgts, &wgts[0]);
    let mut i: usize = 0;
    while i < children.len()
        invariant
            i <= children@.len(),
            first_page_ctrl(children@, 0) == first_page_ctrl(children@, i as int),
            wgts@ == ws.widgets_spec(),
            children@ == wgts@.subrange(children_range(wgts@, wgts@[0]).0, children_range(wgts@, wgts@[0]).1),
            wgts@.len() > 0,
        decreases children@.len() - i,
    {
        match children[i].prop {
            Property::PageCtrl(_) => {
                return Some(&children[i]);
            },
            _ => {},
        }
        i = i + 1;
    }
    None
}

/// Closes the drop-down list of a combo box
fn hide_combo_box_dropdown_list<W: WindowState>(ws: &mut W, wst: &mut WidgetState, wgt: &Widget)
    ensures
        final(ws).combo_state_spec(*wgt) == (CbbxState { drop_down: false, ..old(ws).combo_state_spec(*wgt) }),
        final(ws).widgets_spec() == old(ws).widgets_spec(),
        final(wst).cbx_drop_down == WIDGET_ID_NONE,
        final(wst).mouse_down_wgt == old(wst).mouse_down_wgt,
{
    ws.on_combo_box_drop(wgt, false);
    // redraw parent to hide list
    let parent_id = get_parent(ws.get_widgets(), wgt).id;
    ws.invalidate(parent_id);
    wst.cbx_drop_down = WIDGET_ID_NONE;
}

/// Redraws all radio buttons of the group of `wgt`
fn invalidate_radio_group<W: WindowState>(ws: &mut W, wgt: &Widget) {
    match wgt.prop {
        Property::Radio(prop) => {
            let group_id = prop.group_id;
            let wgts = ws.get_widgets();
            let wgt_parent = get_parent(wgts, wgt);
            let children: &'static [Widget] = children_of(wgts, wgt_parent);
            let mut i: usize = 0;
            while i < children.len()
                invariant
                    i <= children@.len(),
                decreases children@.len() - i,
            {
                match children[i].prop {
                    Property::Radio(p) => {
                        if p.group_id == group_id {
                            ws.invalidate(children[i].id);
                        }
                    },
                    _ => {},
                }
                i = i + 1;
            }
        },
        _ => {},
    }
}

// ---------------------------------------------------------------------------------------------- //
// ---- WIDGETS KEYBOARD PROCESSING FUNCTIONS --------------------------------------------------- //

/// Key of a key event
pub open spec fn event_key(ii: InputInfo) -> Option<Key> {
    match ii.evnt {
        InputEvent::Key(k) => Some(k),
        _ => None,
    }
}

/// A space typed without modifiers, or Enter: the keys that toggle a check box or select a radio
pub open spec fn is_toggle_input(ii: InputInfo) -> bool {
    match ii.evnt {
        InputEvent::Char(cb) => ii.kmod.mask == 0 && cb.utf8seq@[0] == 0x20,
        InputEvent::Key(k) => k == Key::Enter,
        _ => false,
    }
}

/// Tells whether `ii` is a space without modifiers or Enter
fn toggle_input(ii: &InputInfo) -> (r: bool)
    ensures
        r == is_toggle_input(*ii),
{
    match ii.evnt {
        InputEvent::Char(cb) => ii.kmod.is_empty() && cb.utf8seq[0] == 0x20u8,
        InputEvent::Key(k) => match k {
            Key::Enter => true,
            _ => false,
        },
        _ => false,
    }
}

/// The focused widget when it is enabled and takes the input itself
pub open spec fn key_taken_by<W: WindowState>(ws: &W, ii: InputInfo) -> Option<Widget> {
    match widget_by_id(ws.widgets_spec(), ws.focused_spec()) {
        Some(w) => if enabled_chain(ws, ws.widgets_spec(), w, 0) && widget_key_answer(ws, ii) == Some(true) {
            Some(w)
        } else {
            None
        },
        None => None,
    }
}

/// What a key the widget `w` takes did to the window, from `ws0` to `ws1`: a list box's state
/// follows the key, a text box scrolls by it
pub open spec fn key_done<W: WindowState>(ws0: &W, ws1: &W, w: Widget, ii: InputInfo) -> bool {
    &&& w.prop is ListBox ==> ws1.list_state_spec(w) == list_after_key(ws0.list_state_spec(w), w, ii)
    &&& w.prop is TextBox ==> ws1.text_box_spec(w).0 == text_box_top_after_key(ws0.text_box_spec(w), w, ii)
}

/// The toggle or selection a key hands to the window: a toggle input on the focused widget, an
/// enabled check box or radio button
pub open spec fn key_toggle_call<W: WindowState>(ws: &W, ii: InputInfo) -> Option<WindowCall> {
    match widget_by_id(ws.widgets_spec(), ws.focused_spec()) {
        Some(w) => if enabled_chain(ws, ws.widgets_spec(), w, 0) && is_toggle_input(ii) {
            match w.prop {
                Property::CheckBox(_) => Some(WindowCall::CheckboxToggle(w.id)),
                Property::Radio(_) => Some(WindowCall::RadioSelect(w.id)),
                _ => None,
            }
        } else {
            None
        },
        None => None,
    }
}

/// The answer of the focused widget of the window `ws` to a key or a character, where it does
/// not rest on the window's own handlers: with no widget focused, not taken; a disabled one takes
/// every input; a check box or a radio button takes a toggle, a page control its page keys, a list
/// box its moves and Enter, a text box its moves, a button Enter, a combo box Esc and no input but
/// keys and characters; other widgets take nothing
pub open spec fn widget_key_answer<W: WindowState>(ws: &W, ii: InputInfo) -> Option<bool> {
    match widget_by_id(ws.widgets_spec(), ws.focused_spec()) {
        None => Some(false),
        Some(w) => if !enabled_chain(ws, ws.widgets_spec(), w, 0) {
            Some(true)
        } else {
            match w.prop {
                Property::CheckBox(_) => Some(is_toggle_input(ii)),
                Property::Radio(_) => Some(is_toggle_input(ii)),
                Property::PageCtrl(_) => Some(event_key(ii) == Some(Key::PgDown) || event_key(ii) == Some(Key::PgUp)
                    || event_key(ii) == Some(Key::F11) || event_key(ii) == Some(Key::F12)),
                Property::ListBox(_) => Some(match ii.evnt {
                    InputEvent::Key(k) => k == Key::Enter || list_key_delta(k, ii.kmod.mask, w.size.height - 2) != 0,
                    _ => false,
                }),
                Property::TextBox(_) => Some(match ii.evnt {
                    InputEvent::Key(k) => list_key_delta(k, ii.kmod.mask, w.size.height - 2) != 0,
                    _ => false,
                }),
                Property::Button(_) => if event_key(ii) == Some(Key::Enter) { Some(true) } else { None },
                Property::ComboBox(_) => if event_key(ii) == Some(Key::Esc) {
                    Some(true)
                } else if !(ii.evnt is Key || ii.evnt is Char) {
                    Some(false)
                } else {
                    None
                },
                Property::TextEdit(_) => None,
                _ => Some(false),
            }
        },
    }
}

fn process_key<P: Pal, W: WindowState>(ws: &mut W, wst: &mut WidgetState, term: &mut Term<P>, ii: &InputInfo) -> (r: bool)
    ensures
        final(term).font() == old(term).font(),
        final(term).logs_row == old(term).logs_row,
        widget_key_answer(old(ws), *ii) matches Some(b) ==> r == b,
        (ii.evnt is Key || ii.evnt is Char) && widget_key_answer(old(ws), *ii) == Some(false) ==> same_answers(old(ws), final(ws))
            && *final(wst) == *old(wst) && final(term).sent@ == old(term).sent@,
        key_toggle_call(old(ws), *ii) matches Some(c) ==> final(wst).window_calls@.len() > 0
            && final(wst).window_calls@.last() == c,
        key_taken_by(old(ws), *ii) matches Some(w) ==> key_done(old(ws), final(ws), w, *ii),
{
    let focused_id = ws.get_focused_id();
    let wgts = ws.get_widgets();
    match find_by_id(wgts, focused_id) {
        Some(wgt) => {
            proof {
                lemma_enabled_chain_same(old(ws), ws, wgts@, *wgt, 0);
            }
            if !is_enabled(ws, wgt) {
                return true;
            }
            match wgt.prop {
                Property::TextEdit(_) => process_key_text_edit(ws, wst, wgt, ii),
                Property::CheckBox(_) => process_key_check_box(ws, wst, wgt, ii),
                Property::Radio(_) => process_key_radio(ws, wst, wgt, ii),
                Property::Button(_) => process_key_button(ws, wst, term, wgt, ii),
                Property::PageCtrl(_) => process_key_page_ctrl(ws, wst, term, wgt, ii),
                Property::ListBox(_) => process_key_list_box(ws, wgt, ii),
                Property::ComboBox(_) => process_key_combo_box(ws, wst, wgt, ii),
                Property::TextBox(_) => process_key_text_box(ws, wgt, ii),
                _ => false,
            }
        },
        None => false,
    }
}

fn process_key_text_edit<W: WindowState>(ws: &mut W, wst: &mut WidgetState, wgt: &Widget, ii: &InputInfo) -> (r: bool)
    ensures
        final(wst).focused_wgt == old(wst).focused_wgt,
        final(wst).mouse_down_wgt == old(wst).mouse_down_wgt,
        final(wst).cbx_drop_down == old(wst).cbx_drop_down,
        old(wst).text_edit_state.wgt_id == WIDGET_ID_NONE && wgt.id != WIDGET_ID_NONE ==> {
            &&& r == (ii.evnt == InputEvent::Key(Key::Enter))
            &&& r ==> final(wst).text_edit_state.wgt_id == wgt.id
                && final(wst).text_edit_state.cursor_pos == (if final(wst).text_edit_state.txt@.len() <= 32767 {
                    final(wst).text_edit_state.txt@.len() as int
                } else {
                    32767
                })
            &&& !r ==> final(wst).text_edit_state.wgt_id == WIDGET_ID_NONE
            &&& r ==> final(ws).invalidated_spec().contains(wgt.id)
        },
        old(wst).text_edit_state.wgt_id == wgt.id && wgt.id != WIDGET_ID_NONE ==> exists|e1: EditView, h: bool|
            #[trigger] edit_after_handler(edit_view(old(wst).text_edit_state), e1, h, *ii, edit_psw(*wgt), final(wst).text_edit_state, r,
                final(ws).invalidated_spec().contains(wgt.id)),
        old(wst).text_edit_state.wgt_id != wgt.id && old(wst).text_edit_state.wgt_id != WIDGET_ID_NONE
            ==> edit_input_done(edit_view(old(wst).text_edit_state), *ii, edit_psw(*wgt), final(wst).text_edit_state, r,
                final(ws).invalidated_spec().contains(wgt.id)),
{
    let ghost e0 = edit_view(wst.text_edit_state);
    if wgt.id == wst.text_edit_state.wgt_id {
        // if in edit state, allow user to handle key
        let mut txt = wst.text_edit_state.txt.clone();
        let mut cursor_pos = wst.text_edit_state.cursor_pos;
        let user_handled = ws.on_text_edit_input_evt(wgt, ii, &mut txt, &mut cursor_pos);
        wst.text_edit_state.txt = txt;
        wst.text_edit_state.cursor_pos = cursor_pos;
        if user_handled {
            ws.invalidate(wgt.id);
            proof {
                assert(edit_after_handler(e0, edit_view(wst.text_edit_state), true, *ii, edit_psw(*wgt), wst.text_edit_state, true,
                    ws.invalidated_spec().contains(wgt.id)));
            }
            return true;
        }
        // user let us continue checking the key
    }
    let ghost e1 = edit_view(wst.text_edit_state);
    let is_psw_masked = match wgt.prop {
        Property::TextEdit(p) => p.psw_mask,
        _ => false,
    };
    if wst.text_edit_state.wgt_id != WIDGET_ID_NONE {
        let outcome = edit_on_input(&mut wst.text_edit_state, ii, is_psw_masked);
        let r = match outcome {
            EditOutcome::Ignored => false,
            EditOutcome::Handled => true,
            EditOutcome::Redraw => {
                ws.invalidate(wgt.id);
                true
            },
            EditOutcome::Commit => {
                // finish editing
                ws.on_text_edit_change(wgt, &mut wst.text_edit_state.txt);
                wst.text_edit_state.wgt_id = WIDGET_ID_NONE;
                ws.invalidate(wgt.id);
                true
            },
        };
        proof {
            assert(edit_input_done(e1, *ii, edit_psw(*wgt), wst.text_edit_state, r, ws.invalidated_spec().contains(wgt.id)));
            if e0.id == wgt.id {
                assert(edit_after_handler(e0, e1, false, *ii, edit_psw(*wgt), wst.text_edit_state, r,
                    ws.invalidated_spec().contains(wgt.id)));
            }
        }
        r
    } else {
        match ii.evnt {
            InputEvent::Key(Key::Enter) => {
                // enter edit mode
                wst.text_edit_state.wgt_id = wgt.id;
                wst.text_edit_state.txt = String::new();
                ws.get_text_edit_text(wgt, &mut wst.text_edit_state.txt, true);
                let n = wst.text_edit_state.txt.as_str().unicode_len();
                wst.text_edit_state.cursor_pos = if n <= 32767 { n as i16 } else { i16::MAX };
                ws.invalidate(wgt.id);
                true
            },
            _ => false,
        }
    }
}

fn process_key_check_box<W: WindowState>(ws: &mut W, wst: &mut WidgetState, wgt: &Widget, ii: &InputInfo) -> (r: bool)
    ensures
        r == is_toggle_input(*ii),
        !r ==> *final(ws) == *old(ws) && *final(wst) == *old(wst),
        r ==> final(wst).window_calls@ == old(wst).window_calls@.push(WindowCall::CheckboxToggle(wgt.id)),
{
    if toggle_input(ii) {
        ws.on_checkbox_toggle(wgt);
        proof {
            wst.window_calls@ = wst.window_calls@.push(WindowCall::CheckboxToggle(wgt.id));
        }
        ws.invalidate(wgt.id);
        return true;
    }
    false
}

fn process_key_radio<W: WindowState>(ws: &mut W, wst: &mut WidgetState, wgt: &Widget, ii: &InputInfo) -> (r: bool)
    ensures
        r == is_toggle_input(*ii),
        !r ==> *final(ws) == *old(ws) && *final(wst) == *old(wst),
        r ==> final(wst).window_calls@ == old(wst).window_calls@.push(WindowCall::RadioSelect(wgt.id)),
{
    if toggle_input(ii) {
        ws.on_radio_select(wgt);
        proof {
            wst.window_calls@ = wst.window_calls@.push(WindowCall::RadioSelect(wgt.id));
        }
        invalidate_radio_group(ws, wgt);
        return true;
    }
    false
}

fn process_key_button<P: Pal, W: WindowState>(ws: &mut W, wst: &mut WidgetState, term: &mut Term<P>, wgt: &Widget, ii: &InputInfo) -> (r: bool)
    ensures
        event_key(*ii) == Some(Key::Enter) ==> r,
        final(term).font() == old(term).font(),
        final(term).logs_row == old(term).logs_row,
{
    if ws.on_button_key(wgt, ii) {
        // user handled the keyboard event
        return true;
    }
    match ii.evnt {
        InputEvent::Key(Key::Enter) => {
            // pointer may change between onButtonUp and onButtonClick, so remember it
            wst.mouse_down_wgt = wgt.id;
            ws.on_button_down(wgt, ii);
            ws.instant_redraw(wgt.id);
            term.pal.sleep(200);
            wst.mouse_down_wgt = WIDGET_ID_NONE;
            ws.on_button_up(wgt, ii);
            ws.on_button_click(wgt, ii);
            ws.invalidate(wgt.id);
            true
        },
        _ => false,
    }
}

fn process_key_page_ctrl<P: Pal, W: WindowState>(ws: &mut W, wst: &mut WidgetState, term: &mut Term<P>, wgt: &Widget, ii: &InputInfo) -> (r: bool)
    ensures
        r == (event_key(*ii) == Some(Key::PgDown) || event_key(*ii) == Some(Key::PgUp)
            || event_key(*ii) == Some(Key::F11) || event_key(*ii) == Some(Key::F12)),
        final(term).font() == old(term).font(),
        final(term).logs_row == old(term).logs_row,
        !r ==> *final(ws) == *old(ws) && *final(wst) == *old(wst) && final(term).sent@ == old(term).sent@,
{
    match ii.evnt {
        InputEvent::Key(key) => {
            match key {
                Key::PgDown | Key::F12 => {
                    pagectrl_change_page(ws, wst, term, wgt, true);
                    true
                },
                Key::PgUp | Key::F11 => {
                    pagectrl_change_page(ws, wst, term, wgt, false);
                    true
                },
                _ => false,
            }
        },
        _ => false,
    }
}

/// Selection step of a list box for a navigation key: a line or a page, only without modifiers
pub open spec fn list_key_delta(key: Key, mask: u8, page: int) -> int {
    if mask != KEY_MOD_SPECIAL {
        0
    } else {
        match key {
            Key::Up => -1,
            Key::Down => 1,
            Key::PgUp => -page,
            Key::PgDown => page,
            _ => 0,
        }
    }
}

/// Selection step of a list box for a navigation key
fn list_delta(key: Key, mask: u8, page: i16) -> (r: i32)
    ensures
        r == list_key_delta(key, mask, page as int),
{
    if mask != KEY_MOD_SPECIAL {
        return 0;
    }
    match key {
        Key::Up => -1,
        Key::Down => 1,
        Key::PgUp => 0 - page as i32,
        Key::PgDown => page as i32,
        _ => 0,
    }
}

/// The state of the list box `w` after a key it takes: Enter makes the selected item its value,
/// a move key moves the selection, wrapping around; nothing changes in an empty list
pub open spec fn list_after_key(ls: LbxState, w: Widget, ii: InputInfo) -> LbxState {
    if ls.items_cnt <= 0 {
        ls
    } else if event_key(ii) == Some(Key::Enter) {
        if ls.sel_idx >= 0 && ls.sel_idx != ls.item_idx {
            LbxState { item_idx: ls.sel_idx, ..ls }
        } else {
            ls
        }
    } else {
        match ii.evnt {
            InputEvent::Key(k) => LbxState {
                sel_idx: wrapped_sel(ls.sel_idx as int, list_key_delta(k, ii.kmod.mask, w.size.height - 2), ls.items_cnt as int) as i16,
                ..ls
            },
            _ => ls,
        }
    }
}

fn process_key_list_box<W: WindowState>(ws: &mut W, wgt: &Widget, ii: &InputInfo) -> (r: bool)
    ensures
        r == (match ii.evnt {
            InputEvent::Key(k) => k == Key::Enter || list_key_delta(k, ii.kmod.mask, wgt.size.height - 2) != 0,
            _ => false,
        }),
        !r ==> *final(ws) == *old(ws),
        r ==> final(ws).list_state_spec(*wgt) == list_after_key(old(ws).list_state_spec(*wgt), *wgt, *ii),
        r && old(ws).list_state_spec(*wgt).items_cnt > 0 ==> final(ws).invalidated_spec().contains(wgt.id),
{
    match ii.evnt {
        InputEvent::Key(key) => {
            let items_visible: i16 = wgt.size.height as i16 - 2;
            match key {
                Key::Enter => {
                    let mut lbs = LbxState::default();
                    ws.get_list_box_state(wgt, &mut lbs);
                    if lbs.items_cnt > 0 {
                        if lbs.sel_idx >= 0 && lbs.sel_idx != lbs.item_idx {
                            ws.on_list_box_change(wgt, lbs.sel_idx);
                        }
                        ws.invalidate(wgt.id);
                    }
                    return true;
                },
                _ => {},
            }
            let delta = list_delta(key, ii.kmod.mask, items_visible);
            if delta != 0 {
                let mut lbs = LbxState::default();
                ws.get_list_box_state(wgt, &mut lbs);
                if lbs.items_cnt > 0 {
                    lbs.sel_idx = wrap_sel(lbs.sel_idx, delta, lbs.items_cnt);
                    ws.on_list_box_select(wgt, lbs.sel_idx);
                    ws.invalidate(wgt.id);
                }
                return true;
            }
            false
        },
        _ => false,
    }
}

/// What an input does to a combo box
#[derive(Copy, Clone, Debug, PartialEq, Eq, Structural)]
pub enum ComboAction {
    /// the input is not for the combo box
    Ignored,
    /// the drop-down list opens (true) or closes (false)
    Drop(bool),
    /// the drop-down list closes
    Hide,
    /// the given item is selected in the open list
    Select(i16),
    /// the given item becomes the combo box's value, and the list closes
    Commit(i16),
}

/// Size of a combo box's drop-down list
pub open spec fn combo_dd_size(wgt: Widget) -> int {
    match wgt.prop {
        Property::ComboBox(p) => p.drop_down_size as int,
        _ => 0,
    }
}

/// The item a click on row `row` selects in the list box `w` whose top row is `top`, with the
/// list in the state `ls`: the row's item on the page of the selected item
pub open spec fn list_click_sel(w: Widget, ls: LbxState, top: int, row: int) -> int {
    let iv = w.size.height - 2;
    ((ls.sel_idx as int) / iv) * iv + row - top - 1
}

/// A left click on row `row` of the list box `w` with its top row at `top` makes the window's
/// list state go from `ls` to `ls1`: in a non-empty list with a selection, the row's item becomes
/// selected
pub open spec fn list_clicked(w: Widget, ls: LbxState, ls1: LbxState, top: int, row: int) -> bool {
    ls.items_cnt > 0 && ls.sel_idx >= 0 && w.size.height > 2 && list_click_sel(w, ls, top, row) < ls.items_cnt
        ==> ls1 == (LbxState { sel_idx: list_click_sel(w, ls, top, row) as i16, ..ls })
}

/// The point `col:row` is on the drop-down arrow of the combo box `w` drawn in `rect`: in its
/// last three columns, on no row of its list
pub open spec fn combo_arrow_hit(w: Widget, rect: Rect, col: int, row: int) -> bool {
    let r = row - rect.coord.row - 1;
    let c = col - rect.coord.col;
    &&& !(0 <= r < combo_dd_size(w))
    &&& rect.size.width - 3 <= c < rect.size.width
}

/// What an input does to a combo box of `cnt` items, `sel` selected, with its list open or not
/// and `dd` items shown in the list: space toggles the list of a non-empty box, Esc closes it;
/// with the list open, Up and Down move the selection by one wrapping around, PgUp and PgDown by
/// a list's length (going past the top selects the last item, past the bottom the first), Enter
/// commits the selection
pub open spec fn combo_input_action(cnt: i16, sel: i16, drop_down: bool, ii: InputInfo, dd: int) -> ComboAction {
    match ii.evnt {
        InputEvent::Char(cb) => if cb.utf8seq[0] == 0x20 && cnt > 0 {
            ComboAction::Drop(!drop_down)
        } else {
            ComboAction::Ignored
        },
        InputEvent::Key(k) => if k == Key::Esc {
            ComboAction::Hide
        } else if !drop_down {
            ComboAction::Ignored
        } else if k == Key::Up {
            ComboAction::Select(if cnt > 0 { wrapped_sel(sel as int, -1, cnt as int) as i16 } else { sel })
        } else if k == Key::Down {
            ComboAction::Select(if cnt > 0 { wrapped_sel(sel as int, 1, cnt as int) as i16 } else { sel })
        } else if k == Key::PgUp && ii.kmod.mask == KEY_MOD_SPECIAL {
            ComboAction::Select(if sel - dd < 0 { cnt.wrapping_sub(1) } else { (sel - dd) as i16 })
        } else if k == Key::PgDown && ii.kmod.mask == KEY_MOD_SPECIAL {
            ComboAction::Select(if sel + dd >= cnt { 0 } else { (sel + dd) as i16 })
        } else if k == Key::Enter {
            ComboAction::Commit(sel)
        } else {
            ComboAction::Ignored
        },
        _ => ComboAction::Ignored,
    }
}

/// Computes `combo_input_action` for the combo box state `cbs`
pub fn combo_action(cbs: &CbbxState, ii: &InputInfo, dd_size: i32) -> (r: ComboAction)
    requires
        0 <= dd_size <= 255,
    ensures
        r == combo_input_action(cbs.items_cnt, cbs.sel_idx, cbs.drop_down, *ii, dd_size as int),
{
    match ii.evnt {
        InputEvent::Char(cb) => {
            if cb.utf8seq[0] == 0x20u8 && cbs.items_cnt > 0 {
                ComboAction::Drop(!cbs.drop_down)
            } else {
                ComboAction::Ignored
            }
        },
        InputEvent::Key(key) => {
            if key == Key::Esc {
                ComboAction::Hide
            } else if !cbs.drop_down {
                ComboAction::Ignored
            } else if key == Key::Up {
                ComboAction::Select(if cbs.items_cnt > 0 { wrap_sel(cbs.sel_idx, -1, cbs.items_cnt) } else { cbs.sel_idx })
            } else if key == Key::Down {
                ComboAction::Select(if cbs.items_cnt > 0 { wrap_sel(cbs.sel_idx, 1, cbs.items_cnt) } else { cbs.sel_idx })
            } else if key == Key::PgUp && ii.kmod.mask == KEY_MOD_SPECIAL {
                let s: i32 = cbs.sel_idx as i32 - dd_size;
                ComboAction::Select(if s < 0 { cbs.items_cnt.wrapping_sub(1) } else { s as i16 })
            } else if key == Key::PgDown && ii.kmod.mask == KEY_MOD_SPECIAL {
                let s: i32 = cbs.sel_idx as i32 + dd_size;
                ComboAction::Select(if s >= cbs.items_cnt as i32 { 0 } else { s as i16 })
            } else if key == Key::Enter {
                ComboAction::Commit(cbs.sel_idx)
            } else {
                ComboAction::Ignored
            }
        },
        _ => ComboAction::Ignored,
    }
}

/// The combo box `wgt` took input as `action` says: the answer is whether the input was taken;
/// an opened list is the open drop-down of the window, a closed one leaves none open; the window's
/// state of the combo box goes from `cs0` to `cs1`: the selection, the value and the list's being
/// open change as the action says, and nothing else
pub open spec fn combo_done(action: ComboAction, wgt: Widget, wst: WidgetState, r: bool, cs0: CbbxState, cs1: CbbxState) -> bool {
    &&& r == !(action is Ignored)
    &&& action == ComboAction::Drop(true) ==> wst.cbx_drop_down == wgt.id
    &&& (action == ComboAction::Drop(false) || action is Hide || action is Commit) ==> wst.cbx_drop_down == WIDGET_ID_NONE
    &&& cs1 == match action {
        ComboAction::Ignored => cs0,
        ComboAction::Drop(b) => CbbxState { drop_down: b, ..cs0 },
        ComboAction::Hide => CbbxState { drop_down: false, ..cs0 },
        ComboAction::Select(i) => CbbxState { sel_idx: i, ..cs0 },
        ComboAction::Commit(i) => CbbxState { item_idx: i, drop_down: false, ..cs0 },
    }
}

fn process_key_combo_box<W: WindowState>(ws: &mut W, wst: &mut WidgetState, wgt: &Widget, ii: &InputInfo) -> (r: bool)
    ensures
        event_key(*ii) == Some(Key::Esc) ==> r && final(wst).cbx_drop_down == WIDGET_ID_NONE,
        !(ii.evnt is Key || ii.evnt is Char) ==> !r,
        final(wst).mouse_down_wgt == old(wst).mouse_down_wgt,
        ({
            let c = old(ws).combo_state_spec(*wgt);
            combo_done(
                combo_input_action(c.items_cnt, c.sel_idx, c.drop_down, *ii, combo_dd_size(*wgt)),
                *wgt,
                *final(wst),
                r,
                c,
                final(ws).combo_state_spec(*wgt),
            )
        }),
        final(ws).widgets_spec() == old(ws).widgets_spec(),
{
    let mut cbs = CbbxState::default();
    ws.get_combo_box_state(wgt, &mut cbs);
    let dd_size: i32 = match wgt.prop {
        Property::ComboBox(p) => p.drop_down_size as i32,
        _ => 0,
    };
    let action = combo_action(&cbs, ii, dd_size);
    let input_handled = match action {
        ComboAction::Ignored => false,
        ComboAction::Drop(open) => {
            if open {
                ws.on_combo_box_drop(wgt, true);
                wst.cbx_drop_down = wgt.id;
            } else {
                hide_combo_box_dropdown_list(ws, wst, wgt);
            }
            true
        },
        ComboAction::Hide => {
            hide_combo_box_dropdown_list(ws, wst, wgt);
            true
        },
        ComboAction::Select(sel) => {
            ws.on_combo_box_select(wgt, sel);
            true
        },
        ComboAction::Commit(sel) => {
            ws.on_combo_box_change(wgt, sel);
            hide_combo_box_dropdown_list(ws, wst, wgt);
            true
        },
    };
    if input_handled {
        ws.invalidate(wgt.id);
    }
    assert(combo_done(combo_input_action(cbs.items_cnt, cbs.sel_idx, cbs.drop_down, *ii, combo_dd_size(*wgt)), *wgt, *wst, input_handled,
        cbs, ws.combo_state_spec(*wgt)));
    input_handled
}

/// The first line the text box `w` shows after a move key, from the first line and the number of
/// lines of `tb`
pub open spec fn text_box_top_after_key(tb: (i16, nat), w: Widget, ii: InputInfo) -> int {
    let len: int = if tb.1 <= 32767 { tb.1 as int } else { 32767 };
    let t = match ii.evnt {
        InputEvent::Key(k) => scrolled_top(tb.0 as int, list_key_delta(k, ii.kmod.mask, w.size.height - 2), len, w.size.height - 2),
        _ => tb.0 as int,
    };
    if t > i16::MAX { i16::MAX as int } else { t }
}

fn process_key_text_box<W: WindowState>(ws: &mut W, wgt: &Widget, ii: &InputInfo) -> (r: bool)
    ensures
        r == (match ii.evnt {
            InputEvent::Key(k) => list_key_delta(k, ii.kmod.mask, wgt.size.height - 2) != 0,
            _ => false,
        }),
        !r ==> *final(ws) == *old(ws),
        r ==> final(ws).text_box_spec(*wgt).0 == text_box_top_after_key(old(ws).text_box_spec(*wgt), *wgt, *ii),
        r ==> final(ws).invalidated_spec().contains(wgt.id),
{
    match ii.evnt {
        InputEvent::Key(key) => {
            let lines_visible: i16 = wgt.size.height as i16 - 2;
            let delta = list_delta(key, ii.kmod.mask, lines_visible);
            if delta != 0 {
                let mut tbs = TxtbxState::default();
                ws.get_text_box_state(wgt, &mut tbs);
                let lines_len: i32 = if tbs.lines.len() <= 32767 { tbs.lines.len() as i32 } else { 32767 };
                tbs.top_line = scroll_top(tbs.top_line, delta, lines_len, lines_visible as i32);
                ws.on_text_box_scroll(wgt, tbs.top_line);
                ws.invalidate(wgt.id);
                return true;
            }
            false
        },
        _ => false,
    }
}

// ---------------------------------------------------------------------------------------------- //
// ---- WIDGETS MOUSE PROCESSING FUNCTIONS ------------------------------------------------------ //

/// Mouse data of a mouse event
pub open spec fn event_mouse(ii: InputInfo) -> Option<MouseInfo> {
    match ii.evnt {
        InputEvent::Mouse(m) => Some(m),
        _ => None,
    }
}

/// No widget of the window `ws` shown on screen has the point `col:row` in its area that answers
/// the mouse, as the hit search finds it
pub open spec fn nothing_under<W: WindowState>(ws: &W, col: int, row: int) -> bool {
    hit_at(ws, asked_widths(ws), col, row) is None
}

/// A left click on the widget `w` of the window `ws` moves the focus to it: an enabled text edit,
/// check box, radio button or button, found by its id, and not focused yet
pub open spec fn click_focuses<W: WindowState>(ws: &W, w: Widget) -> bool {
    &&& (w.prop is TextEdit || w.prop is CheckBox || w.prop is Radio || w.prop is Button)
    &&& enabled_chain(ws, ws.widgets_spec(), w, 0)
    &&& w.id != ws.focused_spec()
    &&& widget_by_id(ws.widgets_spec(), w.id) is Some
}

/// Page index a click on row `row` picks on the page control `w` whose top row is `top`
pub open spec fn page_at_row(w: Widget, top: int, row: int) -> int {
    row - top - 1 - match w.prop {
        Property::PageCtrl(p) => p.vert_offs as int,
        _ => 0,
    }
}

/// A left click at `col:row` on the window `ws` took the widget state from `wst0` to `wst1`, and
/// the window to `ws1`: with no widget under the point (as the hit search finds it), nothing
/// changes; a widget found gets the focus where a click gives it, a button the mouse-down mark,
/// a check box its toggle and a radio button its selection handed to the window, a page
/// control the page on the row clicked, a list box the item on the row clicked, and a combo
/// box's list opens or closes on its arrow
pub open spec fn left_click_done<W: WindowState>(
    ws: &W,
    col: int,
    row: int,
    wst0: WidgetState,
    wst1: WidgetState,
    ws1: &W,
) -> bool {
    let aws = asked_widths(ws);
    match hit_at(ws, aws, col, row) {
        None => wst1 == wst0,
        Some(k) => {
            let w = ws.widgets_spec()[k];
            let on = enabled_chain(ws, ws.widgets_spec(), w, 0);
            let pg = page_at_row(w, hit_rects(ws, aws)[k].coord.row as int, row);
            &&& click_focuses(ws, w) ==> wst1.focused_wgt == w.id
            &&& w.prop is Button && on ==> wst1.mouse_down_wgt == w.id
            &&& w.prop is CheckBox && on ==> wst1.window_calls@.len() > 0
                && wst1.window_calls@.last() == WindowCall::CheckboxToggle(w.id)
            &&& w.prop is Radio && on ==> wst1.window_calls@.len() > 0
                && wst1.window_calls@.last() == WindowCall::RadioSelect(w.id)
            &&& w.prop is PageCtrl && on && 0 <= pg < w.link.children_cnt ==> ws1.page_index_spec(w) == pg
            &&& w.prop is ListBox && on ==> list_clicked(
                w,
                ws.list_state_spec(w),
                ws1.list_state_spec(w),
                hit_rects(ws, aws)[k].coord.row as int,
                row,
            )
            &&& w.prop is ComboBox && on && combo_arrow_hit(w, hit_rects(ws, aws)[k], col, row)
                && ws.combo_state_spec(w).items_cnt > 0
                ==> ws1.combo_state_spec(w).drop_down == !ws.combo_state_spec(w).drop_down
        },
    }
}

/// The window's main page control, when enabled, went from `ws0` to `ws1` to its next page, or
/// its previous one, wrapping around
pub open spec fn main_page_stepped<W: WindowState>(ws0: &W, ws1: &W, next: bool) -> bool {
    match main_page_ctrl(ws0.widgets_spec()) {
        Some(pc) => enabled_chain(ws0, ws0.widgets_spec(), pc, 0) ==> ws1.page_index_spec(pc) == page_after_step(
            ws0.page_index_spec(pc) as int,
            next,
            if pc.link.children_cnt <= 32767 { pc.link.children_cnt as int } else { 32767 },
        ),
        None => true,
    }
}

/// The first page control among the children of `wgts[i..]`, the children of the window
pub open spec fn first_page_ctrl(children: Seq<Widget>, i: int) -> Option<Widget>
    decreases children.len() - i,
{
    if i < 0 || i >= children.len() {
        None
    } else if children[i].prop is PageCtrl {
        Some(children[i])
    } else {
        first_page_ctrl(children, i + 1)
    }
}

/// The first page control among the window's children
pub open spec fn main_page_ctrl(wgts: Seq<Widget>) -> Option<Widget> {
    if wgts.len() == 0 {
        None
    } else {
        first_page_ctrl(wgts.subrange(children_range(wgts, wgts[0]).0, children_range(wgts, wgts[0]).1), 0)
    }
}

#[verifier::rlimit(80)]
fn process_mouse<P: Pal, W: WindowState>(ws: &mut W, wst: &mut WidgetState, term: &mut Term<P>, ii: &InputInfo) -> (r: bool)
    ensures
        final(term).font() == old(term).font(),
        final(term).logs_row == old(term).logs_row,
        ii.evnt matches InputEvent::Mouse(m) && m.evt != MouseEvent::ButtonGoBack && m.evt != MouseEvent::ButtonGoForward
            && nothing_under(old(ws), m.col as int, m.row as int) ==> r && *final(wst) == *old(wst)
            && final(term).sent@ == old(term).sent@,
        ii.evnt matches InputEvent::Mouse(m) && m.evt == MouseEvent::ButtonLeft
            && widget_by_id(old(ws).widgets_spec(), old(wst).mouse_down_wgt) is None
            && widget_by_id(old(ws).widgets_spec(), old(wst).cbx_drop_down) is None
            ==> left_click_done(
                old(ws),
                ii.evnt->Mouse_0.col as int,
                ii.evnt->Mouse_0.row as int,
                *old(wst),
                *final(wst),
                final(ws),
            ),
        ii.evnt matches InputEvent::Mouse(m) && (m.evt == MouseEvent::ButtonGoBack || m.evt == MouseEvent::ButtonGoForward)
            && main_page_ctrl(old(ws).widgets_spec()) is Some
            ==> r && main_page_stepped(old(ws), final(ws), ii.evnt->Mouse_0.evt == MouseEvent::ButtonGoForward),
{
    let mouse = match ii.evnt {
        InputEvent::Mouse(m) => m,
        _ => {
            return true;
        },
    };
    if mouse.evt == MouseEvent::ButtonGoBack || mouse.evt == MouseEvent::ButtonGoForward {
        match find_main_pg_control(ws) {
            Some(main_pg_ctrl) => {
                if is_enabled(ws, main_pg_ctrl) {
                    pagectrl_change_page(ws, wst, term, main_pg_ctrl, mouse.evt == MouseEvent::ButtonGoForward);
                }
                return true;
            },
            None => {},
        }
    }
    let mut rct = Rect::cdeflt();
    let ghost ws0 = *ws;
    let ghost rct0 = rct;
    let found = find_at(ws, mouse.col, mouse.row, &mut rct);
    let mut wgt: &'static Widget = match found {
        Some(w) => w,
        None => {
            assert(left_click_done(&ws0, mouse.col as int, mouse.row as int, *old(wst), *wst, ws));
            return true;
        },
    };
    let wgts = ws.get_widgets();
    match find_by_id(wgts, wst.mouse_down_wgt) {
        Some(md_wgt) => {
            // apply only for Button widget
            match md_wgt.prop {
                Property::Button(_) => {
                    // mouse button released over another widget - generate Up event for previously clicked button
                    if mouse.evt == MouseEvent::ButtonReleased && md_wgt.id != wgt.id {
                        process_mouse_button_release(ws, wst, md_wgt, ii);
                        return true;
                    }
                },
                _ => {},
            }
        },
        None => {
            // remember clicked widget
            if mouse.evt.rank() >= MouseEvent::ButtonLeft.rank() && mouse.evt.rank() < MouseEvent::ButtonReleased.rank() {
                wst.mouse_down_wgt = wgt.id;
                wst.mouse_down_ii = *ii;
            }
        },
    }
    // check if drop-down list clicked
    match find_by_id(wgts, wst.cbx_drop_down) {
        Some(cbx) => {
            match cbx.prop {
                Property::ComboBox(prop) => {
                    let mut dropdownlist_rct = Rect::cdeflt();
                    // rect includes the cbx itself
                    dropdownlist_rct.coord = get_screen_coord(ws, cbx);
                    dropdownlist_rct.size.width = cbx.size.width;
                    dropdownlist_rct.size.height = prop.drop_down_size.wrapping_add(1);
                    if dropdownlist_rct.is_point_within(mouse.col, mouse.row) {
                        // yes -> replace data for processing with the drop-down combo
                        wgt = cbx;
                        rct.coord = get_screen_coord(ws, wgt);
                        rct.size = wgt.size;
                    } else if mouse.evt == MouseEvent::ButtonLeft {
                        hide_combo_box_dropdown_list(ws, wst, cbx);
                    }
                },
                _ => {},
            }
        },
        None => {},
    }
    let ghost ws1 = *ws;
    let ghost wst1 = *wst;
    proof {
        if same_answers(old(ws), ws) {
            lemma_enabled_chain_same(old(ws), ws, ws.widgets_spec(), *wgt, 0);
        }
    }
    let handled = mouse_on_widget(ws, wst, term, wgt, &rct, ii);
    if handled && mouse.evt == MouseEvent::ButtonReleased {
        wst.mouse_down_wgt = WIDGET_ID_NONE;
    }
    proof {
        if mouse.evt == MouseEvent::ButtonLeft && widget_by_id(old(ws).widgets_spec(), old(wst).mouse_down_wgt) is None
            && widget_by_id(old(ws).widgets_spec(), old(wst).cbx_drop_down) is None {
            lemma_enabled_chain_same(&ws0, &ws1, ws0.widgets_spec(), *wgt, 0);
            assert(wst1.mouse_down_wgt == wgt.id);
            assert(left_click_done(&ws0, mouse.col as int, mouse.row as int, *old(wst), *wst, ws));
        }
    }
    handled
}

/// Hands a mouse input to the widget `wgt` under the mouse, by its type, when it is enabled;
/// false for an enabled widget of a type that takes no mouse input
fn mouse_on_widget<P: Pal, W: WindowState>(ws: &mut W, wst: &mut WidgetState, term: &mut Term<P>, wgt: &Widget, rct: &Rect, ii: &InputInfo) -> (r: bool)
    ensures
        final(term).font() == old(term).font(),
        final(term).logs_row == old(term).logs_row,
        event_mouse(*ii) matches Some(m) && m.evt == MouseEvent::ButtonLeft ==> {
            &&& click_focuses(old(ws), *wgt) ==> final(wst).focused_wgt == wgt.id
            &&& wgt.prop is Button && enabled_chain(old(ws), old(ws).widgets_spec(), *wgt, 0)
                ==> r && final(wst).mouse_down_wgt == old(wst).mouse_down_wgt
            &&& click_focuses(old(ws), *wgt) ==> r
            &&& wgt.prop is CheckBox && enabled_chain(old(ws), old(ws).widgets_spec(), *wgt, 0)
                ==> final(wst).window_calls@.len() > 0 && final(wst).window_calls@.last() == WindowCall::CheckboxToggle(wgt.id)
            &&& wgt.prop is Radio && enabled_chain(old(ws), old(ws).widgets_spec(), *wgt, 0)
                ==> final(wst).window_calls@.len() > 0 && final(wst).window_calls@.last() == WindowCall::RadioSelect(wgt.id)
            &&& wgt.prop is ListBox && enabled_chain(old(ws), old(ws).widgets_spec(), *wgt, 0) ==> list_clicked(
                *wgt,
                old(ws).list_state_spec(*wgt),
                final(ws).list_state_spec(*wgt),
                rct.coord.row as int,
                event_mouse(*ii).unwrap().row as int,
            )
            &&& wgt.prop is ComboBox && enabled_chain(old(ws), old(ws).widgets_spec(), *wgt, 0)
                && combo_arrow_hit(*wgt, *rct, event_mouse(*ii).unwrap().col as int, event_mouse(*ii).unwrap().row as int) && old(ws).combo_state_spec(*wgt).items_cnt > 0
                ==> final(ws).combo_state_spec(*wgt).drop_down == !old(ws).combo_state_spec(*wgt).drop_down
            &&& wgt.prop is PageCtrl && enabled_chain(old(ws), old(ws).widgets_spec(), *wgt, 0)
                && 0 <= page_at_row(*wgt, rct.coord.row as int, event_mouse(*ii).unwrap().row as int) < wgt.link.children_cnt
                ==> final(ws).page_index_spec(*wgt) == page_at_row(*wgt, rct.coord.row as int, event_mouse(*ii).unwrap().row as int)
        },
{
    if is_enabled(ws, wgt) {
        match wgt.prop {
            Property::TextEdit(_) => process_mouse_text_edit(ws, wst, term, wgt, rct, ii),
            Property::CheckBox(_) => process_mouse_check_box(ws, wst, term, wgt, rct, ii),
            Property::Radio(_) => process_mouse_radio(ws, wst, term, wgt, rct, ii),
            Property::Button(_) => process_mouse_button(ws, wst, term, wgt, rct, ii),
            Property::PageCtrl(_) => process_mouse_page_ctrl(ws, wst, term, wgt, rct, ii),
            Property::ListBox(_) => process_mouse_list_box(ws, wst, term, wgt, rct, ii),
            Property::ComboBox(_) => process_mouse_combo_box(ws, wst, term, wgt, rct, ii, 2),
            Property::CustomWgt(_) => process_mouse_custom_wgt(ws, wgt, rct, ii),
            Property::TextBox(_) => process_mouse_text_box(ws, wst, term, wgt, rct, ii),
            _ => {
                term.move_to_home();
                wst.mouse_down_wgt = WIDGET_ID_NONE;
                return false;
            },
        }
    }
    true
}

fn process_mouse_text_edit<P: Pal, W: WindowState>(ws: &mut W, wst: &mut WidgetState, term: &mut Term<P>, wgt: &Widget, wgt_rect: &Rect, ii: &InputInfo)
    ensures
        event_mouse(*ii) matches Some(m) && m.evt == MouseEvent::ButtonLeft && wgt.id != old(ws).focused_spec()
            && widget_by_id(old(ws).widgets_spec(), wgt.id) is Some ==> final(wst).focused_wgt == wgt.id,
        final(term).font() == old(term).font(),
        final(term).logs_row == old(term).logs_row,
{
    match ii.evnt {
        InputEvent::Mouse(mouse) => {
            if mouse.evt == MouseEvent::ButtonLeft {
                change_focus_to(ws, wst, term, wgt.id);
            }
        },
        _ => {},
    }
}

fn process_mouse_check_box<P: Pal, W: WindowState>(ws: &mut W, wst: &mut WidgetState, term: &mut Term<P>, wgt: &Widget, wgt_rect: &Rect, ii: &InputInfo)
    ensures
        event_mouse(*ii) matches Some(m) && m.evt == MouseEvent::ButtonLeft ==> final(wst).window_calls@.len() > 0
            && final(wst).window_calls@.last() == WindowCall::CheckboxToggle(wgt.id),
        event_mouse(*ii) matches Some(m) && m.evt == MouseEvent::ButtonLeft && wgt.id != old(ws).focused_spec()
            && widget_by_id(old(ws).widgets_spec(), wgt.id) is Some ==> final(wst).focused_wgt == wgt.id,
        final(term).font() == old(term).font(),
        final(term).logs_row == old(term).logs_row,
{
    match ii.evnt {
        InputEvent::Mouse(mouse) => {
            if mouse.evt == MouseEvent::ButtonLeft {
                change_focus_to(ws, wst, term, wgt.id);
                ws.on_checkbox_toggle(wgt);
                proof {
                    wst.window_calls@ = wst.window_calls@.push(WindowCall::CheckboxToggle(wgt.id));
                }
                ws.invalidate(wgt.id);
            }
        },
        _ => {},
    }
}

fn process_mouse_radio<P: Pal, W: WindowState>(ws: &mut W, wst: &mut WidgetState, term: &mut Term<P>, wgt: &Widget, wgt_rect: &Rect, ii: &InputInfo)
    ensures
        event_mouse(*ii) matches Some(m) && m.evt == MouseEvent::ButtonLeft ==> final(wst).window_calls@.len() > 0
            && final(wst).window_calls@.last() == WindowCall::RadioSelect(wgt.id),
        event_mouse(*ii) matches Some(m) && m.evt == MouseEvent::ButtonLeft && wgt.id != old(ws).focused_spec()
            && widget_by_id(old(ws).widgets_spec(), wgt.id) is Some ==> final(wst).focused_wgt == wgt.id,
        final(term).font() == old(term).font(),
        final(term).logs_row == old(term).logs_row,
{
    match ii.evnt {
        InputEvent::Mouse(mouse) => {
            if mouse.evt == MouseEvent::ButtonLeft {
                change_focus_to(ws, wst, term, wgt.id);
                ws.on_radio_select(wgt);
                proof {
                    wst.window_calls@ = wst.window_calls@.push(WindowCall::RadioSelect(wgt.id));
                }
                invalidate_radio_group(ws, wgt);
            }
        },
        _ => {},
    }
}

fn process_mouse_button<P: Pal, W: WindowState>(ws: &mut W, wst: &mut WidgetState, term: &mut Term<P>, wgt: &Widget, wgt_rect: &Rect, ii: &InputInfo)
    ensures
        event_mouse(*ii) matches Some(m) && m.evt == MouseEvent::ButtonLeft && wgt.id != old(ws).focused_spec()
            && widget_by_id(old(ws).widgets_spec(), wgt.id) is Some ==> final(wst).focused_wgt == wgt.id,
        final(term).font() == old(term).font(),
        final(term).logs_row == old(term).logs_row,
        event_mouse(*ii) matches Some(m) && m.evt != MouseEvent::ButtonLeft ==> final(wst).mouse_down_wgt == WIDGET_ID_NONE,
        event_mouse(*ii) matches Some(m) && m.evt == MouseEvent::ButtonLeft ==> final(wst).mouse_down_wgt == old(wst).mouse_down_wgt,
{
    match ii.evnt {
        InputEvent::Mouse(mouse) => {
            let mouse_down_wgt = wst.mouse_down_wgt;
            // pointer may change between onButtonUp and onButtonClick, so remember it
            if mouse.evt == MouseEvent::ButtonLeft {
                change_focus_to(ws, wst, term, wgt.id);
                ws.on_button_down(wgt, ii);
                ws.invalidate(wgt.id);
            } else if mouse.evt == MouseEvent::ButtonReleased && mouse_down_wgt == wgt.id {
                ws.on_button_up(wgt, ii);
                let down_ii = wst.mouse_down_ii;
                ws.on_button_click(wgt, &down_ii);
                wst.mouse_down_wgt = WIDGET_ID_NONE;
                ws.invalidate(wgt.id);
            } else {
                wst.mouse_down_wgt = WIDGET_ID_NONE;
            }
        },
        _ => {},
    }
}

fn process_mouse_button_release<W: WindowState>(ws: &mut W, wst: &mut WidgetState, wgt: &Widget, ii: &InputInfo)
    ensures
        event_mouse(*ii) is Some ==> final(wst).mouse_down_wgt == WIDGET_ID_NONE,
{
    match ii.evnt {
        InputEvent::Mouse(_) => {
            ws.on_button_up(wgt, ii);
            wst.mouse_down_wgt = WIDGET_ID_NONE;
            ws.invalidate(wgt.id);
        },
        _ => {},
    }
}

fn process_mouse_page_ctrl<P: Pal, W: WindowState>(ws: &mut W, wst: &mut WidgetState, term: &mut Term<P>, wgt: &Widget, wgt_rect: &Rect, ii: &InputInfo)
    ensures
        event_mouse(*ii) matches Some(m) && m.evt == MouseEvent::ButtonLeft
            && 0 <= page_at_row(*wgt, wgt_rect.coord.row as int, event_mouse(*ii).unwrap().row as int) < wgt.link.children_cnt
            ==> final(ws).page_index_spec(*wgt) == page_at_row(*wgt, wgt_rect.coord.row as int, event_mouse(*ii).unwrap().row as int),
        final(term).font() == old(term).font(),
        final(term).logs_row == old(term).logs_row,
{
    match ii.evnt {
        InputEvent::Mouse(mouse) => {
            if mouse.evt == MouseEvent::ButtonLeft {
                change_focus_to(ws, wst, term, wgt.id);
                let idx = ws.get_page_ctrl_page_index(wgt);
                let vertoffs: i32 = match wgt.prop {
                    Property::PageCtrl(p) => p.vert_offs as i32,
                    _ => 0,
                };
                let new_idx: i32 = mouse.row as i32 - wgt_rect.coord.row as i32 - 1 - vertoffs;
                if new_idx != idx as i32 && new_idx >= 0 && new_idx < wgt.link.children_cnt as i32 {
                    ws.on_page_control_page_change(wgt, new_idx as i16);
                    ws.invalidate(wgt.id);
                }
            } else if mouse.evt == MouseEvent::WheelUp || mouse.evt == MouseEvent::WheelDown {
                pagectrl_change_page(ws, wst, term, wgt, mouse.evt == MouseEvent::WheelDown);
            }
        },
        _ => {},
    }
}

fn process_mouse_list_box<P: Pal, W: WindowState>(ws: &mut W, wst: &mut WidgetState, term: &mut Term<P>, wgt: &Widget, wgt_rect: &Rect, ii: &InputInfo)
    ensures
        event_mouse(*ii) matches Some(m) && m.evt == MouseEvent::ButtonLeft ==> list_clicked(
            *wgt,
            old(ws).list_state_spec(*wgt),
            final(ws).list_state_spec(*wgt),
            wgt_rect.coord.row as int,
            event_mouse(*ii).unwrap().row as int,
        ),
        final(term).font() == old(term).font(),
        final(term).logs_row == old(term).logs_row,
{
    match ii.evnt {
        InputEvent::Mouse(mouse) => {
            let items_visible: i32 = wgt.size.height as i32 - 2;
            if mouse.evt == MouseEvent::ButtonLeft || mouse.evt == MouseEvent::ButtonMid {
                let focus_changed = change_focus_to(ws, wst, term, wgt.id);
                let mut lbs = LbxState::default();
                ws.get_list_box_state(wgt, &mut lbs);
                if lbs.items_cnt <= 0 || items_visible == 0 {
                    return;
                }
                let page: i32 = lbs.sel_idx as i32 / items_visible;
                assert(-2147483648 * 253 <= page * items_visible <= 2147483648 * 253) by (nonlinear_arith)
                    requires
                        i32::MIN <= page <= i32::MAX,
                        -2 <= items_visible <= 253,
                ;
                let mut new_selidx: i64 = page as i64 * items_visible as i64;
                new_selidx = new_selidx + mouse.row as i64 - wgt_rect.coord.row as i64 - 1;
                if mouse.evt == MouseEvent::ButtonLeft {
                    if new_selidx < lbs.items_cnt as i64 && ((new_selidx != lbs.sel_idx as i64) || focus_changed) {
                        lbs.sel_idx = new_selidx as i16;
                        ws.on_list_box_select(wgt, lbs.sel_idx);
                    }
                } else if new_selidx < lbs.items_cnt as i64 && new_selidx != lbs.item_idx as i64 {
                    lbs.sel_idx = new_selidx as i16;
                    ws.on_list_box_select(wgt, lbs.sel_idx);
                    ws.on_list_box_change(wgt, lbs.sel_idx);
                }
                ws.invalidate(wgt.id);
            } else if mouse.evt == MouseEvent::WheelUp || mouse.evt == MouseEvent::WheelDown {
                change_focus_to(ws, wst, term, wgt.id);
                let mut lbs = LbxState::default();
                ws.get_list_box_state(wgt, &mut lbs);
                if lbs.items_cnt <= 0 {
                    return;
                }
                let mut delta: i32 = if mouse.evt == MouseEvent::WheelUp { -1 } else { 1 };
                if ii.kmod.has_ctrl() {
                    delta = delta * items_visible;
                }
                lbs.sel_idx = wrap_sel(lbs.sel_idx, delta, lbs.items_cnt);
                ws.on_list_box_select(wgt, lbs.sel_idx);
                ws.invalidate(wgt.id);
            }
        },
        _ => {},
    }
}

fn process_mouse_combo_box<P: Pal, W: WindowState>(ws: &mut W, wst: &mut WidgetState, term: &mut Term<P>, wgt: &Widget, wgt_rect: &Rect, ii: &InputInfo, depth: u8)
    ensures
        event_mouse(*ii) matches Some(m) && m.evt == MouseEvent::ButtonLeft && wgt.prop is ComboBox
            && combo_arrow_hit(*wgt, *wgt_rect, m.col as int, m.row as int) && old(ws).combo_state_spec(*wgt).items_cnt > 0
            ==> final(ws).combo_state_spec(*wgt).drop_down == !old(ws).combo_state_spec(*wgt).drop_down,
        final(term).font() == old(term).font(),
        final(term).logs_row == old(term).logs_row,
    decreases depth,
{
    match ii.evnt {
        InputEvent::Mouse(mouse) => {
            let drop_down_size: i32 = match wgt.prop {
                Property::ComboBox(p) => p.drop_down_size as i32,
                _ => 1,
            };
            if mouse.evt == MouseEvent::ButtonLeft {
                change_focus_to(ws, wst, term, wgt.id);
                let col: i32 = mouse.col as i32 - wgt_rect.coord.col as i32;
                let row: i32 = mouse.row as i32 - wgt_rect.coord.row as i32 - 1;
                if row >= 0 && row < drop_down_size {
                    let mut cbs = CbbxState::default();
                    ws.get_combo_box_state(wgt, &mut cbs);
                    // top item
                    let top: i32 = cbs.sel_idx as i32 / drop_down_size;
                    assert(-2147483648 * 255 <= top * drop_down_size <= 2147483648 * 255) by (nonlinear_arith)
                        requires
                            i32::MIN <= top <= i32::MAX,
                            0 < drop_down_size <= 255,
                    ;
                    let sel: i64 = top as i64 * drop_down_size as i64 + row as i64;
                    if sel < cbs.items_cnt as i64 {
                        cbs.sel_idx = sel as i16;
                        ws.on_combo_box_select(wgt, cbs.sel_idx);
                        ws.invalidate(wgt.id);
                    }
                } else if col >= wgt_rect.size.width as i32 - 3 && col < wgt_rect.size.width as i32 {
                    let mut cbs = CbbxState::default();
                    ws.get_combo_box_state(wgt, &mut cbs);
                    // drop down arrow clicked
                    if cbs.items_cnt <= 0 {
                        return;
                    }
                    cbs.drop_down = !cbs.drop_down;
                    if cbs.drop_down {
                        ws.on_combo_box_drop(wgt, true);
                        ws.invalidate(wgt.id);
                        wst.cbx_drop_down = wgt.id;
                    } else {
                        hide_combo_box_dropdown_list(ws, wst, wgt);
                    }
                }
            } else if mouse.evt == MouseEvent::WheelUp || mouse.evt == MouseEvent::WheelDown {
                change_focus_to(ws, wst, term, wgt.id);
                let mut cbs = CbbxState::default();
                ws.get_combo_box_state(wgt, &mut cbs);
                if !cbs.drop_down || cbs.items_cnt <= 0 {
                    return;
                }
                let mut delta: i32 = if mouse.evt == MouseEvent::WheelUp { -1 } else { 1 };
                if ii.kmod.has_ctrl() {
                    delta = delta * drop_down_size;
                }
                cbs.sel_idx = wrap_sel(cbs.sel_idx, delta, cbs.items_cnt);
                ws.on_combo_box_select(wgt, cbs.sel_idx);
                ws.invalidate(wgt.id);
            } else if mouse.evt == MouseEvent::ButtonMid && depth > 0 {
                let evnt_btn_left = InputInfo {
                    evnt: InputEvent::Mouse(MouseInfo { evt: MouseEvent::ButtonLeft, col: mouse.col, row: mouse.row }),
                    kmod: ii.kmod,
                    name: "",
                };
                process_mouse_combo_box(ws, wst, term, wgt, wgt_rect, &evnt_btn_left, depth - 1);
                let mut cbs = CbbxState::default();
                ws.get_combo_box_state(wgt, &mut cbs);
                if !cbs.drop_down {
                    return;
                }
                ws.on_combo_box_change(wgt, cbs.sel_idx);
                hide_combo_box_dropdown_list(ws, wst, wgt);
            }
        },
        _ => {},
    }
}

fn process_mouse_custom_wgt<W: WindowState>(ws: &mut W, wgt: &Widget, wgt_rect: &Rect, ii: &InputInfo) {
    ws.on_custom_widget_input_evt(wgt, ii);
}

fn process_mouse_text_box<P: Pal, W: WindowState>(ws: &mut W, wst: &mut WidgetState, term: &mut Term<P>, wgt: &Widget, wgt_rect: &Rect, ii: &InputInfo)
    ensures
        final(term).font() == old(term).font(),
        final(term).logs_row == old(term).logs_row,
{
    match ii.evnt {
        InputEvent::Mouse(mouse) => {
            change_focus_to(ws, wst, term, wgt.id);
            if mouse.evt == MouseEvent::WheelUp || mouse.evt == MouseEvent::WheelDown {
                let mut tbs = TxtbxState::default();
                ws.get_text_box_state(wgt, &mut tbs);
                if tbs.lines.len() > 0 {
                    let mut delta: i32 = if mouse.evt == MouseEvent::WheelUp { -1 } else { 1 };
                    let lines_visible: i32 = wgt.size.height as i32 - 2;
                    if ii.kmod.has_ctrl() {
                        delta = delta * lines_visible;
                    }
                    let lines_len: i32 = if tbs.lines.len() <= 32767 { tbs.lines.len() as i32 } else { 32767 };
                    tbs.top_line = scroll_top(tbs.top_line, delta, lines_len, lines_visible);
                    change_focus_to(ws, wst, term, wgt.id);
                    ws.on_text_box_scroll(wgt, tbs.top_line);
                    ws.invalidate(wgt.id);
                }
            }
        },
        _ => {},
    }
}

// ---------------------------------------------------------------------------------------------- //
// ---- INPUT DISPATCH -------------------------------------------------------------------------- //

/// Processes an input event for the window: mouse events go to the widget under the cursor,
/// keys to the focused widget; unhandled Esc moves the focus to the parent and Tab to the
/// next widget; what is still unhandled goes to the window's handler.
/// Returns whether the event was handled
pub fn process_input<P: Pal, W: WindowState>(ws: &mut W, wst: &mut WidgetState, term: &mut Term<P>, ii: &InputInfo) -> (r: bool)
    ensures
        ii.evnt is NoInput ==> r && *final(wst) == *old(wst) && final(term).sent@ == old(term).sent@,
        (ii.evnt is Key || ii.evnt is Char) && widget_key_answer(old(ws), *ii) == Some(true) ==> r,
        (ii.evnt is Key || ii.evnt is Char) ==> (key_toggle_call(old(ws), *ii) matches Some(c)
            ==> final(wst).window_calls@.len() > 0 && final(wst).window_calls@.last() == c),
        (ii.evnt is Key || ii.evnt is Char) ==> (key_taken_by(old(ws), *ii) matches Some(w)
            ==> key_done(old(ws), final(ws), w, *ii)),
        (ii.evnt is Key || ii.evnt is Char) && widget_key_answer(old(ws), *ii) == Some(false)
            && ii.kmod.mask & KEY_MOD_SPECIAL == 0 ==> r == (old(ws).widgets_spec().len() > 0
            && old(ws).unhandled_spec(old(ws).widgets_spec()[0], *ii)),
        ii.evnt matches InputEvent::Mouse(m) && m.evt == MouseEvent::ButtonLeft
            && widget_by_id(old(ws).widgets_spec(), old(wst).mouse_down_wgt) is None
            && widget_by_id(old(ws).widgets_spec(), old(wst).cbx_drop_down) is None
            ==> left_click_done(
                old(ws),
                ii.evnt->Mouse_0.col as int,
                ii.evnt->Mouse_0.row as int,
                *old(wst),
                *final(wst),
                final(ws),
            ),
        ii.evnt matches InputEvent::Mouse(m) && (m.evt == MouseEvent::ButtonGoBack || m.evt == MouseEvent::ButtonGoForward)
            && main_page_ctrl(old(ws).widgets_spec()) is Some
            ==> r && main_page_stepped(old(ws), final(ws), ii.evnt->Mouse_0.evt == MouseEvent::ButtonGoForward),
        ({
            let nid = next_focus_id(old(ws), old(ws).focused_spec(), ii.kmod.mask & KEY_MOD_SHIFT == 0);
            ii.evnt == InputEvent::Key(Key::Tab) && ii.kmod.mask & KEY_MOD_SPECIAL != 0
                && widget_key_answer(old(ws), *ii) == Some(false)
                && widget_by_id(old(ws).widgets_spec(), old(wst).cbx_drop_down) is None
                && nid != old(ws).focused_spec()
                ==> r && final(ws).focused_spec() == nid
                    && (widget_by_id(old(ws).widgets_spec(), nid) is Some ==> final(wst).focused_wgt == nid)
        }),
        ({
            let pid = parent_focus_id(old(ws).widgets_spec(), old(ws).focused_spec());
            ii.evnt == InputEvent::Key(Key::Esc) && ii.kmod.mask & KEY_MOD_SPECIAL != 0
                && widget_key_answer(old(ws), *ii) == Some(false)
                && widget_by_id(old(ws).widgets_spec(), old(wst).cbx_drop_down) is None
                && pid != old(ws).focused_spec()
                ==> r && final(ws).focused_spec() == pid
                    && (widget_by_id(old(ws).widgets_spec(), pid) is Some ==> final(wst).focused_wgt == pid)
        }),
        ii.evnt matches InputEvent::Mouse(m) && m.evt != MouseEvent::ButtonGoBack && m.evt != MouseEvent::ButtonGoForward
            && nothing_under(old(ws), m.col as int, m.row as int) ==> r && *final(wst) == *old(wst)
            && final(term).sent@ == old(term).sent@,
        final(term).font() == old(term).font(),
        final(term).logs_row == old(term).logs_row,
{
    match ii.evnt {
        InputEvent::NoInput => true,
        InputEvent::Mouse(_) => process_mouse(ws, wst, term, ii),
        InputEvent::Key(_) | InputEvent::Char(_) => {
            let mut input_handled = process_key(ws, wst, term, ii);
            if !input_handled && ii.kmod.has_special() {
                let dd_combo_id = wst.cbx_drop_down;
                match find_by_id(ws.get_widgets(), dd_combo_id) {
                    Some(wgt) => hide_combo_box_dropdown_list(ws, wst, wgt),
                    None => {},
                }
                match ii.evnt {
                    InputEvent::Key(Key::Esc) => {
                        let ghost w_prev = *ws;
                        let curr_id = ws.get_focused_id();
                        proof {
                            if same_answers(old(ws), &w_prev) {
                                lemma_same_answers_trans(old(ws), &w_prev, ws);
                            }
                        }
                        let new_id = get_parent_to_focus(ws, curr_id);
                        input_handled = change_focus_to(ws, wst, term, new_id);
                    },
                    InputEvent::Key(Key::Tab) => {
                        let ghost w_prev = *ws;
                        let curr_id = ws.get_focused_id();
                        proof {
                            if same_answers(old(ws), &w_prev) {
                                lemma_same_answers_trans(old(ws), &w_prev, ws);
                                lemma_next_focus_same(old(ws), ws, curr_id, !(ii.kmod.mask & KEY_MOD_SHIFT != 0));
                            }
                        }
                        let new_id = get_next_to_focus(ws, curr_id, !ii.kmod.has_shift());
                        input_handled = change_focus_to(ws, wst, term, new_id);
                    },
                    _ => {},
                }
            }
            if !input_handled {
                let wgts = ws.get_widgets();
                if wgts.len() > 0 {
                    input_handled = ws.on_window_unhandled_input_evt(&wgts[0], ii);
                }
            }
            input_handled
        },
    }
}

} // verus!
