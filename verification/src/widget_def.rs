//! # RTWins Widget definitions

use vstd::prelude::*;
use std::collections::BTreeMap;
use crate::common::Coord;
use crate::common::Size;
use crate::input::InputInfo;
use crate::pal::Pal;
use crate::terminal::Term;

pub mod prop;
pub mod rstate;

verus! {

/// Widget unique identifier
pub type WId = u16;

/// Convenient, default value that points to nothing
pub const WIDGET_ID_NONE: WId = 0u16;

/// Used as a special function parameter
pub const WIDGET_ID_ALL: WId = 65535u16;

/// Identifiers for `count` widgets, numbered from `WIDGET_ID_NONE + 1` on
pub fn generate_ids(count: u16) -> (ids: Vec<WId>)
    requires
        count < 65535,
    ensures
        ids@.len() == count,
        forall|i: int| 0 <= i < count ==> #[trigger] ids@[i] == WIDGET_ID_NONE + 1 + i,
{
    let mut ids: Vec<WId> = Vec::new();
    let mut i: u16 = 0;
    while i < count
        invariant
            i <= count < 65535,
            ids@.len() == i,
            forall|j: int| 0 <= j < i ==> #[trigger] ids@[j] == WIDGET_ID_NONE + 1 + j,
        decreases count - i,
    {
        ids.push(WIDGET_ID_NONE + 1 + i);
        i = i + 1;
    }
    ids
}

/// Visual style of button
#[derive(Copy, Clone, Debug, PartialEq, Eq, Structural)]
pub enum ButtonStyle {
    Simple,
    Solid,
    Solid1p5,
}

/// Visual style of Progress Bar
#[derive(Copy, Clone, Debug, PartialEq, Eq, Structural)]
pub enum PgBarStyle {
    /// #
    Hash,
    ///  ▒
    Shade,
    /// □
    Rectangle,
}

/// Window, panel and page control frame styles
#[derive(Copy, Clone, Debug, PartialEq, Eq, Structural)]
pub enum FrameStyle {
    NoFrame,
    Single,
    Double,
    PgControl,
    ListBox,
}

/// Widget type with all specific data
#[derive(Copy, Clone)]
pub enum Property {
    NoWgt,
    Window(prop::Window),
    Panel(prop::Panel),
    Label(prop::Label),
    TextEdit(prop::TextEdit),
    CheckBox(prop::CheckBox),
    Radio(prop::Radio),
    Button(prop::Button),
    Led(prop::Led),
    PageCtrl(prop::PageCtrl),
    Page(prop::Page),
    ProgressBar(prop::ProgressBar),
    ListBox(prop::ListBox),
    ComboBox(prop::ComboBox),
    CustomWgt(prop::CustomWgt),
    TextBox(prop::TextBox),
    Layer(prop::Layer),
}

impl Property {
    /// Returns default object
    pub fn cdeflt() -> (p: Self)
        ensures
            p is NoWgt,
    {
        Self::NoWgt
    }

    /// Name of the widget type
    pub fn name(&self) -> (r: &'static str)
        ensures
            r == (match *self {
                Property::NoWgt => "NoWgt",
                Property::Window(_) => "Window",
                Property::Panel(_) => "Panel",
                Property::Label(_) => "Label",
                Property::TextEdit(_) => "TextEdit",
                Property::CheckBox(_) => "CheckBox",
                Property::Radio(_) => "Radio",
                Property::Button(_) => "Button",
                Property::Led(_) => "Led",
                Property::PageCtrl(_) => "PageCtrl",
                Property::Page(_) => "Page",
                Property::ProgressBar(_) => "ProgressBar",
                Property::ListBox(_) => "ListBox",
                Property::ComboBox(_) => "ComboBox",
                Property::CustomWgt(_) => "CustomWgt",
                Property::TextBox(_) => "TextBox",
                Property::Layer(_) => "Layer",
            }),
    {
        match self {
            Self::NoWgt => "NoWgt",
            Self::Window(_) => "Window",
            Self::Panel(_) => "Panel",
            Self::Label(_) => "Label",
            Self::TextEdit(_) => "TextEdit",
            Self::CheckBox(_) => "CheckBox",
            Self::Radio(_) => "Radio",
            Self::Button(_) => "Button",
            Self::Led(_) => "Led",
            Self::PageCtrl(_) => "PageCtrl",
            Self::Page(_) => "Page",
            Self::ProgressBar(_) => "ProgressBar",
            Self::ListBox(_) => "ListBox",
            Self::ComboBox(_) => "ComboBox",
            Self::CustomWgt(_) => "CustomWgt",
            Self::TextBox(_) => "TextBox",
            Self::Layer(_) => "Layer",
        }
    }

    /// Window properties of a window widget
    pub fn prop_wnd(&self) -> (r: &prop::Window)
        requires
            self is Window,
        ensures
            *r == self->Window_0,
    {
        match self {
            Self::Window(p) => p,
            _ => vstd::pervasive::unreached(),
        }
    }

    /// Panel properties of a panel widget
    pub fn prop_pnl(&self) -> (r: &prop::Panel)
        requires
            self is Panel,
        ensures
            *r == self->Panel_0,
    {
        match self {
            Self::Panel(p) => p,
            _ => vstd::pervasive::unreached(),
        }
    }
}

/// Structure used in flattened widgets structure navigation
#[derive(Copy, Clone, Debug, PartialEq, Eq, Structural)]
pub struct Link {
    pub own_idx: u16,
    pub parent_idx: u16,
    pub children_idx: u16,
    pub children_cnt: u16,
}

impl Link {
    /// Returns default object
    pub fn cdeflt() -> (l: Self)
        ensures
            l == (Link { own_idx: 0, parent_idx: 0, children_idx: 0, children_cnt: 0 }),
    {
        Link { own_idx: 0, parent_idx: 0, children_idx: 0, children_cnt: 0 }
    }
}

/// Widget itself, used for static UI definition;
/// contains only static, readonly properties
#[derive(Copy, Clone)]
pub struct Widget {
    /// Unique widget ID
    pub id: WId,
    /// coordinates
    pub coord: Coord,
    /// widget size
    pub size: Size,
    /// indexes used after flattening widget tree to array
    pub link: Link,
    /// widget properties defining it's type
    pub prop: Property,
    /// link to children widgets; empty after processing with `tree_to_array()`
    pub children: &'static [Widget],
}

impl Widget {
    /// Returns default object
    pub fn cdeflt() -> (w: Self)
        ensures
            w.id == WIDGET_ID_NONE,
            w.link == (Link { own_idx: 0, parent_idx: 0, children_idx: 0, children_cnt: 0 }),
            w.coord == (Coord { col: 0, row: 0 }),
            w.size == (Size { width: 0, height: 0 }),
            w.prop is NoWgt,
            w.children@.len() == 0,
    {
        Widget {
            id: WIDGET_ID_NONE,
            link: Link::cdeflt(),
            coord: Coord::cdeflt(),
            size: Size::cdeflt(),
            prop: Property::cdeflt(),
            children: &[],
        }
    }
}

/// Contains runtime states for most types of the widgets
pub struct RuntimeStates {
    pub chbx: BTreeMap<WId, rstate::ChbxState>,
    pub led: BTreeMap<WId, rstate::LedState>,
    pub lbl: BTreeMap<WId, rstate::LblState>,
    pub lbx: BTreeMap<WId, rstate::LbxState>,
    pub cbbx: BTreeMap<WId, rstate::CbbxState>,
    pub pgbar: BTreeMap<WId, rstate::PgbarState>,
    pub txtbx: BTreeMap<WId, rstate::TxtbxState>,
    pub pgctrl: BTreeMap<WId, rstate::PgctrlState>,
    pub txte: BTreeMap<WId, rstate::TxteState>,
    /// applies to every widget
    pub enabled: BTreeMap<WId, bool>,
}

/// Whether the enabled states say that widget `id` is enabled: as set, or enabled when not set
pub open spec fn enabled_or_default(enabled: Map<WId, bool>, id: WId) -> bool {
    if enabled.contains_key(id) {
        enabled[id]
    } else {
        true
    }
}

/// The widget-type states of `a` and `b` are the same
pub open spec fn same_type_states(a: RuntimeStates, b: RuntimeStates) -> bool {
    &&& a.chbx@ == b.chbx@
    &&& a.led@ == b.led@
    &&& a.lbl@ == b.lbl@
    &&& a.lbx@ == b.lbx@
    &&& a.cbbx@ == b.cbbx@
    &&& a.pgbar@ == b.pgbar@
    &&& a.txtbx@ == b.txtbx@
    &&& a.pgctrl@ == b.pgctrl@
    &&& a.txte@ == b.txte@
}

/// A widget reads back the enabled state last set for it; the other widgets are not affected
pub proof fn lemma_enabled_read_after_write(enabled: Map<WId, bool>, id: WId, en: bool, other: WId)
    ensures
        enabled_or_default(enabled.insert(id, en), id) == en,
        other != id ==> enabled_or_default(enabled.insert(id, en), other) == enabled_or_default(enabled, other),
        enabled_or_default(Map::<WId, bool>::empty(), other),
{
}

impl Default for RuntimeStates {
    fn default() -> (r: Self)
        ensures
            r.enabled@ == Map::<WId, bool>::empty(),
            r.chbx@ == Map::<WId, rstate::ChbxState>::empty(),
            r.led@ == Map::<WId, rstate::LedState>::empty(),
            r.lbl@ == Map::<WId, rstate::LblState>::empty(),
            r.lbx@ == Map::<WId, rstate::LbxState>::empty(),
            r.cbbx@ == Map::<WId, rstate::CbbxState>::empty(),
            r.pgbar@ == Map::<WId, rstate::PgbarState>::empty(),
            r.txtbx@ == Map::<WId, rstate::TxtbxState>::empty(),
            r.pgctrl@ == Map::<WId, rstate::PgctrlState>::empty(),
            r.txte@ == Map::<WId, rstate::TxteState>::empty(),
    {
        RuntimeStates {
            chbx: BTreeMap::new(),
            led: BTreeMap::new(),
            lbl: BTreeMap::new(),
            lbx: BTreeMap::new(),
            cbbx: BTreeMap::new(),
            pgbar: BTreeMap::new(),
            txtbx: BTreeMap::new(),
            pgctrl: BTreeMap::new(),
            txte: BTreeMap::new(),
            enabled: BTreeMap::new(),
        }
    }
}

impl RuntimeStates {
    /// Enabled state of a widget; enabled when not set
    pub fn get_enabled_or_default(&self, id: WId) -> (r: bool)
        ensures
            r == enabled_or_default(self.enabled@, id),
    {
        match self.enabled.get(&id) {
            Some(en) => *en,
            None => true,
        }
    }

    /// Sets enabled state of a widget
    pub fn set_enabled(&mut self, id: WId, en: bool)
        ensures
            final(self).enabled@ == old(self).enabled@.insert(id, en),
            same_type_states(*final(self), *old(self)),
    {
        self.enabled.insert(id, en);
    }
}

/// The two window states give the same answers: the same widgets, screen position, focused
/// widget, visible, enabled, page and combo box states, and answers of the window's own
/// handler to unhandled input
pub open spec fn same_answers<W: WindowState + ?Sized>(a: &W, b: &W) -> bool {
    &&& a.widgets_spec() == b.widgets_spec()
    &&& a.window_coord_spec() == b.window_coord_spec()
    &&& forall|w: Widget| #[trigger] a.visible_spec(w) == b.visible_spec(w)
    &&& forall|w: Widget| #[trigger] a.enabled_spec(w) == b.enabled_spec(w)
    &&& forall|w: Widget| #[trigger] a.page_index_spec(w) == b.page_index_spec(w)
    &&& a.focused_spec() == b.focused_spec()
    &&& forall|w: Widget| #[trigger] a.combo_state_spec(w) == b.combo_state_spec(w)
    &&& forall|w: Widget, i: InputInfo| #[trigger] a.unhandled_spec(w, i) == b.unhandled_spec(w, i)
    &&& forall|w: Widget| #[trigger] a.button_text_spec(w) == b.button_text_spec(w)
    &&& forall|w: Widget| #[trigger] a.list_state_spec(w) == b.list_state_spec(w)
    &&& forall|w: Widget| #[trigger] a.text_box_spec(w) == b.text_box_spec(w)
}

/// Window state and event handler
#[allow(unused_variables)]
pub trait WindowState {
    /// The window's widgets, as `get_widgets` gives them
    spec fn widgets_spec(&self) -> Seq<Widget>;

    /// Whether the window shows the widget, as `is_visible` answers
    spec fn visible_spec(&self, wgt: Widget) -> bool;

    /// Whether the window has the widget enabled, as `is_enabled` answers
    spec fn enabled_spec(&self, wgt: Widget) -> bool;

    /// The window's screen position, as `get_window_coord` gives it
    spec fn window_coord_spec(&self) -> Coord;

    /// The page a page control shows, as `get_page_ctrl_page_index` gives it
    spec fn page_index_spec(&self, wgt: Widget) -> i16;

    /// The focused widget's id, as `get_focused_id` gives it
    spec fn focused_spec(&self) -> WId;

    /// The state of a combo box, as `get_combo_box_state` gives it
    spec fn combo_state_spec(&self, wgt: Widget) -> rstate::CbbxState;

    /// Whether the window has the widget drawn as focused, as `is_focused` answers
    spec fn focus_spec(&self, wgt: Widget) -> bool;

    /// The widgets to redraw, as `get_invalidated` gives them
    spec fn invalidated_spec(&self) -> Seq<WId>;

    /// The answer of the window's own handler to an input no widget took
    spec fn unhandled_spec(&self, wgt: Widget, ii: InputInfo) -> bool;

    /// The text of a button with no text of its own, as `get_button_text` gives it
    spec fn button_text_spec(&self, wgt: Widget) -> Seq<char>;

    /// The state of a list box, as `get_list_box_state` gives it
    spec fn list_state_spec(&self, wgt: Widget) -> rstate::LbxState;

    /// The first line a text box shows and its number of lines, as `get_text_box_state` gives them
    spec fn text_box_spec(&self, wgt: Widget) -> (i16, nat);

    /// events
    fn on_button_down(&mut self, wgt: &Widget, ii: &InputInfo) {
    }

    fn on_button_up(&mut self, wgt: &Widget, ii: &InputInfo) {
    }

    fn on_button_click(&mut self, wgt: &Widget, ii: &InputInfo) {
    }

    fn on_button_key(&mut self, wgt: &Widget, ii: &InputInfo) -> (r: bool)
        default_ensures
            !r,
    {
        false
    }

    fn on_text_edit_change(&mut self, wgt: &Widget, txt: &mut String) {
    }

    fn on_text_edit_input_evt(
        &mut self,
        wgt: &Widget,
        ii: &InputInfo,
        txt: &mut String,
        cursor_pos: &mut i16,
    ) -> (r: bool)
        default_ensures
            !r,
    {
        false
    }

    fn on_checkbox_toggle(&mut self, wgt: &Widget) {
    }

    /// The page control shows the page of the given index from now on
    fn on_page_control_page_change(&mut self, wgt: &Widget, new_page_idx: i16)
        ensures
            final(self).page_index_spec(*wgt) == new_page_idx,
            final(self).widgets_spec() == old(self).widgets_spec(),
            final(self).window_coord_spec() == old(self).window_coord_spec(),
            forall|w: Widget| #[trigger] final(self).visible_spec(w) == old(self).visible_spec(w),
            forall|w: Widget| #[trigger] final(self).enabled_spec(w) == old(self).enabled_spec(w),
            forall|w: Widget| w != *wgt ==> #[trigger] final(self).page_index_spec(w) == old(self).page_index_spec(w),
            final(self).focused_spec() == old(self).focused_spec(),
            forall|w: Widget| #[trigger] final(self).combo_state_spec(w) == old(self).combo_state_spec(w),
            forall|w: Widget, i: InputInfo| #[trigger] final(self).unhandled_spec(w, i) == old(self).unhandled_spec(w, i),
            forall|w: Widget| #[trigger] final(self).button_text_spec(w) == old(self).button_text_spec(w),
            forall|w: Widget| #[trigger] final(self).list_state_spec(w) == old(self).list_state_spec(w),
            forall|w: Widget| #[trigger] final(self).text_box_spec(w) == old(self).text_box_spec(w),
    ;

    /// The list box has the given item selected from now on
    fn on_list_box_select(&mut self, wgt: &Widget, new_sel_idx: i16)
        ensures
            final(self).list_state_spec(*wgt) == (rstate::LbxState { sel_idx: new_sel_idx, ..old(self).list_state_spec(*wgt) }),
            final(self).widgets_spec() == old(self).widgets_spec(),
            final(self).window_coord_spec() == old(self).window_coord_spec(),
            forall|w: Widget| #[trigger] final(self).visible_spec(w) == old(self).visible_spec(w),
            forall|w: Widget| #[trigger] final(self).enabled_spec(w) == old(self).enabled_spec(w),
            forall|w: Widget| #[trigger] final(self).page_index_spec(w) == old(self).page_index_spec(w),
            final(self).focused_spec() == old(self).focused_spec(),
            forall|w: Widget| #[trigger] final(self).combo_state_spec(w) == old(self).combo_state_spec(w),
            forall|w: Widget, i: InputInfo| #[trigger] final(self).unhandled_spec(w, i) == old(self).unhandled_spec(w, i),
            forall|w: Widget| #[trigger] final(self).button_text_spec(w) == old(self).button_text_spec(w),
            forall|w: Widget| w != *wgt ==> #[trigger] final(self).list_state_spec(w) == old(self).list_state_spec(w),
            forall|w: Widget| #[trigger] final(self).text_box_spec(w) == old(self).text_box_spec(w),
    ;

    /// The list box's value is the given item from now on
    fn on_list_box_change(&mut self, wgt: &Widget, new_idx: i16)
        ensures
            final(self).list_state_spec(*wgt) == (rstate::LbxState { item_idx: new_idx, ..old(self).list_state_spec(*wgt) }),
            final(self).widgets_spec() == old(self).widgets_spec(),
            final(self).window_coord_spec() == old(self).window_coord_spec(),
            forall|w: Widget| #[trigger] final(self).visible_spec(w) == old(self).visible_spec(w),
            forall|w: Widget| #[trigger] final(self).enabled_spec(w) == old(self).enabled_spec(w),
            forall|w: Widget| #[trigger] final(self).page_index_spec(w) == old(self).page_index_spec(w),
            final(self).focused_spec() == old(self).focused_spec(),
            forall|w: Widget| #[trigger] final(self).combo_state_spec(w) == old(self).combo_state_spec(w),
            forall|w: Widget, i: InputInfo| #[trigger] final(self).unhandled_spec(w, i) == old(self).unhandled_spec(w, i),
            forall|w: Widget| #[trigger] final(self).button_text_spec(w) == old(self).button_text_spec(w),
            forall|w: Widget| w != *wgt ==> #[trigger] final(self).list_state_spec(w) == old(self).list_state_spec(w),
            forall|w: Widget| #[trigger] final(self).text_box_spec(w) == old(self).text_box_spec(w),
    ;

    /// The combo box's list has the given item selected from now on
    fn on_combo_box_select(&mut self, wgt: &Widget, new_sel_idx: i16)
        ensures
            final(self).combo_state_spec(*wgt) == (rstate::CbbxState { sel_idx: new_sel_idx, ..old(self).combo_state_spec(*wgt) }),
            final(self).widgets_spec() == old(self).widgets_spec(),
            final(self).window_coord_spec() == old(self).window_coord_spec(),
            forall|w: Widget| #[trigger] final(self).visible_spec(w) == old(self).visible_spec(w),
            forall|w: Widget| #[trigger] final(self).enabled_spec(w) == old(self).enabled_spec(w),
            forall|w: Widget| #[trigger] final(self).page_index_spec(w) == old(self).page_index_spec(w),
            final(self).focused_spec() == old(self).focused_spec(),
            forall|w: Widget| w != *wgt ==> #[trigger] final(self).combo_state_spec(w) == old(self).combo_state_spec(w),
            forall|w: Widget, i: InputInfo| #[trigger] final(self).unhandled_spec(w, i) == old(self).unhandled_spec(w, i),
            forall|w: Widget| #[trigger] final(self).button_text_spec(w) == old(self).button_text_spec(w),
            forall|w: Widget| #[trigger] final(self).list_state_spec(w) == old(self).list_state_spec(w),
            forall|w: Widget| #[trigger] final(self).text_box_spec(w) == old(self).text_box_spec(w),
    ;

    /// The combo box's value is the given item from now on
    fn on_combo_box_change(&mut self, wgt: &Widget, new_idx: i16)
        ensures
            final(self).combo_state_spec(*wgt) == (rstate::CbbxState { item_idx: new_idx, ..old(self).combo_state_spec(*wgt) }),
            final(self).widgets_spec() == old(self).widgets_spec(),
            final(self).window_coord_spec() == old(self).window_coord_spec(),
            forall|w: Widget| #[trigger] final(self).visible_spec(w) == old(self).visible_spec(w),
            forall|w: Widget| #[trigger] final(self).enabled_spec(w) == old(self).enabled_spec(w),
            forall|w: Widget| #[trigger] final(self).page_index_spec(w) == old(self).page_index_spec(w),
            final(self).focused_spec() == old(self).focused_spec(),
            forall|w: Widget| w != *wgt ==> #[trigger] final(self).combo_state_spec(w) == old(self).combo_state_spec(w),
            forall|w: Widget, i: InputInfo| #[trigger] final(self).unhandled_spec(w, i) == old(self).unhandled_spec(w, i),
            forall|w: Widget| #[trigger] final(self).button_text_spec(w) == old(self).button_text_spec(w),
            forall|w: Widget| #[trigger] final(self).list_state_spec(w) == old(self).list_state_spec(w),
            forall|w: Widget| #[trigger] final(self).text_box_spec(w) == old(self).text_box_spec(w),
    ;

    /// The combo box's list is open (true) or closed (false) from now on
    fn on_combo_box_drop(&mut self, wgt: &Widget, drop_state: bool)
        ensures
            final(self).combo_state_spec(*wgt) == (rstate::CbbxState { drop_down: drop_state, ..old(self).combo_state_spec(*wgt) }),
            final(self).widgets_spec() == old(self).widgets_spec(),
            final(self).window_coord_spec() == old(self).window_coord_spec(),
            forall|w: Widget| #[trigger] final(self).visible_spec(w) == old(self).visible_spec(w),
            forall|w: Widget| #[trigger] final(self).enabled_spec(w) == old(self).enabled_spec(w),
            forall|w: Widget| #[trigger] final(self).page_index_spec(w) == old(self).page_index_spec(w),
            final(self).focused_spec() == old(self).focused_spec(),
            forall|w: Widget| w != *wgt ==> #[trigger] final(self).combo_state_spec(w) == old(self).combo_state_spec(w),
            forall|w: Widget, i: InputInfo| #[trigger] final(self).unhandled_spec(w, i) == old(self).unhandled_spec(w, i),
            forall|w: Widget| #[trigger] final(self).button_text_spec(w) == old(self).button_text_spec(w),
            forall|w: Widget| #[trigger] final(self).list_state_spec(w) == old(self).list_state_spec(w),
            forall|w: Widget| #[trigger] final(self).text_box_spec(w) == old(self).text_box_spec(w),
    ;

    fn on_radio_select(&mut self, wgt: &Widget) {
    }

    /// The text box shows the lines from the given one on from now on
    fn on_text_box_scroll(&mut self, wgt: &Widget, new_top_line: i16)
        ensures
            final(self).text_box_spec(*wgt) == (new_top_line, old(self).text_box_spec(*wgt).1),
            final(self).widgets_spec() == old(self).widgets_spec(),
            final(self).window_coord_spec() == old(self).window_coord_spec(),
            forall|w: Widget| #[trigger] final(self).visible_spec(w) == old(self).visible_spec(w),
            forall|w: Widget| #[trigger] final(self).enabled_spec(w) == old(self).enabled_spec(w),
            forall|w: Widget| #[trigger] final(self).page_index_spec(w) == old(self).page_index_spec(w),
            final(self).focused_spec() == old(self).focused_spec(),
            forall|w: Widget| #[trigger] final(self).combo_state_spec(w) == old(self).combo_state_spec(w),
            forall|w: Widget, i: InputInfo| #[trigger] final(self).unhandled_spec(w, i) == old(self).unhandled_spec(w, i),
            forall|w: Widget| #[trigger] final(self).button_text_spec(w) == old(self).button_text_spec(w),
            forall|w: Widget| #[trigger] final(self).list_state_spec(w) == old(self).list_state_spec(w),
            forall|w: Widget| w != *wgt ==> #[trigger] final(self).text_box_spec(w) == old(self).text_box_spec(w),
    ;

    fn on_custom_widget_draw<P: Pal>(&mut self, wgt: &Widget, term: &mut Term<P>) {
    }

    fn on_custom_widget_input_evt(&mut self, wgt: &Widget, ii: &InputInfo) -> (r: bool)
        default_ensures
            !r,
    {
        false
    }

    fn on_window_unhandled_input_evt(&mut self, wgt: &Widget, ii: &InputInfo) -> (r: bool)
        ensures
            r == old(self).unhandled_spec(*wgt, *ii),
    ;

    /// common state queries
    fn is_enabled(&self, wgt: &Widget) -> (r: bool)
        ensures
            r == self.enabled_spec(*wgt),
    ;

    fn is_focused(&self, wgt: &Widget) -> (r: bool)
        ensures
            r == self.focus_spec(*wgt),
    ;

    fn is_visible(&self, wgt: &Widget) -> (r: bool)
        ensures
            r == self.visible_spec(*wgt),
    ;

    fn is_desktop(&self) -> (r: bool)
        default_ensures
            !r,
    {
        false
    }

    fn get_focused_id(&mut self) -> (r: WId)
        ensures
            r == old(self).focused_spec(),
            final(self).widgets_spec() == old(self).widgets_spec(),
            final(self).window_coord_spec() == old(self).window_coord_spec(),
            forall|w: Widget| #[trigger] final(self).visible_spec(w) == old(self).visible_spec(w),
            forall|w: Widget| #[trigger] final(self).enabled_spec(w) == old(self).enabled_spec(w),
            forall|w: Widget| #[trigger] final(self).page_index_spec(w) == old(self).page_index_spec(w),
            final(self).focused_spec() == old(self).focused_spec(),
            forall|w: Widget| #[trigger] final(self).combo_state_spec(w) == old(self).combo_state_spec(w),
            forall|w: Widget, i: InputInfo| #[trigger] final(self).unhandled_spec(w, i) == old(self).unhandled_spec(w, i),
            forall|w: Widget| #[trigger] final(self).button_text_spec(w) == old(self).button_text_spec(w),
            forall|w: Widget| #[trigger] final(self).list_state_spec(w) == old(self).list_state_spec(w),
            forall|w: Widget| #[trigger] final(self).text_box_spec(w) == old(self).text_box_spec(w),
    ;

    fn get_widgets(&self) -> (r: &'static [Widget])
        ensures
            r@ == self.widgets_spec(),
    ;

    /// Runtime states of the window's widgets, where the window keeps them
    fn get_rstate(&mut self) -> (r: Option<&mut RuntimeStates>)
        default_ensures
            r is None,
    {
        None
    }

    /// widget-specific queries; all mutable params are outputs
    fn get_window_coord(&mut self) -> (r: Coord)
        ensures
            r == old(self).window_coord_spec(),
            final(self).widgets_spec() == old(self).widgets_spec(),
            final(self).window_coord_spec() == old(self).window_coord_spec(),
            forall|w: Widget| #[trigger] final(self).visible_spec(w) == old(self).visible_spec(w),
            forall|w: Widget| #[trigger] final(self).enabled_spec(w) == old(self).enabled_spec(w),
            forall|w: Widget| #[trigger] final(self).page_index_spec(w) == old(self).page_index_spec(w),
            final(self).focused_spec() == old(self).focused_spec(),
            forall|w: Widget| #[trigger] final(self).combo_state_spec(w) == old(self).combo_state_spec(w),
            forall|w: Widget, i: InputInfo| #[trigger] final(self).unhandled_spec(w, i) == old(self).unhandled_spec(w, i),
            forall|w: Widget| #[trigger] final(self).button_text_spec(w) == old(self).button_text_spec(w),
            forall|w: Widget| #[trigger] final(self).list_state_spec(w) == old(self).list_state_spec(w),
            forall|w: Widget| #[trigger] final(self).text_box_spec(w) == old(self).text_box_spec(w),
    ;

    fn get_window_size(&mut self) -> (r: Size)
        default_ensures
            r.width == 0 && r.height == 0,
    {
        Size::cdeflt()
    }

    fn get_window_title(&mut self, wgt: &Widget, out: &mut String) {
    }

    fn get_checkbox_checked(&mut self, wgt: &Widget) -> (r: bool)
        default_ensures
            !r,
    {
        false
    }

    fn get_label_text(&mut self, wgt: &Widget, out: &mut String) {
    }

    fn get_text_edit_text(&mut self, wgt: &Widget, out: &mut String, edit_mode: bool) {
    }

    fn get_led_lit(&mut self, wgt: &Widget) -> (r: bool)
        default_ensures
            !r,
    {
        false
    }

    fn get_led_text(&mut self, wgt: &Widget, out: &mut String) {
    }

    fn get_progress_bar_state(&mut self, wgt: &Widget, out: &mut rstate::PgbarState) {
    }

    fn get_page_ctrl_page_index(&mut self, wgt: &Widget) -> (r: i16)
        ensures
            r == old(self).page_index_spec(*wgt),
            final(self).widgets_spec() == old(self).widgets_spec(),
            final(self).window_coord_spec() == old(self).window_coord_spec(),
            forall|w: Widget| #[trigger] final(self).visible_spec(w) == old(self).visible_spec(w),
            forall|w: Widget| #[trigger] final(self).enabled_spec(w) == old(self).enabled_spec(w),
            forall|w: Widget| #[trigger] final(self).page_index_spec(w) == old(self).page_index_spec(w),
            final(self).focused_spec() == old(self).focused_spec(),
            forall|w: Widget| #[trigger] final(self).combo_state_spec(w) == old(self).combo_state_spec(w),
            forall|w: Widget, i: InputInfo| #[trigger] final(self).unhandled_spec(w, i) == old(self).unhandled_spec(w, i),
            forall|w: Widget| #[trigger] final(self).button_text_spec(w) == old(self).button_text_spec(w),
            forall|w: Widget| #[trigger] final(self).list_state_spec(w) == old(self).list_state_spec(w),
            forall|w: Widget| #[trigger] final(self).text_box_spec(w) == old(self).text_box_spec(w),
    ;

    fn get_list_box_state(&mut self, wgt: &Widget, out: &mut rstate::LbxState)
        ensures
            *final(out) == old(self).list_state_spec(*wgt),
            final(self).widgets_spec() == old(self).widgets_spec(),
            final(self).window_coord_spec() == old(self).window_coord_spec(),
            forall|w: Widget| #[trigger] final(self).visible_spec(w) == old(self).visible_spec(w),
            forall|w: Widget| #[trigger] final(self).enabled_spec(w) == old(self).enabled_spec(w),
            forall|w: Widget| #[trigger] final(self).page_index_spec(w) == old(self).page_index_spec(w),
            final(self).focused_spec() == old(self).focused_spec(),
            forall|w: Widget| #[trigger] final(self).combo_state_spec(w) == old(self).combo_state_spec(w),
            forall|w: Widget, i: InputInfo| #[trigger] final(self).unhandled_spec(w, i) == old(self).unhandled_spec(w, i),
            forall|w: Widget| #[trigger] final(self).button_text_spec(w) == old(self).button_text_spec(w),
            forall|w: Widget| #[trigger] final(self).list_state_spec(w) == old(self).list_state_spec(w),
            forall|w: Widget| #[trigger] final(self).text_box_spec(w) == old(self).text_box_spec(w),
    ;

    fn get_list_box_item(&mut self, wgt: &Widget, item_idx: i16, out: &mut String) {
    }

    fn get_combo_box_state(&mut self, wgt: &Widget, out: &mut rstate::CbbxState)
        ensures
            *final(out) == old(self).combo_state_spec(*wgt),
            final(self).widgets_spec() == old(self).widgets_spec(),
            final(self).window_coord_spec() == old(self).window_coord_spec(),
            forall|w: Widget| #[trigger] final(self).visible_spec(w) == old(self).visible_spec(w),
            forall|w: Widget| #[trigger] final(self).enabled_spec(w) == old(self).enabled_spec(w),
            forall|w: Widget| #[trigger] final(self).page_index_spec(w) == old(self).page_index_spec(w),
            final(self).focused_spec() == old(self).focused_spec(),
            forall|w: Widget| #[trigger] final(self).combo_state_spec(w) == old(self).combo_state_spec(w),
            forall|w: Widget, i: InputInfo| #[trigger] final(self).unhandled_spec(w, i) == old(self).unhandled_spec(w, i),
            forall|w: Widget| #[trigger] final(self).button_text_spec(w) == old(self).button_text_spec(w),
            forall|w: Widget| #[trigger] final(self).list_state_spec(w) == old(self).list_state_spec(w),
            forall|w: Widget| #[trigger] final(self).text_box_spec(w) == old(self).text_box_spec(w),
    ;

    fn get_combo_box_item(&mut self, wgt: &Widget, item_idx: i16, out: &mut String) {
    }

    fn get_radio_index(&mut self, wgt: &Widget) -> (r: i16)
        default_ensures
            r == -1,
    {
        -1
    }

    fn get_text_box_state(&mut self, wgt: &Widget, out: &mut rstate::TxtbxState)
        ensures
            final(out).top_line == old(self).text_box_spec(*wgt).0,
            final(out).lines@.len() == old(self).text_box_spec(*wgt).1,
            final(self).widgets_spec() == old(self).widgets_spec(),
            final(self).window_coord_spec() == old(self).window_coord_spec(),
            forall|w: Widget| #[trigger] final(self).visible_spec(w) == old(self).visible_spec(w),
            forall|w: Widget| #[trigger] final(self).enabled_spec(w) == old(self).enabled_spec(w),
            forall|w: Widget| #[trigger] final(self).page_index_spec(w) == old(self).page_index_spec(w),
            final(self).focused_spec() == old(self).focused_spec(),
            forall|w: Widget| #[trigger] final(self).combo_state_spec(w) == old(self).combo_state_spec(w),
            forall|w: Widget, i: InputInfo| #[trigger] final(self).unhandled_spec(w, i) == old(self).unhandled_spec(w, i),
            forall|w: Widget| #[trigger] final(self).button_text_spec(w) == old(self).button_text_spec(w),
            forall|w: Widget| #[trigger] final(self).list_state_spec(w) == old(self).list_state_spec(w),
            forall|w: Widget| #[trigger] final(self).text_box_spec(w) == old(self).text_box_spec(w),
    ;

    /// Gives in `out`, which comes empty, the text of a button with no text of its own
    fn get_button_text(&mut self, wgt: &Widget, out: &mut String)
        requires
            old(out)@.len() == 0,
        ensures
            final(out)@ == old(self).button_text_spec(*wgt),
            final(self).widgets_spec() == old(self).widgets_spec(),
            final(self).window_coord_spec() == old(self).window_coord_spec(),
            forall|w: Widget| #[trigger] final(self).visible_spec(w) == old(self).visible_spec(w),
            forall|w: Widget| #[trigger] final(self).enabled_spec(w) == old(self).enabled_spec(w),
            forall|w: Widget| #[trigger] final(self).page_index_spec(w) == old(self).page_index_spec(w),
            final(self).focused_spec() == old(self).focused_spec(),
            forall|w: Widget| #[trigger] final(self).combo_state_spec(w) == old(self).combo_state_spec(w),
            forall|w: Widget, i: InputInfo| #[trigger] final(self).unhandled_spec(w, i) == old(self).unhandled_spec(w, i),
            forall|w: Widget| #[trigger] final(self).button_text_spec(w) == old(self).button_text_spec(w),
            forall|w: Widget| #[trigger] final(self).list_state_spec(w) == old(self).list_state_spec(w),
            forall|w: Widget| #[trigger] final(self).text_box_spec(w) == old(self).text_box_spec(w),
    ;

    /// requests
    /// The widget of the given id has the focus from now on
    fn set_focused_id(&mut self, wid: WId)
        ensures
            final(self).focused_spec() == wid,
            final(self).widgets_spec() == old(self).widgets_spec(),
            final(self).window_coord_spec() == old(self).window_coord_spec(),
            forall|w: Widget| #[trigger] final(self).visible_spec(w) == old(self).visible_spec(w),
            forall|w: Widget| #[trigger] final(self).enabled_spec(w) == old(self).enabled_spec(w),
            forall|w: Widget| #[trigger] final(self).page_index_spec(w) == old(self).page_index_spec(w),
            forall|w: Widget| #[trigger] final(self).combo_state_spec(w) == old(self).combo_state_spec(w),
            forall|w: Widget, i: InputInfo| #[trigger] final(self).unhandled_spec(w, i) == old(self).unhandled_spec(w, i),
            forall|w: Widget| #[trigger] final(self).button_text_spec(w) == old(self).button_text_spec(w),
            forall|w: Widget| #[trigger] final(self).list_state_spec(w) == old(self).list_state_spec(w),
            forall|w: Widget| #[trigger] final(self).text_box_spec(w) == old(self).text_box_spec(w),
    ;

    fn invalidate(&mut self, wid: WId)
        ensures
            final(self).invalidated_spec().contains(wid),
            final(self).widgets_spec() == old(self).widgets_spec(),
            final(self).window_coord_spec() == old(self).window_coord_spec(),
            forall|w: Widget| #[trigger] final(self).visible_spec(w) == old(self).visible_spec(w),
            forall|w: Widget| #[trigger] final(self).enabled_spec(w) == old(self).enabled_spec(w),
            forall|w: Widget| #[trigger] final(self).page_index_spec(w) == old(self).page_index_spec(w),
            final(self).focused_spec() == old(self).focused_spec(),
            forall|w: Widget| #[trigger] final(self).combo_state_spec(w) == old(self).combo_state_spec(w),
            forall|w: Widget, i: InputInfo| #[trigger] final(self).unhandled_spec(w, i) == old(self).unhandled_spec(w, i),
            forall|w: Widget| #[trigger] final(self).button_text_spec(w) == old(self).button_text_spec(w),
            forall|w: Widget| #[trigger] final(self).list_state_spec(w) == old(self).list_state_spec(w),
            forall|w: Widget| #[trigger] final(self).text_box_spec(w) == old(self).text_box_spec(w),
    {
        self.invalidate_many(&[wid]);
    }

    fn instant_redraw(&mut self, wid: WId) {
    }

    fn invalidate_many(&mut self, wids: &[WId])
        ensures
            forall|i: int| 0 <= i < wids@.len() ==> final(self).invalidated_spec().contains(#[trigger] wids@[i]),
            final(self).widgets_spec() == old(self).widgets_spec(),
            final(self).window_coord_spec() == old(self).window_coord_spec(),
            forall|w: Widget| #[trigger] final(self).visible_spec(w) == old(self).visible_spec(w),
            forall|w: Widget| #[trigger] final(self).enabled_spec(w) == old(self).enabled_spec(w),
            forall|w: Widget| #[trigger] final(self).page_index_spec(w) == old(self).page_index_spec(w),
            final(self).focused_spec() == old(self).focused_spec(),
            forall|w: Widget| #[trigger] final(self).combo_state_spec(w) == old(self).combo_state_spec(w),
            forall|w: Widget, i: InputInfo| #[trigger] final(self).unhandled_spec(w, i) == old(self).unhandled_spec(w, i),
            forall|w: Widget| #[trigger] final(self).button_text_spec(w) == old(self).button_text_spec(w),
            forall|w: Widget| #[trigger] final(self).list_state_spec(w) == old(self).list_state_spec(w),
            forall|w: Widget| #[trigger] final(self).text_box_spec(w) == old(self).text_box_spec(w),
    ;

    fn clear_invalidated(&mut self)
        ensures
            final(self).invalidated_spec() == Seq::<WId>::empty(),
            final(self).widgets_spec() == old(self).widgets_spec(),
            final(self).window_coord_spec() == old(self).window_coord_spec(),
            forall|w: Widget| #[trigger] final(self).visible_spec(w) == old(self).visible_spec(w),
            forall|w: Widget| #[trigger] final(self).enabled_spec(w) == old(self).enabled_spec(w),
            forall|w: Widget| #[trigger] final(self).page_index_spec(w) == old(self).page_index_spec(w),
            final(self).focused_spec() == old(self).focused_spec(),
            forall|w: Widget| #[trigger] final(self).combo_state_spec(w) == old(self).combo_state_spec(w),
            forall|w: Widget, i: InputInfo| #[trigger] final(self).unhandled_spec(w, i) == old(self).unhandled_spec(w, i),
            forall|w: Widget| #[trigger] final(self).button_text_spec(w) == old(self).button_text_spec(w),
            forall|w: Widget| #[trigger] final(self).list_state_spec(w) == old(self).list_state_spec(w),
            forall|w: Widget| #[trigger] final(self).text_box_spec(w) == old(self).text_box_spec(w),
    ;

    fn get_invalidated(&mut self, out: &mut Vec<WId>)
        ensures
            final(out)@ == old(self).invalidated_spec(),
            final(self).widgets_spec() == old(self).widgets_spec(),
            final(self).window_coord_spec() == old(self).window_coord_spec(),
            forall|w: Widget| #[trigger] final(self).visible_spec(w) == old(self).visible_spec(w),
            forall|w: Widget| #[trigger] final(self).enabled_spec(w) == old(self).enabled_spec(w),
            forall|w: Widget| #[trigger] final(self).page_index_spec(w) == old(self).page_index_spec(w),
            final(self).focused_spec() == old(self).focused_spec(),
            forall|w: Widget| #[trigger] final(self).combo_state_spec(w) == old(self).combo_state_spec(w),
            forall|w: Widget, i: InputInfo| #[trigger] final(self).unhandled_spec(w, i) == old(self).unhandled_spec(w, i),
            forall|w: Widget| #[trigger] final(self).button_text_spec(w) == old(self).button_text_spec(w),
            forall|w: Widget| #[trigger] final(self).list_state_spec(w) == old(self).list_state_spec(w),
            forall|w: Widget| #[trigger] final(self).text_box_spec(w) == old(self).text_box_spec(w),
    ;
}

} // verus!
