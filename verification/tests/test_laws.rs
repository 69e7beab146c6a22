//! # RTWins tests of the library's laws on concrete values

use rtwins::input::InputEvent;
use rtwins::input::KEY_MOD_SPECIAL;
use rtwins::input::Key;
use rtwins::widget_def::rstate::CbbxState;
use rtwins::widget_impl::ComboAction;
use rtwins::widget_impl::EditOutcome;
use rtwins::widget_impl::TextEditState;
use rtwins::widget_impl::combo_action;
use rtwins::widget_impl::process_input;
use rtwins::widget_impl::edit_on_input;
use rtwins::colors::ColorBg;
use rtwins::colors::ColorFg;
use rtwins::common::Coord;
use rtwins::common::Rect;
use rtwins::common::Size;
use rtwins::input::InputInfo;
use rtwins::input::KeyMod;
use rtwins::input_decoder::Decoder;
use rtwins::input_decoder::InputQue;
use rtwins::pal::PalStub;
use rtwins::string_ext::StringExt;
use rtwins::terminal::Term;
use rtwins::utils;
use rtwins::widget_def::ButtonStyle;
use rtwins::widget_def::PgBarStyle;
use rtwins::widget_def::Link;
use rtwins::widget_def::Property;
use rtwins::widget_def::RuntimeStates;
use rtwins::widget_def::Widget;
use rtwins::widget_def::WindowState;
use rtwins::widget_def::prop;
use rtwins::widget_draw::progress_bar_text;
use rtwins::widget_draw::text_edit_face;
use rtwins::widget_draw::text_lines;
use rtwins::widget_impl::WidgetState;
use rtwins::widget_impl::cursor_spot_of;
use rtwins::widget_impl::find_hit;
use rtwins::widget_impl::hit_area_of;
use rtwins::widget_impl::next_focusable_in;
use rtwins::widget_impl::page_step;
use rtwins::widget_impl::transform;
use rtwins::widget_impl::wrap_sel;

#[test]
fn color_rank_round_trip_and_intensify_idempotent() {
    for r in 0u8..=48 {
        let fg = ColorFg::from_rank(r);
        assert_eq!(r, fg.rank());
        assert!(fg.intensify().intensify() == fg.intensify());
        let bg = ColorBg::from_rank(r);
        assert_eq!(r, bg.rank());
        assert!(bg.intensify().intensify() == bg.intensify());
    }
    assert!(ColorFg::Red.intensify() == ColorFg::RedIntense);
    assert!(ColorFg::Default.intensify() == ColorFg::WhiteIntense);
    assert!(ColorFg::Theme03.intensify() == ColorFg::Theme03);
}

#[test]
fn text_cut_and_restored() {
    let orig = String::from("Hello 🌄!!!");
    let mut head = orig.clone();
    head.trim_at_char_idx(7);
    let tail = orig.split_at_char_idx(7).to_string();
    assert_eq!(orig, head + &tail);

    // erasing a range and inserting it back
    let mut s = orig.clone();
    s.erase_char_range(2, 5);
    assert_eq!("He!!!", s);
    s.insert_str_at_char_idx(2, "llo 🌄");
    assert_eq!(orig, s);
    let mut s = orig.clone();
    s.erase_char_range(2, 4);
    s.insert_str_at_char_idx(2, "llo ");
    assert_eq!(orig, s);

    // inserting and erasing what was inserted
    let mut s = orig.clone();
    s.insert_str_at_char_idx(3, "<->");
    s.erase_char_range(3, 3);
    assert_eq!(orig, s);
}

#[test]
fn page_and_selection_steps_round_trip() {
    for cnt in 1u16..5 {
        for idx in 0..cnt as i16 {
            let n = page_step(idx, true, cnt);
            assert!(0 <= n && n < cnt as i16);
            assert_eq!(idx, page_step(n, false, cnt));
            let s = wrap_sel(idx, 1, cnt as i16);
            assert!(0 <= s && s < cnt as i16);
            assert_eq!(idx, wrap_sel(s, -1, cnt as i16));
        }
    }
    assert_eq!(0, page_step(2, true, 3));
    assert_eq!(2, page_step(0, false, 3));
}

#[test]
fn enabled_state_read_after_write() {
    let mut rs = RuntimeStates::default();
    assert!(rs.get_enabled_or_default(5));
    rs.set_enabled(5, false);
    assert!(!rs.get_enabled_or_default(5));
    assert!(rs.get_enabled_or_default(6));
    rs.set_enabled(5, true);
    assert!(rs.get_enabled_or_default(5));
}

#[test]
fn decimal_text_round_trip() {
    for n in [0i64, 7, -7, 10, 1234567890, -9876543210, i64::MAX, i64::MIN] {
        assert_eq!(Some(n), utils::parse_i64(&utils::dec_string(n)));
    }
    assert_eq!("-42", utils::dec_string(-42));
}

#[test]
fn decoding_removes_leading_bytes_only() {
    let mut dec = Decoder::default();
    let mut ii = InputInfo::default();
    let bytes: Vec<u8> = b"\x1b[Axyz".to_vec();
    let mut que: InputQue = bytes.clone();
    let n = dec.decode_input_seq(&mut que, &mut ii);
    assert_eq!(3, n);
    assert!(bytes.ends_with(&que));
    assert_eq!(b"xyz".to_vec(), que);

    // a character, then the rest
    let n = dec.decode_input_seq(&mut que, &mut ii);
    assert_eq!(1, n);
    assert_eq!(b"yz".to_vec(), que);
}

#[test]
fn key_mod_bits() {
    let mut km = KeyMod::default();
    assert!(km.is_empty());
    km.set_shift();
    assert!(km.has_shift());
    km.set_ctrl();
    assert!(km.has_ctrl() && km.has_shift());
    assert!(!km.has_alt());
    km.set_alt();
    assert!(km.has_alt() && km.has_ctrl() && km.has_shift());
}

#[test]
fn lines_of_text() {
    let l = text_lines("foo\r\nbar\n\nbaz\r");
    assert_eq!(vec!["foo".to_string(), "bar".to_string(), "".to_string(), "baz\r".to_string()], l);
    assert_eq!(vec!["a".to_string()], text_lines("a\n"));
    assert!(text_lines("").is_empty());
    let std_lines: Vec<String> = "x\ny\r\n\r\nz".lines().map(|s| s.to_string()).collect();
    assert_eq!(std_lines, text_lines("x\ny\r\n\r\nz"));
}

#[test]
fn property_names() {
    assert_eq!("NoWgt", Property::cdeflt().name());
    assert_eq!("Page", prop::Page { title: "p", fg_color: ColorFg::White }.into().name());
}

struct SimpleWnd {
    widgets: &'static [Widget],
    focused: u16,
    lbs: rtwins::widget_def::rstate::LbxState,
}

fn simple_wnd(widgets: &'static [Widget]) -> SimpleWnd {
    SimpleWnd { widgets, focused: rtwins::widget_def::WIDGET_ID_NONE, lbs: Default::default() }
}

impl WindowState for SimpleWnd {
    fn widgets_spec(&self) -> vstd::seq::Seq<Widget> {
        unreachable!()
    }

    fn visible_spec(&self, _wgt: Widget) -> bool {
        unreachable!()
    }

    fn enabled_spec(&self, _wgt: Widget) -> bool {
        unreachable!()
    }

    fn window_coord_spec(&self) -> Coord {
        unreachable!()
    }

    fn page_index_spec(&self, _wgt: Widget) -> i16 {
        unreachable!()
    }

    fn focused_spec(&self) -> u16 {
        unreachable!()
    }

    fn combo_state_spec(&self, _wgt: Widget) -> rtwins::widget_def::rstate::CbbxState {
        unreachable!()
    }

    fn invalidated_spec(&self) -> vstd::seq::Seq<u16> {
        unreachable!()
    }

    fn focus_spec(&self, _wgt: Widget) -> bool {
        unreachable!()
    }

    fn is_focused(&self, _wgt: &Widget) -> bool {
        false
    }

    fn unhandled_spec(&self, _wgt: Widget, _ii: rtwins::input::InputInfo) -> bool {
        unreachable!()
    }

    fn button_text_spec(&self, _wgt: Widget) -> vstd::seq::Seq<char> {
        unreachable!()
    }

    fn get_button_text(&mut self, _wgt: &Widget, _out: &mut String) {}

    fn list_state_spec(&self, _wgt: Widget) -> rtwins::widget_def::rstate::LbxState {
        unreachable!()
    }

    fn text_box_spec(&self, _wgt: Widget) -> (i16, vstd::prelude::nat) {
        unreachable!()
    }

    fn get_text_box_state(&mut self, _wgt: &Widget, _out: &mut rtwins::widget_def::rstate::TxtbxState) {}

    fn on_text_box_scroll(&mut self, _wgt: &Widget, _new_top_line: i16) {}

    fn get_list_box_state(&mut self, _wgt: &Widget, out: &mut rtwins::widget_def::rstate::LbxState) {
        *out = self.lbs.clone();
    }

    fn on_list_box_select(&mut self, _wgt: &Widget, new_sel_idx: i16) {
        self.lbs.sel_idx = new_sel_idx;
    }

    fn on_list_box_change(&mut self, _wgt: &Widget, new_idx: i16) {
        self.lbs.item_idx = new_idx;
    }

    fn set_focused_id(&mut self, wid: u16) {
        self.focused = wid;
    }

    fn on_combo_box_select(&mut self, _wgt: &Widget, _new_sel_idx: i16) {}

    fn on_combo_box_change(&mut self, _wgt: &Widget, _new_idx: i16) {}

    fn on_combo_box_drop(&mut self, _wgt: &Widget, _drop_state: bool) {}

    fn get_combo_box_state(&mut self, _wgt: &Widget, _out: &mut rtwins::widget_def::rstate::CbbxState) {}

    fn on_window_unhandled_input_evt(&mut self, _wgt: &Widget, _ii: &rtwins::input::InputInfo) -> bool {
        false
    }

    fn invalidate_many(&mut self, _wids: &[u16]) {}

    fn get_invalidated(&mut self, _out: &mut Vec<u16>) {}

    fn on_page_control_page_change(&mut self, _wgt: &Widget, _new_page_idx: i16) {}

    fn clear_invalidated(&mut self) {}

    fn get_focused_id(&mut self) -> u16 {
        self.focused
    }

    fn is_visible(&self, _wgt: &Widget) -> bool {
        true
    }

    fn get_page_ctrl_page_index(&mut self, _wgt: &Widget) -> i16 {
        0
    }

    fn get_widgets(&self) -> &'static [Widget] {
        self.widgets
    }

    fn get_window_coord(&mut self) -> Coord {
        Coord::new(1, 1)
    }

    fn is_enabled(&self, wgt: &Widget) -> bool {
        // the label is disabled: drawn faint
        !matches!(wgt.prop, Property::Label(_))
    }
}

#[test]
fn drawing_leaves_font_stacks_empty() {
    let children: &'static [Widget] = Box::leak(
        vec![
            Widget {
                id: 2,
                coord: Coord::new(2, 1),
                size: Size::new(10, 1),
                prop: prop::Label { title: "label", fg_color: ColorFg::Yellow, bg_color: ColorBg::Inherit }.into(),
                ..Widget::cdeflt()
            },
            Widget {
                id: 3,
                coord: Coord::new(2, 3),
                prop: prop::CheckBox { text: "check", fg_color: ColorFg::Inherit }.into(),
                ..Widget::cdeflt()
            },
        ]
        .into_boxed_slice(),
    );
    let wnd = Widget {
        id: 1,
        link: Link::cdeflt(),
        coord: Coord::new(1, 1),
        size: Size::new(30, 8),
        prop: prop::Window { title: "Wnd", fg_color: ColorFg::White, bg_color: ColorBg::Blue, is_popup: true }.into(),
        children,
    };
    let wgts: &'static [Widget] = Box::leak(transform::tree_to_array(&wnd).into_boxed_slice());
    let mut ws = simple_wnd(wgts);
    let mut wst = WidgetState::default();
    let mut term = Term::new(PalStub::new());
    term.push_cl_fg(ColorFg::Red);
    term.draw_wnd(&mut ws, &mut wst);
    assert!(term.stack_cl_fg.is_empty());
    assert!(term.stack_cl_bg.is_empty());
    assert!(term.stack_attr.is_empty());
    assert_eq!(0, term.attr_faint);
}

#[test]
fn every_key_sequence_decodes_to_its_key() {
    let map = rtwins::input_decoder::esc_keys_map_sorted();
    assert!(rtwins::input_decoder::check_prefix_free(&map));
    let mut dec = Decoder::default();
    for e in map.iter() {
        let seq = e.seq.as_bytes();
        if seq.len() < 2 || seq.len() > 6 || (seq[0] == b'[' && seq[1] == b'M') {
            continue;
        }
        let mut que: InputQue = vec![0x1B];
        que.extend_from_slice(seq);
        que.extend_from_slice(b"q");
        let mut ii = InputInfo::default();
        let n = dec.decode_input_seq(&mut que, &mut ii);
        assert_eq!(seq.len() + 1, n as usize);
        assert_eq!(b"q".to_vec(), que);
        assert_eq!(e.name, ii.name);
        assert_eq!(e.kmod, ii.kmod.mask);
        dec.reset_state();
    }
}

#[test]
fn tree_layout_mirrors_the_tree() {
    let grandchildren: &'static [Widget] = Box::leak(
        vec![
            Widget { id: 4, ..Widget::cdeflt() },
            Widget { id: 5, ..Widget::cdeflt() },
        ]
        .into_boxed_slice(),
    );
    let children: &'static [Widget] = Box::leak(
        vec![
            Widget { id: 2, prop: prop::Layer {}.into(), children: grandchildren, ..Widget::cdeflt() },
            Widget { id: 3, coord: Coord::new(7, 8), ..Widget::cdeflt() },
        ]
        .into_boxed_slice(),
    );
    let root = Widget { id: 1, size: Size::new(40, 10), children, ..Widget::cdeflt() };
    let wgts = transform::tree_to_array(&root);
    assert_eq!(5, wgts.len());
    assert_eq!(1, wgts[0].id);
    assert_eq!(40, wgts[0].size.width);
    assert!(wgts.iter().all(|w| w.children.is_empty()));
    // the window's children, in their order, in its children range
    let l = wgts[0].link;
    assert_eq!(2, l.children_cnt);
    assert_eq!(2, wgts[l.children_idx as usize].id);
    assert_eq!(3, wgts[l.children_idx as usize + 1].id);
    assert_eq!(7, wgts[l.children_idx as usize + 1].coord.col);
    // and the layer's own children in its range
    let ll = wgts[l.children_idx as usize].link;
    assert_eq!(2, ll.children_cnt);
    assert_eq!(4, wgts[ll.children_idx as usize].id);
    assert_eq!(5, wgts[ll.children_idx as usize + 1].id);
    assert_eq!(l.children_idx, wgts[ll.children_idx as usize].link.parent_idx);
}

#[test]
fn screen_position_adds_parents() {
    let children: &'static [Widget] = Box::leak(
        vec![Widget {
            id: 2,
            coord: Coord::new(3, 2),
            prop: prop::PageCtrl { tab_width: 10, vert_offs: 0 }.into(),
            children: Box::leak(
                vec![Widget {
                    id: 3,
                    prop: prop::Page { title: "p", fg_color: ColorFg::White }.into(),
                    children: Box::leak(vec![Widget { id: 4, coord: Coord::new(1, 1), ..Widget::cdeflt() }].into_boxed_slice()),
                    ..Widget::cdeflt()
                }]
                .into_boxed_slice(),
            ),
            ..Widget::cdeflt()
        }]
        .into_boxed_slice(),
    );
    let root = Widget {
        id: 1,
        prop: prop::Window { title: "", fg_color: ColorFg::White, bg_color: ColorBg::Blue, is_popup: false }.into(),
        children,
        ..Widget::cdeflt()
    };
    let wgts = transform::tree_to_array(&root);
    let wnd_coord = Coord::new(20, 5);
    // the window is where the window state says
    let c = rtwins::widget_impl::screen_coord_in(&wgts, &wgts[0], wnd_coord);
    assert_eq!((20, 5), (c.col, c.row));
    // a widget on a page: its coordinates, the page control's plus its tabs, the window's
    let w4 = wgts.iter().find(|w| w.id == 4).unwrap();
    let c = rtwins::widget_impl::screen_coord_in(&wgts, w4, wnd_coord);
    assert_eq!((1 + 3 + 10 + 20, 1 + 2 + 5), (c.col, c.row));
}

#[test]
fn focused_colors_intensified() {
    let term = Term::new(PalStub::new());
    assert!(term.intensify_fg_if(ColorFg::Green, true) == ColorFg::GreenIntense);
    assert!(term.intensify_fg_if(ColorFg::Green, false) == ColorFg::Green);
    assert!(term.intensify_bg_if(ColorBg::Blue, true) == ColorBg::BlueIntense);
    // theme colors go through the PAL, which here keeps them
    assert!(term.intensify_fg_if(ColorFg::Theme01, true) == ColorFg::Theme01);
}

#[test]
fn mouse_search_picks_innermost_visible() {
    let rects = [
        Rect::new(0, 0, 40, 20),
        Rect::new(2, 2, 10, 5),
        Rect::new(3, 3, 4, 1),
        Rect::new(3, 3, 4, 1),
    ];
    // panels do not end the search; the innermost visible one wins, the later of two equal ones
    assert_eq!(find_hit(&rects, &[false, false, false, false], &[true, true, true, true], 4, 3), Some(3));
    assert_eq!(find_hit(&rects, &[false, false, false, false], &[true, true, true, false], 4, 3), Some(2));
    // an invisible widget is passed over
    assert_eq!(find_hit(&rects, &[false, false, false, false], &[true, true, false, false], 4, 3), Some(1));
    // a control ends the search at once
    assert_eq!(find_hit(&rects, &[false, true, false, false], &[true, true, true, true], 4, 3), Some(1));
    // nothing under the point
    assert_eq!(find_hit(&rects, &[false, false, false, false], &[true, true, true, true], 50, 30), None);
}

#[test]
fn mouse_areas_of_widgets() {
    let mut w = Widget::cdeflt();
    w.size = Size::new(9, 2);
    w.prop = prop::CheckBox { text: "abc", fg_color: ColorFg::Default }.into();
    assert_eq!(hit_area_of(&w, 0), (Size::new(7, 1), true));
    w.prop = prop::Button { text: "", fg_color: ColorFg::Default, bg_color: ColorBg::Default, style: ButtonStyle::Solid1p5 }.into();
    assert_eq!(hit_area_of(&w, 0), (Size::new(11, 3), true));
    w.size = Size::new(0, 1);
    assert_eq!(hit_area_of(&w, 5), (Size::new(7, 3), true));
    w.prop = prop::Panel { title: "", fg_color: ColorFg::Default, bg_color: ColorBg::Default, no_frame: false }.into();
    assert_eq!(hit_area_of(&w, 5), (Size::new(0, 1), false));
}

#[test]
fn focus_moves_to_widgets_that_take_it() {
    let panel_children: &'static [Widget] = Box::leak(
        vec![Widget { id: 5, ..Widget::cdeflt() }, Widget { id: 6, ..Widget::cdeflt() }].into_boxed_slice(),
    );
    let children: &'static [Widget] = Box::leak(
        vec![
            Widget { id: 2, ..Widget::cdeflt() },
            Widget { id: 3, ..Widget::cdeflt() },
            Widget {
                id: 4,
                prop: prop::Panel { title: "", fg_color: ColorFg::Default, bg_color: ColorBg::Default, no_frame: false }
                    .into(),
                children: panel_children,
                ..Widget::cdeflt()
            },
        ]
        .into_boxed_slice(),
    );
    let root = Widget {
        id: 1,
        prop: prop::Window { title: "", fg_color: ColorFg::Default, bg_color: ColorBg::Default, is_popup: false }.into(),
        children,
        ..Widget::cdeflt()
    };
    let wgts = transform::tree_to_array(&root);
    let idx = |id: u16| wgts.iter().position(|w| w.id == id).unwrap();
    let mut can = vec![false; wgts.len()];
    can[idx(2)] = true;
    can[idx(5)] = true;
    let pages = vec![0i16; wgts.len()];
    let mut brk = false;
    // forward from the first child: past the one that does not take the focus, into the panel
    let r = next_focusable_in(&wgts, &can, &pages, idx(1), 2, true, None, &mut brk, 100);
    assert_eq!(r, Some(idx(5)));
    // forward from the panel's child: out of the panel, around to the first child
    let r = next_focusable_in(&wgts, &can, &pages, idx(4), 5, true, None, &mut brk, 100);
    assert_eq!(r, Some(idx(2)));
    // backward from the first child: around to the panel's child
    let r = next_focusable_in(&wgts, &can, &pages, idx(1), 2, false, None, &mut brk, 100);
    assert_eq!(r, Some(idx(5)));
    // nothing takes the focus
    let none = vec![false; wgts.len()];
    let r = next_focusable_in(&wgts, &none, &pages, idx(1), 2, true, None, &mut brk, 100);
    assert_eq!(r, None);
}

#[test]
fn cursor_spots_of_widgets() {
    let mut w = Widget { id: 7, size: Size::new(10, 5), ..Widget::cdeflt() };
    w.prop = prop::TextEdit { fg_color: ColorFg::Default, bg_color: ColorBg::Default, psw_mask: false }.into();
    // in edit mode the cursor steps back by half the width until it fits
    assert_eq!(cursor_spot_of(&w, Coord::new(5, 3), 7, 8, 0, 0), Coord::new(10, 3));
    assert_eq!(cursor_spot_of(&w, Coord::new(5, 3), 7, 2, 0, 0), Coord::new(7, 3));
    // not edited: at the edit's right end
    assert_eq!(cursor_spot_of(&w, Coord::new(5, 3), 9, 8, 0, 0), Coord::new(13, 3));
    w.prop = prop::ListBox { fg_color: ColorFg::Default, bg_color: ColorBg::Default, no_frame: false }.into();
    assert_eq!(cursor_spot_of(&w, Coord::new(5, 10), 0, 0, 0, 7), Coord::new(5, 12));
    // a negative selection wraps the row as the terminal's byte does
    assert_eq!(cursor_spot_of(&w, Coord::new(5, 10), 0, 0, 0, -3), Coord::new(5, 7));
    w.prop = prop::PageCtrl { tab_width: 12, vert_offs: 2 }.into();
    assert_eq!(cursor_spot_of(&w, Coord::new(1, 1), 0, 0, 3, 0), Coord::new(1, 7));
}

#[test]
fn progress_bar_fill() {
    assert_eq!(progress_bar_text(PgBarStyle::Hash, 10, 3, 6), "#####.....");
    assert_eq!(progress_bar_text(PgBarStyle::Hash, 4, 9, 3), "####");
    assert_eq!(progress_bar_text(PgBarStyle::Hash, 5, 0, 0), ".....");
    assert_eq!(progress_bar_text(PgBarStyle::Rectangle, 3, 1, 3), "■□□");
    // a negative position widens the empty part
    assert_eq!(progress_bar_text(PgBarStyle::Shade, 4, -1, 2), "▒▒▒▒▒▒");
}

#[test]
fn text_edit_faces() {
    assert_eq!(text_edit_face("abc", 0, 10), "abc    [^]");
    assert_eq!(text_edit_face("abcdefghij", 0, 10), "abcde…▷[^]");
    assert_eq!(text_edit_face("abcdefghij", 3, 10), "◁efgh…▷[^]");
    assert_eq!(text_edit_face("abcdefg", 3, 10), "◁efg   [^]");
}

struct Recorder {
    out: String,
}

impl rtwins::pal::Pal for Recorder {
    fn write_str_n(&mut self, s: &str, repeat: i16) {
        for _ in 0..repeat {
            self.out.push_str(s);
        }
    }

    fn write_char_n(&mut self, c: char, repeat: i16) {
        for _ in 0..repeat {
            self.out.push(c);
        }
    }
}

#[test]
fn widgets_drawn_at_their_places() {
    let children: &'static [Widget] = Box::leak(
        vec![
            Widget {
                id: 2,
                coord: Coord::new(2, 1),
                size: Size::new(8, 2),
                prop: prop::Label { title: "one\ntwo", fg_color: ColorFg::Yellow, bg_color: ColorBg::Inherit }.into(),
                ..Widget::cdeflt()
            },
            Widget {
                id: 3,
                coord: Coord::new(2, 4),
                prop: prop::CheckBox { text: "check", fg_color: ColorFg::Inherit }.into(),
                ..Widget::cdeflt()
            },
            Widget {
                id: 4,
                coord: Coord::new(2, 6),
                prop: prop::Button { text: "Ok", fg_color: ColorFg::Inherit, bg_color: ColorBg::Inherit, style: ButtonStyle::Simple }
                    .into(),
                ..Widget::cdeflt()
            },
        ]
        .into_boxed_slice(),
    );
    let wnd = Widget {
        id: 1,
        link: Link::cdeflt(),
        coord: Coord::new(1, 1),
        size: Size::new(30, 9),
        prop: prop::Window { title: "Wnd", fg_color: ColorFg::White, bg_color: ColorBg::Blue, is_popup: true }.into(),
        children,
    };
    let wgts: &'static [Widget] = Box::leak(transform::tree_to_array(&wnd).into_boxed_slice());
    let mut ws = simple_wnd(wgts);
    let mut wst = WidgetState::default();
    let mut term = Term::new(Recorder { out: String::new() });
    term.draw_wnd(&mut ws, &mut wst);
    let out = term.pal.out.clone();
    // the label's lines, fitted to its width, each at its row
    let l1 = out.find("\x1B[2;3H").unwrap();
    let t1 = out[l1..].find("one     ").unwrap() + l1;
    let l2 = out[t1..].find("\x1B[3;3H").unwrap() + t1;
    assert!(out[l2..].starts_with("\x1B[3;3Htwo     "));
    // the check box's mark and text at its place
    let c = out.find("\x1B[5;3H").unwrap();
    assert!(out[c..].contains("[ ] check"));
    // the button's face at its place
    let b = out.find("\x1B[7;3H").unwrap();
    assert!(out[b..].contains("[ Ok ]"));
}

#[test]
fn decoding_counts_dropped_bytes() {
    let mut dec = Decoder::default();
    let mut ii = InputInfo::default();
    let mut que: InputQue = vec![159u8, 152, 142, b'+'];
    let n = dec.decode_input_seq(&mut que, &mut ii);
    assert_eq!(4, n);
    assert!(que.is_empty());

    let mut dec = Decoder::default();
    let mut que: InputQue = vec![b'\r', b'\n', b'\t'];
    assert_eq!(1, dec.decode_input_seq(&mut que, &mut ii));
    assert_eq!(2, dec.decode_input_seq(&mut que, &mut ii));
    assert!(que.is_empty());
}

#[test]
fn word_wrap_keeps_all_text() {
    assert_eq!(vec!["ab cd".to_string()], utils::word_wrap(10, "ab cd"));
    assert_eq!(
        vec!["aaaa ".to_string(), "bbbbbbbb".to_string()],
        utils::word_wrap(6, "aaaa bbbbbbbb")
    );
    assert!(utils::word_wrap(5, "").is_empty());
}

#[test]
fn focus_search_descends_into_first_parent_child() {
    let panel_children: &'static [Widget] = Box::leak(
        vec![Widget { id: 5, ..Widget::cdeflt() }, Widget { id: 6, ..Widget::cdeflt() }].into_boxed_slice(),
    );
    let children: &'static [Widget] = Box::leak(
        vec![
            Widget {
                id: 2,
                prop: rtwins::widget_def::prop::Panel { title: "", fg_color: ColorFg::Default, bg_color: ColorBg::Default, no_frame: false }
                    .into(),
                children: panel_children,
                ..Widget::cdeflt()
            },
            Widget { id: 3, ..Widget::cdeflt() },
        ]
        .into_boxed_slice(),
    );
    let root = Widget {
        id: 1,
        prop: rtwins::widget_def::prop::Window { title: "", fg_color: ColorFg::Default, bg_color: ColorBg::Default, is_popup: false }.into(),
        children,
        ..Widget::cdeflt()
    };
    let wgts = transform::tree_to_array(&root);
    let idx = |id: u16| wgts.iter().position(|w| w.id == id).unwrap();
    let mut can = vec![false; wgts.len()];
    can[idx(5)] = true;
    can[idx(3)] = true;
    let pages = vec![0i16; wgts.len()];
    let mut brk = false;
    // nothing focused: the first child is a panel that does not take the focus; its first child does
    let r = next_focusable_in(&wgts, &can, &pages, idx(1), rtwins::widget_def::WIDGET_ID_NONE, true, None, &mut brk, 100);
    assert_eq!(r, Some(idx(5)));
}

#[test]
fn text_edit_inputs_in_edit_mode() {
    let mut te = TextEditState { wgt_id: 7, cursor_pos: 2, txt: "abcd".to_string() };
    let mut ii = InputInfo::default();
    ii.evnt = InputEvent::Key(Key::Tab);
    assert_eq!(EditOutcome::Redraw, edit_on_input(&mut te, &ii, false));
    assert_eq!("ab    cd", te.txt);
    assert_eq!(6, te.cursor_pos);
    // a password edit takes Tab without inserting anything
    assert_eq!(EditOutcome::Handled, edit_on_input(&mut te, &ii, true));
    assert_eq!("ab    cd", te.txt);
    ii.evnt = InputEvent::Key(Key::Enter);
    assert_eq!(EditOutcome::Commit, edit_on_input(&mut te, &ii, false));
    ii.evnt = InputEvent::Key(Key::Esc);
    assert_eq!(EditOutcome::Redraw, edit_on_input(&mut te, &ii, false));
    assert_eq!(rtwins::widget_def::WIDGET_ID_NONE, te.wgt_id);
}

#[test]
fn combo_box_actions() {
    let mut cbs = CbbxState { item_idx: 0, items_cnt: 5, sel_idx: 1, drop_down: true };
    let mut ii = InputInfo::default();
    ii.evnt = InputEvent::Key(Key::Up);
    assert_eq!(ComboAction::Select(0), combo_action(&cbs, &ii, 3));
    cbs.sel_idx = 0;
    assert_eq!(ComboAction::Select(4), combo_action(&cbs, &ii, 3));
    ii.evnt = InputEvent::Key(Key::PgDown);
    ii.kmod.mask = KEY_MOD_SPECIAL;
    assert_eq!(ComboAction::Select(3), combo_action(&cbs, &ii, 3));
    cbs.sel_idx = 3;
    assert_eq!(ComboAction::Select(0), combo_action(&cbs, &ii, 3));
    ii.evnt = InputEvent::Key(Key::Enter);
    assert_eq!(ComboAction::Commit(3), combo_action(&cbs, &ii, 3));
    ii.evnt = InputEvent::Key(Key::Esc);
    assert_eq!(ComboAction::Hide, combo_action(&cbs, &ii, 3));
    cbs.drop_down = false;
    ii.evnt = InputEvent::Key(Key::Down);
    assert_eq!(ComboAction::Ignored, combo_action(&cbs, &ii, 3));
}

#[test]
fn tab_moves_focus_to_next_widget() {
    let children: &'static [Widget] = Box::leak(
        vec![
            Widget {
                id: 2,
                coord: Coord::new(2, 1),
                size: Size::new(10, 1),
                prop: prop::Label { title: "label", fg_color: ColorFg::Yellow, bg_color: ColorBg::Inherit }.into(),
                ..Widget::cdeflt()
            },
            Widget {
                id: 3,
                coord: Coord::new(2, 3),
                prop: prop::CheckBox { text: "check", fg_color: ColorFg::Inherit }.into(),
                ..Widget::cdeflt()
            },
        ]
        .into_boxed_slice(),
    );
    let wnd = Widget {
        id: 1,
        link: Link::cdeflt(),
        coord: Coord::new(1, 1),
        size: Size::new(30, 8),
        prop: prop::Window { title: "Wnd", fg_color: ColorFg::White, bg_color: ColorBg::Blue, is_popup: true }.into(),
        children,
    };
    let wgts: &'static [Widget] = Box::leak(rtwins::widget_impl::transform::tree_to_array(&wnd).into_boxed_slice());
    let mut ws = simple_wnd(wgts);
    let mut wst = WidgetState::default();
    let mut term = Term::new(PalStub::new());
    let mut ii = InputInfo::default();
    ii.evnt = InputEvent::Key(Key::Tab);
    ii.kmod.mask = KEY_MOD_SPECIAL;
    // nothing focused: Tab focuses the first widget that takes the focus, the check box
    assert!(process_input(&mut ws, &mut wst, &mut term, &ii));
    assert_eq!(3, wst.focused_wgt);

    assert_eq!(3, ws.focused);

    // a left click on the check box focuses it as well
    let mut ws = simple_wnd(wgts);
    let mut wst = WidgetState::default();
    let mut mi = rtwins::input::MouseInfo::default();
    mi.evt = rtwins::input::MouseEvent::ButtonLeft;
    mi.col = 4;
    mi.row = 4;
    ii.evnt = InputEvent::Mouse(mi);
    ii.kmod.mask = 0;
    assert!(process_input(&mut ws, &mut wst, &mut term, &ii));
    assert_eq!(3, wst.focused_wgt);
    assert_eq!(3, ws.focused);
}

struct CallLog {
    calls: Vec<String>,
}

impl rtwins::pal::Pal for CallLog {
    fn write_str_n(&mut self, s: &str, repeat: i16) {
        for _ in 0..repeat {
            self.calls.push(format!("w:{}", s));
        }
    }

    fn write_char_n(&mut self, c: char, repeat: i16) {
        for _ in 0..repeat {
            self.calls.push(format!("w:{}", c));
        }
    }

    fn flush_buff(&mut self) {
        self.calls.push("flush".to_string());
    }

    fn mark_logging(&mut self, active: bool) {
        self.calls.push(format!("mark:{}", active));
    }
}

#[test]
fn log_text_is_marked_and_flushed() {
    let mut term = Term::new(CallLog { calls: vec![] });
    term.log_d("hello");
    let calls = &term.pal.calls;
    let on = calls.iter().position(|c| c == "mark:true").unwrap();
    let off = calls.iter().position(|c| c == "mark:false").unwrap();
    assert!(on < off);
    let between: String = calls[on + 1..off].iter().map(|c| c.trim_start_matches("w:")).collect();
    assert_eq!("-D- hello", between);
    assert_eq!("flush", calls.last().unwrap());
}

#[test]
fn list_box_keys_move_and_commit_the_selection() {
    let children: &'static [Widget] = Box::leak(
        vec![Widget {
            id: 2,
            coord: Coord::new(2, 1),
            size: Size::new(12, 6),
            prop: prop::ListBox { fg_color: ColorFg::Inherit, bg_color: ColorBg::Inherit, no_frame: false }.into(),
            ..Widget::cdeflt()
        }]
        .into_boxed_slice(),
    );
    let wnd = Widget {
        id: 1,
        link: Link::cdeflt(),
        coord: Coord::new(1, 1),
        size: Size::new(30, 9),
        prop: prop::Window { title: "Wnd", fg_color: ColorFg::White, bg_color: ColorBg::Blue, is_popup: true }.into(),
        children,
    };
    let wgts: &'static [Widget] = Box::leak(transform::tree_to_array(&wnd).into_boxed_slice());
    let mut ws = simple_wnd(wgts);
    ws.focused = 2;
    ws.lbs.items_cnt = 3;
    ws.lbs.sel_idx = 2;
    ws.lbs.item_idx = 0;
    let mut wst = WidgetState::default();
    let mut term = Term::new(PalStub::new());
    let key = |k: Key| InputInfo { evnt: InputEvent::Key(k), kmod: KeyMod { mask: KEY_MOD_SPECIAL }, name: "" };
    // down from the last item wraps to the first
    assert!(process_input(&mut ws, &mut wst, &mut term, &key(Key::Down)));
    assert_eq!(ws.lbs.sel_idx, 0);
    assert!(process_input(&mut ws, &mut wst, &mut term, &key(Key::Up)));
    assert_eq!(ws.lbs.sel_idx, 2);
    // Enter makes the selection the value
    assert!(process_input(&mut ws, &mut wst, &mut term, &key(Key::Enter)));
    assert_eq!(ws.lbs.item_idx, 2);
    assert_eq!(ws.lbs.sel_idx, 2);
    // a left click on the second row of items selects the second item
    let mut rct = Rect::cdeflt();
    let lbx = rtwins::widget_impl::find_at(&mut ws, 5, 4, &mut rct).unwrap();
    assert_eq!(lbx.id, 2);
    let mut mi = rtwins::input::MouseInfo::default();
    mi.evt = rtwins::input::MouseEvent::ButtonLeft;
    mi.col = rct.coord.col + 1;
    mi.row = rct.coord.row + 2;
    let click = InputInfo { evnt: InputEvent::Mouse(mi), kmod: KeyMod { mask: 0 }, name: "" };
    assert!(process_input(&mut ws, &mut wst, &mut term, &click));
    assert_eq!(ws.lbs.sel_idx, 1);
    assert_eq!(ws.lbs.item_idx, 2);
}

#[test]
fn tab_moves_the_window_focus_to_the_next_focusable_widget() {
    let children: &'static [Widget] = Box::leak(
        vec![
            Widget {
                id: 2,
                coord: Coord::new(2, 1),
                size: Size::new(10, 1),
                prop: prop::Label { title: "label", fg_color: ColorFg::Yellow, bg_color: ColorBg::Inherit }.into(),
                ..Widget::cdeflt()
            },
            Widget {
                id: 3,
                coord: Coord::new(2, 3),
                prop: prop::CheckBox { text: "check", fg_color: ColorFg::Inherit }.into(),
                ..Widget::cdeflt()
            },
        ]
        .into_boxed_slice(),
    );
    let wnd = Widget {
        id: 1,
        link: Link::cdeflt(),
        coord: Coord::new(1, 1),
        size: Size::new(30, 8),
        prop: prop::Window { title: "Wnd", fg_color: ColorFg::White, bg_color: ColorBg::Blue, is_popup: true }.into(),
        children,
    };
    let wgts: &'static [Widget] = Box::leak(transform::tree_to_array(&wnd).into_boxed_slice());
    let mut ws = simple_wnd(wgts);
    let mut wst = WidgetState::default();
    let mut term = Term::new(PalStub::new());
    let tab = InputInfo { evnt: InputEvent::Key(Key::Tab), kmod: KeyMod { mask: KEY_MOD_SPECIAL }, name: "" };
    assert!(process_input(&mut ws, &mut wst, &mut term, &tab));
    assert_eq!(ws.focused, 3);
    assert_eq!(wst.focused_wgt, 3);
    let mut brk = false;
    let found = rtwins::widget_impl::get_next_focusable(&mut ws, &wgts[0], rtwins::widget_def::WIDGET_ID_NONE, true, None, &mut brk);
    assert_eq!(found.map(|w| w.id), Some(3));
}
