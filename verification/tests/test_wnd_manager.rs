//! # RTWins window manager and trace buffer tests

use rtwins::debug_trace::DefaultTimeSource;
use rtwins::debug_trace::TraceBuffer;
use rtwins::debug_trace::TraceTimeSource;
use rtwins::pal::PalStub;
use rtwins::terminal::Term;
use rtwins::common::Coord;
use rtwins::widget_def::Widget;
use rtwins::widget_def::WindowState;
use rtwins::widget_impl::WidgetState;
use rtwins::wnd_manager;
use rtwins::wnd_manager::hide_in;
use rtwins::wnd_manager::show_in;
use rtwins::wnd_manager::WindowManager;

struct Wnd {
    draws: u32,
}

impl WindowState for Wnd {
    fn widgets_spec(&self) -> vstd::seq::Seq<Widget> {
        unreachable!()
    }

    fn visible_spec(&self, _wgt: Widget) -> bool {
        unreachable!()
    }

    fn enabled_spec(&self, _wgt: Widget) -> bool {
        unreachable!()
    }

    fn window_coord_spec(&self) -> Coord {
        unreachable!()
    }

    fn page_index_spec(&self, _wgt: Widget) -> i16 {
        unreachable!()
    }

    fn focused_spec(&self) -> u16 {
        unreachable!()
    }

    fn combo_state_spec(&self, _wgt: Widget) -> rtwins::widget_def::rstate::CbbxState {
        unreachable!()
    }

    fn invalidated_spec(&self) -> vstd::seq::Seq<u16> {
        unreachable!()
    }

    fn focus_spec(&self, _wgt: Widget) -> bool {
        unreachable!()
    }

    fn is_focused(&self, _wgt: &Widget) -> bool {
        false
    }

    fn unhandled_spec(&self, _wgt: Widget, _ii: rtwins::input::InputInfo) -> bool {
        unreachable!()
    }

    fn button_text_spec(&self, _wgt: Widget) -> vstd::seq::Seq<char> {
        unreachable!()
    }

    fn get_button_text(&mut self, _wgt: &Widget, _out: &mut String) {}

    fn list_state_spec(&self, _wgt: Widget) -> rtwins::widget_def::rstate::LbxState {
        unreachable!()
    }

    fn text_box_spec(&self, _wgt: Widget) -> (i16, vstd::prelude::nat) {
        unreachable!()
    }

    fn get_text_box_state(&mut self, _wgt: &Widget, _out: &mut rtwins::widget_def::rstate::TxtbxState) {}

    fn on_text_box_scroll(&mut self, _wgt: &Widget, _new_top_line: i16) {}

    fn get_list_box_state(&mut self, _wgt: &Widget, _out: &mut rtwins::widget_def::rstate::LbxState) {}

    fn on_list_box_select(&mut self, _wgt: &Widget, _new_sel_idx: i16) {}

    fn on_list_box_change(&mut self, _wgt: &Widget, _new_idx: i16) {}

    fn set_focused_id(&mut self, _wid: u16) {}

    fn on_combo_box_select(&mut self, _wgt: &Widget, _new_sel_idx: i16) {}

    fn on_combo_box_change(&mut self, _wgt: &Widget, _new_idx: i16) {}

    fn on_combo_box_drop(&mut self, _wgt: &Widget, _drop_state: bool) {}

    fn get_combo_box_state(&mut self, _wgt: &Widget, _out: &mut rtwins::widget_def::rstate::CbbxState) {}

    fn on_window_unhandled_input_evt(&mut self, _wgt: &Widget, _ii: &rtwins::input::InputInfo) -> bool {
        false
    }

    fn invalidate_many(&mut self, _wids: &[u16]) {}

    fn get_invalidated(&mut self, _out: &mut Vec<u16>) {}

    fn on_page_control_page_change(&mut self, _wgt: &Widget, _new_page_idx: i16) {}

    fn get_focused_id(&mut self) -> u16 {
        rtwins::widget_def::WIDGET_ID_NONE
    }

    fn is_visible(&self, _wgt: &Widget) -> bool {
        true
    }

    fn is_enabled(&self, _wgt: &Widget) -> bool {
        true
    }

    fn get_widgets(&self) -> &'static [Widget] {
        &[]
    }

    fn get_window_coord(&mut self) -> Coord {
        Coord::cdeflt()
    }

    fn get_page_ctrl_page_index(&mut self, _wgt: &Widget) -> i16 {
        0
    }

    fn clear_invalidated(&mut self) {
        self.draws += 1;
    }
}

struct Manager {
    windows: Vec<Wnd>,
    visible: Vec<usize>,
}

impl WindowManager for Manager {
    type Wnd = Wnd;

    fn visible_windows(&self) -> vstd::seq::Seq<usize> {
        unreachable!()
    }

    fn get_ref(&self, wnd_idx: usize) -> Option<&Wnd> {
        self.windows.get(wnd_idx)
    }

    fn get_mut(&mut self, wnd_idx: usize) -> Option<&mut Wnd> {
        self.windows.get_mut(wnd_idx)
    }

    fn get_visible(&self) -> &[usize] {
        &self.visible
    }

    fn get_visible_mut(&mut self) -> &mut Vec<usize> {
        &mut self.visible
    }
}

fn manager() -> Manager {
    Manager { windows: vec![Wnd { draws: 0 }, Wnd { draws: 0 }, Wnd { draws: 0 }], visible: vec![] }
}

#[test]
fn show_and_hide() {
    let mut wm = manager();
    let mut term = Term::new(PalStub::new());
    let mut wst = WidgetState::default();

    wnd_manager::show(&mut wm, &mut term, &mut wst, 0);
    assert_eq!(vec![0], wm.visible);
    assert!(wm.is_top(0));
    assert_eq!(1, wm.windows[0].draws);

    wnd_manager::show(&mut wm, &mut term, &mut wst, 2);
    wnd_manager::show(&mut wm, &mut term, &mut wst, 1);
    assert_eq!(vec![0, 2, 1], wm.visible);
    assert!(wm.is_visible(2));
    assert!(!wm.is_top(2));

    // raising a covered window redraws all of them
    wnd_manager::show(&mut wm, &mut term, &mut wst, 2);
    assert_eq!(vec![0, 1, 2], wm.visible);
    assert!(wm.is_top(2));
    assert_eq!(2, wm.windows[0].draws);

    // the main window stays where it is
    wnd_manager::show(&mut wm, &mut term, &mut wst, 0);
    assert_eq!(vec![0, 1, 2], wm.visible);

    wnd_manager::hide_wnd(&mut wm, &mut term, &mut wst, 1);
    assert_eq!(vec![0, 2], wm.visible);
    assert!(!wm.is_visible(1));
    assert!(wm.get_top_ref().is_some());

    wnd_manager::hide_wnd(&mut wm, &mut term, &mut wst, 0);
    wnd_manager::hide_wnd(&mut wm, &mut term, &mut wst, 2);
    assert!(wm.visible.is_empty());
    assert!(wm.get_top_ref().is_none());
    assert!(!wm.is_top(0));
}

#[test]
fn visible_list_helpers() {
    let mut v = vec![3, 5];
    assert!(show_in(&mut v, 7));
    assert_eq!(vec![3, 5, 7], v);
    assert!(show_in(&mut v, 3));
    assert_eq!(vec![5, 7, 3], v);
    assert!(!show_in(&mut v, 3));
    assert!(hide_in(&mut v, 7));
    assert_eq!(vec![5, 3], v);
    assert!(!hide_in(&mut v, 7));
    // hiding what was just shown restores the list
    assert!(show_in(&mut v, 9));
    assert!(hide_in(&mut v, 9));
    assert_eq!(vec![5, 3], v);
}

struct FixedTime {}

impl TraceTimeSource for FixedTime {
    fn timestr(&self) -> String {
        "12:00".to_string()
    }
}

#[test]
fn trace_buffer() {
    let mut tb = TraceBuffer::default();
    let mut term = Term::new(PalStub::new());
    tb.trace_d("src/some/file.rs", 12, "debug");
    tb.trace_i("main.rs", 3, "info");
    tb.print_location = false;
    tb.trace_w("x.rs", 1, "warn");
    tb.trace_e("x.rs", 1, "err");
    tb.trace_flush(&mut term);
    assert_eq!(" 0:00:00.000 ", TraceBuffer::<DefaultTimeSource>::timestr_default());

    let mut tb2 = TraceBuffer::new(FixedTime {});
    tb2.set_timestr_fn(FixedTime {});
    tb2.trace_i("a/b.rs", 7, "hello");
    tb2.trace_flush(&mut term);
}

struct Capture {
    out: String,
}

impl rtwins::pal::Pal for Capture {
    fn write_str(&mut self, s: &str) {
        self.out.push_str(s);
    }

    fn write_char_n(&mut self, c: char, repeat: i16) {
        for _ in 0..repeat {
            self.out.push(c);
        }
    }
}

#[test]
fn trace_buffer_writes_location_and_order() {
    let mut tb = TraceBuffer::new(FixedTime {});
    let mut term = Term::new(Capture { out: String::new() });
    tb.trace_w("src/deep/dir/module.rs", 42, "first");
    tb.print_location = false;
    tb.trace_e("src/other.rs", 7, "second");
    tb.trace_flush(&mut term);
    let out = term.pal.out.clone();
    let first = out.find("module.rs:42: first").unwrap();
    let second = out.find("second").unwrap();
    assert!(first < second);
    assert!(!out.contains("other.rs"));
    assert!(out.contains("12:00"));
    assert!(out.contains("-W- "));
    assert!(out.contains("-E- "));

    // a flushed buffer writes nothing more
    let len = term.pal.out.len();
    tb.trace_flush(&mut term);
    assert_eq!(len, term.pal.out.len());
}
