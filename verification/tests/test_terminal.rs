//! # RTWins tests of the text the terminal sends to its PAL

use rtwins::colors::ColorBg;
use rtwins::colors::ColorFg;
use rtwins::common::FontAttrib;
use rtwins::common::MouseMode;
use rtwins::esc;
use rtwins::pal::Pal;
use rtwins::terminal::FontMementoManual;
use rtwins::terminal::Term;

struct Recorder {
    out: String,
}

impl Pal for Recorder {
    fn write_str_n(&mut self, s: &str, repeat: i16) {
        for _ in 0..repeat {
            self.out.push_str(s);
        }
    }

    fn write_char_n(&mut self, c: char, repeat: i16) {
        for _ in 0..repeat {
            self.out.push(c);
        }
    }

    fn get_logs_timestr(&self) -> String {
        String::from("T ")
    }
}

fn term() -> Term<Recorder> {
    Term::new(Recorder { out: String::new() })
}

#[test]
fn writes_and_moves() {
    let mut t = term();
    t.write_char('a').write_char_n('b', 3).write_str("cd").write_str_n("ef", 2);
    assert_eq!(t.pal.out, "abbbcdefef");
    t.pal.out.clear();
    t.write_char_n('x', 0).write_str_n("y", -2);
    assert_eq!(t.pal.out, "");
    t.move_to(5, 7).move_to_col(3).move_by(-2, 4).move_by(0, 0).move_to_home();
    assert_eq!(t.pal.out, "\x1B[7;5H\x1B[3G\x1B[2D\x1B[4B\x1B[H");
    t.pal.out.clear();
    t.move_by(6, -1);
    assert_eq!(t.pal.out, "\x1B[6C\x1B[1A");
}

#[test]
fn screen_and_cursor_codes() {
    let mut t = term();
    t.cursor_save_pos();
    t.cursor_restore_pos();
    t.cursor_hide();
    t.cursor_show();
    t.screen_clr_above();
    t.screen_clr_below();
    t.screen_clr_all();
    t.screen_save();
    t.screen_restore();
    t.insert_lines(2);
    t.delete_lines(3);
    let expected = [
        esc::CURSOR_POS_SAVE,
        esc::CURSOR_POS_RESTORE,
        esc::CURSOR_HIDE,
        esc::CURSOR_SHOW,
        esc::SCREEN_ERASE_ABOVE,
        esc::SCREEN_ERASE_BELOW,
        esc::SCREEN_ERASE_ALL,
        esc::SCREEN_SAVE,
        esc::SCREEN_RESTORE,
        "\x1B[2L",
        "\x1B[3M",
    ]
    .concat();
    assert_eq!(t.pal.out, expected);
}

#[test]
fn color_stack_codes() {
    let mut t = term();
    t.push_cl_fg(ColorFg::Red);
    t.push_cl_fg(ColorFg::Green);
    t.pop_cl_fg();
    t.pop_cl_fg();
    assert_eq!(t.pal.out, [esc::FG_RED, esc::FG_GREEN, esc::FG_RED, esc::FG_DEFAULT].concat());
    t.pal.out.clear();
    t.push_cl_bg(ColorBg::Blue);
    t.pop_cl_bg_n(5);
    t.reset_cl_fg();
    t.reset_cl_bg();
    assert_eq!(t.pal.out, [esc::BG_BLUE, esc::BG_DEFAULT, esc::FG_DEFAULT, esc::BG_DEFAULT].concat());
}

#[test]
fn attribute_codes_follow_faint_nesting() {
    let mut t = term();
    t.push_attr(FontAttrib::Bold);
    t.push_attr(FontAttrib::Faint);
    t.push_attr(FontAttrib::Bold);
    t.push_attr(FontAttrib::Underline);
    assert_eq!(t.pal.out, [esc::BOLD, esc::FAINT, esc::UNDERLINE_ON].concat());
    t.pal.out.clear();
    t.pop_attr_n(3);
    // underline off, bold under faint sends nothing, faint off
    assert_eq!(t.pal.out, [esc::UNDERLINE_OFF, esc::NORMAL].concat());
    t.pal.out.clear();
    t.pop_attr();
    assert_eq!(t.pal.out, esc::NORMAL);
    assert_eq!(t.attr_stack_len(), 0);
    t.pal.out.clear();
    t.reset_attr();
    assert_eq!(t.pal.out, esc::ATTRIBUTES_DEFAULT);
}

#[test]
fn memento_restores_font() {
    let mut t = term();
    t.push_cl_fg(ColorFg::Yellow);
    let mut m = FontMementoManual::from_term(&t);
    t.push_cl_fg(ColorFg::Cyan);
    t.push_cl_bg(ColorBg::Red);
    t.push_attr(FontAttrib::Italics);
    t.pal.out.clear();
    m.restore(&mut t);
    assert_eq!(t.current_cl_fg, ColorFg::Yellow);
    assert_eq!(t.current_cl_bg, ColorBg::Default);
    assert_eq!(t.attr_stack_len(), 0);
    assert_eq!(t.pal.out, [esc::FG_YELLOW, esc::BG_DEFAULT, esc::ITALICS_OFF].concat());
}

#[test]
fn log_lines_and_mouse_codes() {
    let mut t = term();
    t.logs_row = 9;
    t.push_cl_bg(ColorBg::Green);
    t.pal.out.clear();
    t.log_w("careful");
    let expected = [
        esc::CURSOR_POS_SAVE,
        "\x1B[9;0H",
        esc::BG_DEFAULT,
        esc::FG_YELLOW,
        "\x1B[1L",
        "T ",
        "-W- ",
        "careful",
        esc::FG_DEFAULT,
        esc::BG_GREEN,
        "\n",
        esc::CURSOR_POS_RESTORE,
    ]
    .concat();
    assert_eq!(t.pal.out, expected);
    assert_eq!(t.current_cl_bg, ColorBg::Green);
    t.pal.out.clear();
    t.log_clear();
    assert_eq!(
        t.pal.out,
        [esc::CURSOR_POS_SAVE, "\x1B[9;0H", esc::SCREEN_ERASE_BELOW, esc::CURSOR_POS_RESTORE].concat()
    );
    t.pal.out.clear();
    t.mouse_mode(MouseMode::Off);
    t.mouse_mode(MouseMode::M2);
    assert_eq!(
        t.pal.out,
        [esc::MOUSE_REPORTING_M1_OFF, esc::MOUSE_REPORTING_M2_OFF, esc::MOUSE_REPORTING_M2_ON].concat()
    );
}

#[test]
fn pop_after_push_restores_font() {
    let mut t = term();
    t.push_cl_fg(ColorFg::Magenta);
    t.push_cl_bg(ColorBg::Cyan);
    t.pal.out.clear();
    t.push_cl_fg(ColorFg::Blue);
    t.pop_cl_fg();
    assert_eq!(t.current_cl_fg, ColorFg::Magenta);
    assert_eq!(t.stack_cl_fg, vec![ColorFg::Default]);
    assert_eq!(t.pal.out, [esc::FG_BLUE, esc::FG_MAGENTA].concat());
    t.pal.out.clear();
    t.push_cl_bg(ColorBg::White);
    t.pop_cl_bg();
    assert_eq!(t.current_cl_bg, ColorBg::Cyan);
    assert_eq!(t.pal.out, [esc::BG_WHITE, esc::BG_CYAN].concat());
    t.pal.out.clear();
    t.push_attr(FontAttrib::Faint);
    assert_eq!(t.attr_faint, 1);
    t.push_attr(FontAttrib::Bold);
    t.pop_attr();
    assert_eq!(t.pal.out, esc::FAINT);
    t.pop_attr();
    assert_eq!(t.attr_faint, 0);
    assert_eq!(t.pal.out, [esc::FAINT, esc::NORMAL].concat());
}
