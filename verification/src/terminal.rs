//! # RTWins Context definition

use vstd::prelude::*;
use crate::colors::ColorBg;
use crate::colors::ColorFg;
use crate::colors::bg_intensified;
use crate::colors::bg_rank;
use crate::colors::fg_intensified;
use crate::colors::fg_rank;
use crate::colors::bg_code;
use crate::colors::fg_code;
use crate::common::FontAttrib;
use crate::common::MouseMode;
use crate::esc;
use crate::esc::csi_num_seq;
use crate::esc::cursor_goto_seq;
use crate::string_ext::repeat_char;
use crate::pal::Pal;
use crate::widget_def::WId;
use crate::widget_def::WIDGET_ID_ALL;
use crate::widget_def::WindowState;
use crate::widget_draw::draw_widgets;
use crate::widget_draw::widgets_drawn;
use crate::widget_impl::WidgetState;

verus! {

/// Font state of the terminal: current colors, the color and attribute stacks,
/// and the nesting of the faint attribute
#[verifier::ext_equal]
pub struct FontState {
    pub fg: ColorFg,
    pub bg: ColorBg,
    pub faint: i8,
    pub fg_stack: Seq<ColorFg>,
    pub bg_stack: Seq<ColorBg>,
    pub attr_stack: Seq<FontAttrib>,
}

/// Number of entries a pop of `n` takes from a stack of `len` entries
pub open spec fn pop_count(n: i8, len: nat) -> nat {
    if n <= 0 {
        0
    } else if n > len {
        len
    } else {
        n as nat
    }
}

/// Font state after pushing foreground color `cl`
pub open spec fn pushed_fg(f: FontState, cl: ColorFg) -> FontState {
    FontState { fg: cl, fg_stack: f.fg_stack.push(f.fg), ..f }
}

/// Font state after restoring the foreground color `n` levels back
pub open spec fn popped_fg(f: FontState, n: i8) -> FontState {
    let len = f.fg_stack.len();
    let k = pop_count(n, len);
    if k == 0 {
        f
    } else {
        FontState { fg: f.fg_stack[len - k], fg_stack: f.fg_stack.take(len - k), ..f }
    }
}

/// Font state after pushing background color `cl`
pub open spec fn pushed_bg(f: FontState, cl: ColorBg) -> FontState {
    FontState { bg: cl, bg_stack: f.bg_stack.push(f.bg), ..f }
}

/// Font state after restoring the background color `n` levels back
pub open spec fn popped_bg(f: FontState, n: i8) -> FontState {
    let len = f.bg_stack.len();
    let k = pop_count(n, len);
    if k == 0 {
        f
    } else {
        FontState { bg: f.bg_stack[len - k], bg_stack: f.bg_stack.take(len - k), ..f }
    }
}

/// Faint nesting after pushing attribute `a`
pub open spec fn faint_after_push(faint: i8, a: FontAttrib) -> i8 {
    if a == FontAttrib::Faint {
        if faint < i8::MAX { (faint + 1) as i8 } else { faint }
    } else {
        faint
    }
}

/// Font state after pushing attribute `a`
pub open spec fn pushed_attr(f: FontState, a: FontAttrib) -> FontState {
    FontState { attr_stack: f.attr_stack.push(a), faint: faint_after_push(f.faint, a), ..f }
}

/// Faint nesting after popping the attributes `s`, top of the stack first
pub open spec fn faint_after_pops(faint: i8, s: Seq<FontAttrib>) -> i8
    decreases s.len(),
{
    if s.len() == 0 {
        faint
    } else {
        let f2: i8 = if s.last() == FontAttrib::Faint && faint > 0 { (faint - 1) as i8 } else { faint };
        faint_after_pops(f2, s.drop_last())
    }
}

/// Font state after popping `n` attributes
pub open spec fn popped_attr(f: FontState, n: i8) -> FontState {
    let len = f.attr_stack.len();
    let k = pop_count(n, len);
    FontState {
        attr_stack: f.attr_stack.take(len - k),
        faint: faint_after_pops(f.faint, f.attr_stack.skip(len - k)),
        ..f
    }
}

/// `n` copies of the text; none when `n` is not positive
pub open spec fn repeat_text(s: Seq<char>, n: int) -> Seq<char>
    decreases n,
{
    if n <= 0 {
        Seq::empty()
    } else {
        repeat_text(s, n - 1) + s
    }
}

/// A theme foreground color: the PAL gives its code
pub open spec fn fg_is_theme(cl: ColorFg) -> bool {
    18 <= fg_rank(cl) < 48
}

/// A theme background color: the PAL gives its code
pub open spec fn bg_is_theme(cl: ColorBg) -> bool {
    18 <= bg_rank(cl) < 48
}

/// Text sent when attribute `a` is pushed, with the faint nesting at `faint`
pub open spec fn attr_on_text(a: FontAttrib, faint: i8) -> Seq<char> {
    match a {
        FontAttrib::Bold => if faint == 0 { esc::BOLD@ } else { Seq::empty() },
        FontAttrib::Faint => esc::FAINT@,
        FontAttrib::Italics => esc::ITALICS_ON@,
        FontAttrib::Underline => esc::UNDERLINE_ON@,
        FontAttrib::Blink => esc::BLINK@,
        FontAttrib::Inverse => esc::INVERSE_ON@,
        FontAttrib::Invisible => esc::INVISIBLE_ON@,
        FontAttrib::StrikeThrough => esc::STRIKETHROUGH_ON@,
        FontAttrib::NoAttrib => Seq::empty(),
    }
}

/// Text sent when attribute `a` is popped, with the faint nesting at `faint`
pub open spec fn attr_off_text(a: FontAttrib, faint: i8) -> Seq<char> {
    match a {
        FontAttrib::Bold => if faint == 0 { esc::NORMAL@ } else { Seq::empty() },
        FontAttrib::Faint => if faint > 0 { esc::NORMAL@ } else { Seq::empty() },
        FontAttrib::Italics => esc::ITALICS_OFF@,
        FontAttrib::Underline => esc::UNDERLINE_OFF@,
        FontAttrib::Blink => esc::BLINK_OFF@,
        FontAttrib::Inverse => esc::INVERSE_OFF@,
        FontAttrib::Invisible => esc::INVISIBLE_OFF@,
        FontAttrib::StrikeThrough => esc::STRIKETHROUGH_OFF@,
        FontAttrib::NoAttrib => Seq::empty(),
    }
}

/// Text sent when the attributes `s` are popped, the top of the stack first, from faint
/// nesting `faint`
pub open spec fn pops_text(faint: i8, s: Seq<FontAttrib>) -> Seq<char>
    decreases s.len(),
{
    if s.len() == 0 {
        Seq::empty()
    } else {
        let a = s.last();
        let f2: i8 = if a == FontAttrib::Faint && faint > 0 { (faint - 1) as i8 } else { faint };
        attr_off_text(a, faint) + pops_text(f2, s.drop_last())
    }
}

/// Text of a cursor move by `cols` columns and `rows` rows
pub open spec fn move_by_text(cols: i16, rows: i16) -> Seq<char> {
    (if cols < 0 {
        csi_num_seq((-cols) as nat, 'D')
    } else if cols > 0 {
        csi_num_seq(cols as nat, 'C')
    } else {
        Seq::empty()
    }) + (if rows < 0 {
        csi_num_seq((-rows) as nat, 'A')
    } else if rows > 0 {
        csi_num_seq(rows as nat, 'B')
    } else {
        Seq::empty()
    })
}

/// Text of a log line written above row `row`: `bg_back` restores the background color
pub open spec fn log_text(
    row: u16,
    fg: Seq<char>,
    time: Seq<char>,
    prefix: Seq<char>,
    msg: Seq<char>,
    bg_back: Seq<char>,
) -> Seq<char> {
    esc::CURSOR_POS_SAVE@ + cursor_goto_seq(row as nat, 0) + bg_code(ColorBg::Default)@ + fg + csi_num_seq(1, 'L')
        + time + prefix + msg + esc::FG_DEFAULT@ + bg_back + seq!['\n'] + esc::CURSOR_POS_RESTORE@
}

/// Terminal low level API and context
pub struct Term<P: Pal> {
    pub pal: P,
    pub logs_row: u16,
    pub current_cl_fg: ColorFg,
    pub current_cl_bg: ColorBg,
    pub attr_faint: i8,
    pub stack_cl_fg: Vec<ColorFg>,
    pub stack_cl_bg: Vec<ColorBg>,
    pub stack_attr: Vec<FontAttrib>,
    /// Text sent to the PAL so far; a request to write `n` copies counts `n` times
    pub sent: Ghost<Seq<char>>,
    /// The PAL's logging marks so far: where in `sent` the PAL was told that log text starts
    /// (true) or ends (false)
    pub marks: Ghost<Seq<(nat, bool)>>,
    /// The PAL was told to flush after the last text or logging mark it was handed
    pub flushed: Ghost<bool>,
}

/// The last two logging marks bracket `text`: the PAL was told that log text starts where
/// `text` starts in the sent text `sent`, and that it ends where `text` ends
pub open spec fn log_marked(marks: Seq<(nat, bool)>, sent: Seq<char>, text: Seq<char>) -> bool {
    &&& marks.len() >= 2
    &&& marks[marks.len() - 2].1 && !marks[marks.len() - 1].1
    &&& marks[marks.len() - 1].0 == marks[marks.len() - 2].0 + text.len()
    &&& marks[marks.len() - 1].0 <= sent.len()
    &&& sent.subrange(marks[marks.len() - 2].0 as int, marks[marks.len() - 1].0 as int) == text
}

impl<P: Pal> Term<P> {
    /// The font state
    pub open spec fn font(&self) -> FontState {
        FontState {
            fg: self.current_cl_fg,
            bg: self.current_cl_bg,
            faint: self.attr_faint,
            fg_stack: self.stack_cl_fg@,
            bg_stack: self.stack_cl_bg@,
            attr_stack: self.stack_attr@,
        }
    }

    /// Creates default instance using provided Pal
    pub fn new(p: P) -> (t: Self)
        ensures
            t.pal == p,
            t.logs_row == 0,
            t.font() == (FontState {
                fg: ColorFg::Default,
                bg: ColorBg::Default,
                faint: 0,
                fg_stack: Seq::empty(),
                bg_stack: Seq::empty(),
                attr_stack: Seq::empty(),
            }),
            t.sent@ == Seq::<char>::empty(),
            t.marks@ == Seq::<(nat, bool)>::empty(),
            t.flushed@,
    {
        Term {
            pal: p,
            logs_row: 0,
            current_cl_fg: ColorFg::Default,
            current_cl_bg: ColorBg::Default,
            attr_faint: 0,
            stack_cl_fg: Vec::new(),
            stack_cl_bg: Vec::new(),
            stack_attr: Vec::new(),
            sent: Ghost(Seq::empty()),
            marks: Ghost(Seq::empty()),
            flushed: Ghost(true),
        }
    }

    /// Sends text to the PAL
    fn emit(&mut self, s: &str)
        ensures
            final(self).sent@ == old(self).sent@ + s@,
            final(self).marks == old(self).marks,
            final(self).font() == old(self).font(),
            final(self).logs_row == old(self).logs_row,
    {
        self.pal.write_str(s);
        self.sent = Ghost(self.sent@ + s@);
        self.flushed = Ghost(false);
    }

    /// Write single character
    pub fn write_char(&mut self, c: char) -> (r: &mut Self)
        ensures
            r.font() == old(self).font(),
            r.logs_row == old(self).logs_row,
            *final(self) == *final(r),
            r.sent@ == old(self).sent@.push(c),
            sent_extends(old(self).sent@, r.sent@),
    {
        self.pal.write_char(c);
        self.sent = Ghost(self.sent@.push(c));
        self.flushed = Ghost(false);
        proof {
            assert(old(self).sent@ =~= self.sent@.subrange(0, old(self).sent@.len() as int));
        }
        self
    }

    /// Write character multiple times
    pub fn write_char_n(&mut self, c: char, repeat: i16) -> (r: &mut Self)
        ensures
            r.font() == old(self).font(),
            r.logs_row == old(self).logs_row,
            *final(self) == *final(r),
            r.sent@ == old(self).sent@ + repeat_char(c, repeat as int),
            sent_extends(old(self).sent@, r.sent@),
    {
        self.pal.write_char_n(c, repeat);
        self.sent = Ghost(self.sent@ + repeat_char(c, repeat as int));
        self.flushed = Ghost(false);
        proof {
            assert(old(self).sent@ =~= self.sent@.subrange(0, old(self).sent@.len() as int));
        }
        self
    }

    /// Write single string
    pub fn write_str(&mut self, s: &str) -> (r: &mut Self)
        ensures
            r.font() == old(self).font(),
            r.logs_row == old(self).logs_row,
            *final(self) == *final(r),
            r.sent@ == old(self).sent@ + s@,
            sent_extends(old(self).sent@, r.sent@),
    {
        self.emit(s);
        proof {
            assert(old(self).sent@ =~= self.sent@.subrange(0, old(self).sent@.len() as int));
        }
        self
    }

    /// Write string multiple times
    pub fn write_str_n(&mut self, s: &str, repeat: i16) -> (r: &mut Self)
        ensures
            r.font() == old(self).font(),
            r.logs_row == old(self).logs_row,
            *final(self) == *final(r),
            r.sent@ == old(self).sent@ + repeat_text(s@, repeat as int),
            sent_extends(old(self).sent@, r.sent@),
    {
        self.pal.write_str_n(s, repeat);
        self.sent = Ghost(self.sent@ + repeat_text(s@, repeat as int));
        self.flushed = Ghost(false);
        proof {
            assert(old(self).sent@ =~= self.sent@.subrange(0, old(self).sent@.len() as int));
        }
        self
    }

    /// Flush buffer to the terminal (depends on PAL)
    pub fn flush_buff(&mut self)
        ensures
            final(self).flushed@,
            final(self).font() == old(self).font(),
            final(self).logs_row == old(self).logs_row,
            final(self).sent@ == old(self).sent@,
            sent_extends(old(self).sent@, final(self).sent@),
    {
        self.pal.flush_buff();
        self.flushed = Ghost(true);
        proof {
            assert(old(self).sent@ =~= self.sent@.subrange(0, old(self).sent@.len() as int));
        }
    }

    /// Writes a log line above the logs row, keeping the cursor and the font
    fn log(&mut self, fg: &str, time_str: &str, prefix: &str, msg: &str)
        ensures
            log_marked(final(self).marks@, final(self).sent@, time_str@ + prefix@ + msg@),
            final(self).flushed@,
            final(self).font() == old(self).font(),
            final(self).logs_row == old(self).logs_row,
            exists|b: Seq<char>|
                #![trigger log_text(old(self).logs_row, fg@, time_str@, prefix@, msg@, b)]
                final(self).sent@ == old(self).sent@ + log_text(old(self).logs_row, fg@, time_str@, prefix@, msg@, b)
                    && (!bg_is_theme(old(self).current_cl_bg) ==> b == bg_code(old(self).current_cl_bg)@),
    {
        self.pal.flush_buff();
        self.cursor_save_pos();
        let row = self.logs_row;
        self.move_to(0, row);
        self.push_cl_bg(ColorBg::Default);
        self.emit(fg);
        self.insert_lines(1);
        self.pal.mark_logging(true);
        self.flushed = Ghost(false);
        proof {
            self.marks = Ghost(self.marks@.push((self.sent@.len(), true)));
        }
        let ghost s_start = self.sent@;
        self.emit(time_str);
        self.emit(prefix);
        self.emit(msg);
        self.pal.mark_logging(false);
        self.flushed = Ghost(false);
        proof {
            self.marks = Ghost(self.marks@.push((self.sent@.len(), false)));
            assert(self.sent@.subrange(s_start.len() as int, self.sent@.len() as int) =~= time_str@ + prefix@ + msg@);
        }
        let ghost s_logged = self.sent@;
        self.emit(esc::FG_DEFAULT);
        let ghost before_pop = self.sent@;
        self.pop_cl_bg();
        let ghost b = self.sent@.skip(before_pop.len() as int);
        proof {
            assert(self.sent@ =~= before_pop + b);
        }
        self.pal.write_char('\n');
        self.sent = Ghost(self.sent@.push('\n'));
        self.flushed = Ghost(false);
        self.cursor_restore_pos();
        self.pal.flush_buff();
        self.flushed = Ghost(true);
        proof {
            assert(self.sent@.subrange(s_start.len() as int, s_logged.len() as int) =~= s_logged.subrange(s_start.len() as int, s_logged.len() as int));
        }
        assert(self.stack_cl_bg@ =~= old(self).stack_cl_bg@);
        assert(self.sent@ =~= old(self).sent@ + log_text(old(self).logs_row, fg@, time_str@, prefix@, msg@, b));
    }

    /// Writes a message of the trace buffer
    pub fn trace_message(&mut self, fg: &str, time_str: &str, prefix: &str, msg: &str)
        ensures
            log_marked(final(self).marks@, final(self).sent@, time_str@ + prefix@ + msg@),
            final(self).flushed@,
            final(self).font() == old(self).font(),
            final(self).logs_row == old(self).logs_row,
            exists|b: Seq<char>|
                #![trigger log_text(old(self).logs_row, fg@, time_str@, prefix@, msg@, b)]
                final(self).sent@ == old(self).sent@ + log_text(old(self).logs_row, fg@, time_str@, prefix@, msg@, b)
                    && (!bg_is_theme(old(self).current_cl_bg) ==> b == bg_code(old(self).current_cl_bg)@),
    {
        self.log(fg, time_str, prefix, msg);
    }

    /// Print Debug message
    pub fn log_d(&mut self, msg: &str)
        ensures
            final(self).font() == old(self).font(),
            final(self).logs_row == old(self).logs_row,
            exists|t: Seq<char>, b: Seq<char>|
                #![trigger log_text(old(self).logs_row, esc::FG_BLACK_INTENSE@, t, "-D- "@, msg@, b)]
                final(self).sent@ == old(self).sent@ + log_text(old(self).logs_row, esc::FG_BLACK_INTENSE@, t, "-D- "@, msg@, b)
                    && (!bg_is_theme(old(self).current_cl_bg) ==> b == bg_code(old(self).current_cl_bg)@),
            exists|t: Seq<char>| #[trigger] log_marked(final(self).marks@, final(self).sent@, t + "-D- "@ + msg@),
            final(self).flushed@,
    {
        let time_str = self.pal.get_logs_timestr();
        self.log(esc::FG_BLACK_INTENSE, time_str.as_str(), "-D- ", msg);
    }

    /// Print Info message
    pub fn log_i(&mut self, msg: &str)
        ensures
            final(self).font() == old(self).font(),
            final(self).logs_row == old(self).logs_row,
            exists|t: Seq<char>, b: Seq<char>|
                #![trigger log_text(old(self).logs_row, esc::FG_WHITE@, t, "-I- "@, msg@, b)]
                final(self).sent@ == old(self).sent@ + log_text(old(self).logs_row, esc::FG_WHITE@, t, "-I- "@, msg@, b)
                    && (!bg_is_theme(old(self).current_cl_bg) ==> b == bg_code(old(self).current_cl_bg)@),
            exists|t: Seq<char>| #[trigger] log_marked(final(self).marks@, final(self).sent@, t + "-I- "@ + msg@),
            final(self).flushed@,
    {
        let time_str = self.pal.get_logs_timestr();
        self.log(esc::FG_WHITE, time_str.as_str(), "-I- ", msg);
    }

    /// Print Warning message
    pub fn log_w(&mut self, msg: &str)
        ensures
            final(self).font() == old(self).font(),
            final(self).logs_row == old(self).logs_row,
            exists|t: Seq<char>, b: Seq<char>|
                #![trigger log_text(old(self).logs_row, esc::FG_YELLOW@, t, "-W- "@, msg@, b)]
                final(self).sent@ == old(self).sent@ + log_text(old(self).logs_row, esc::FG_YELLOW@, t, "-W- "@, msg@, b)
                    && (!bg_is_theme(old(self).current_cl_bg) ==> b == bg_code(old(self).current_cl_bg)@),
            exists|t: Seq<char>| #[trigger] log_marked(final(self).marks@, final(self).sent@, t + "-W- "@ + msg@),
            final(self).flushed@,
    {
        let time_str = self.pal.get_logs_timestr();
        self.log(esc::FG_YELLOW, time_str.as_str(), "-W- ", msg);
    }

    /// Print Error message
    pub fn log_e(&mut self, msg: &str)
        ensures
            final(self).font() == old(self).font(),
            final(self).logs_row == old(self).logs_row,
            exists|t: Seq<char>, b: Seq<char>|
                #![trigger log_text(old(self).logs_row, esc::FG_RED@, t, "-E- "@, msg@, b)]
                final(self).sent@ == old(self).sent@ + log_text(old(self).logs_row, esc::FG_RED@, t, "-E- "@, msg@, b)
                    && (!bg_is_theme(old(self).current_cl_bg) ==> b == bg_code(old(self).current_cl_bg)@),
            exists|t: Seq<char>| #[trigger] log_marked(final(self).marks@, final(self).sent@, t + "-E- "@ + msg@),
            final(self).flushed@,
    {
        let time_str = self.pal.get_logs_timestr();
        self.log(esc::FG_RED, time_str.as_str(), "-E- ", msg);
    }

    /// Clear logs
    pub fn log_clear(&mut self)
        ensures
            final(self).font() == old(self).font(),
            final(self).logs_row == old(self).logs_row,
            final(self).sent@ == old(self).sent@ + esc::CURSOR_POS_SAVE@ + cursor_goto_seq(old(self).logs_row as nat, 0)
                + esc::SCREEN_ERASE_BELOW@ + esc::CURSOR_POS_RESTORE@,
    {
        self.cursor_save_pos();
        let row = self.logs_row;
        self.move_to(0, row);
        self.screen_clr_below();
        self.cursor_restore_pos();
    }

    /// Move cursor to given `col`:`row`
    pub fn move_to(&mut self, col: u16, row: u16) -> (r: &mut Self)
        ensures
            r.font() == old(self).font(),
            r.logs_row == old(self).logs_row,
            *final(self) == *final(r),
            r.sent@ == old(self).sent@ + cursor_goto_seq(row as nat, col as nat),
            sent_extends(old(self).sent@, r.sent@),
    {
        let s = esc::cursor_goto(row, col);
        self.emit(s.as_str());
        proof {
            assert(old(self).sent@ =~= self.sent@.subrange(0, old(self).sent@.len() as int));
        }
        self
    }

    /// Set cursor at column `col`
    pub fn move_to_col(&mut self, col: u16) -> (r: &mut Self)
        ensures
            r.font() == old(self).font(),
            r.logs_row == old(self).logs_row,
            *final(self) == *final(r),
            r.sent@ == old(self).sent@ + csi_num_seq(col as nat, 'G'),
            sent_extends(old(self).sent@, r.sent@),
    {
        let s = esc::cursor_column(col);
        self.emit(s.as_str());
        proof {
            assert(old(self).sent@ =~= self.sent@.subrange(0, old(self).sent@.len() as int));
        }
        self
    }

    /// Move cursor by given offsets
    pub fn move_by(&mut self, cols: i16, rows: i16) -> (r: &mut Self)
        ensures
            r.font() == old(self).font(),
            r.logs_row == old(self).logs_row,
            *final(self) == *final(r),
            r.sent@ == old(self).sent@ + move_by_text(cols, rows),
            sent_extends(old(self).sent@, r.sent@),
    {
        let ghost start = self.sent@;
        if cols != 0 {
            let s = if cols < 0 {
                esc::cursor_backward((0i32 - cols as i32) as u16)
            } else {
                esc::cursor_forward(cols as u16)
            };
            self.emit(s.as_str());
        }
        if rows != 0 {
            let s = if rows < 0 {
                esc::cursor_up((0i32 - rows as i32) as u16)
            } else {
                esc::cursor_down(rows as u16)
            };
            self.emit(s.as_str());
        }
        proof {
            let h = if cols < 0 {
                csi_num_seq((-cols) as nat, 'D')
            } else if cols > 0 {
                csi_num_seq(cols as nat, 'C')
            } else {
                Seq::empty()
            };
            let v = if rows < 0 {
                csi_num_seq((-rows) as nat, 'A')
            } else if rows > 0 {
                csi_num_seq(rows as nat, 'B')
            } else {
                Seq::empty()
            };
            assert(self.sent@ =~= start + (h + v));
        }
        proof {
            assert(old(self).sent@ =~= self.sent@.subrange(0, old(self).sent@.len() as int));
        }
        self
    }

    /// Move cursor to Home position (1:1)
    pub fn move_to_home(&mut self) -> (r: &mut Self)
        ensures
            r.font() == old(self).font(),
            r.logs_row == old(self).logs_row,
            *final(self) == *final(r),
            r.sent@ == old(self).sent@ + esc::CURSOR_HOME@,
            sent_extends(old(self).sent@, r.sent@),
    {
        self.emit(esc::CURSOR_HOME);
        proof {
            assert(old(self).sent@ =~= self.sent@.subrange(0, old(self).sent@.len() as int));
        }
        self
    }

    /// Tell the terminal to remember cursor position
    pub fn cursor_save_pos(&mut self)
        ensures
            final(self).font() == old(self).font(),
            final(self).logs_row == old(self).logs_row,
            final(self).sent@ == old(self).sent@ + esc::CURSOR_POS_SAVE@,
            sent_extends(old(self).sent@, final(self).sent@),
    {
        self.emit(esc::CURSOR_POS_SAVE);
        proof {
            assert(old(self).sent@ =~= self.sent@.subrange(0, old(self).sent@.len() as int));
        }
    }

    /// Tell the terminal to restore cursor position
    pub fn cursor_restore_pos(&mut self)
        ensures
            final(self).marks == old(self).marks,
            final(self).font() == old(self).font(),
            final(self).logs_row == old(self).logs_row,
            final(self).sent@ == old(self).sent@ + esc::CURSOR_POS_RESTORE@,
            sent_extends(old(self).sent@, final(self).sent@),
    {
        self.emit(esc::CURSOR_POS_RESTORE);
        proof {
            assert(old(self).sent@ =~= self.sent@.subrange(0, old(self).sent@.len() as int));
        }
    }

    /// Hide cursor
    pub fn cursor_hide(&mut self)
        ensures
            final(self).font() == old(self).font(),
            final(self).logs_row == old(self).logs_row,
            final(self).sent@ == old(self).sent@ + esc::CURSOR_HIDE@,
            sent_extends(old(self).sent@, final(self).sent@),
    {
        self.emit(esc::CURSOR_HIDE);
        proof {
            assert(old(self).sent@ =~= self.sent@.subrange(0, old(self).sent@.len() as int));
        }
    }

    /// Show cursor
    pub fn cursor_show(&mut self)
        ensures
            final(self).font() == old(self).font(),
            final(self).logs_row == old(self).logs_row,
            final(self).sent@ == old(self).sent@ + esc::CURSOR_SHOW@,
            sent_extends(old(self).sent@, final(self).sent@),
    {
        self.emit(esc::CURSOR_SHOW);
        proof {
            assert(old(self).sent@ =~= self.sent@.subrange(0, old(self).sent@.len() as int));
        }
    }

    /// Clear screen above the current cursor row
    pub fn screen_clr_above(&mut self)
        ensures
            final(self).font() == old(self).font(),
            final(self).logs_row == old(self).logs_row,
            final(self).sent@ == old(self).sent@ + esc::SCREEN_ERASE_ABOVE@,
            sent_extends(old(self).sent@, final(self).sent@),
    {
        self.emit(esc::SCREEN_ERASE_ABOVE);
        proof {
            assert(old(self).sent@ =~= self.sent@.subrange(0, old(self).sent@.len() as int));
        }
    }

    /// Clear screen below the current cursor row
    pub fn screen_clr_below(&mut self)
        ensures
            final(self).font() == old(self).font(),
            final(self).logs_row == old(self).logs_row,
            final(self).sent@ == old(self).sent@ + esc::SCREEN_ERASE_BELOW@,
            sent_extends(old(self).sent@, final(self).sent@),
    {
        self.emit(esc::SCREEN_ERASE_BELOW);
        proof {
            assert(old(self).sent@ =~= self.sent@.subrange(0, old(self).sent@.len() as int));
        }
    }

    /// Clear the whole screen
    pub fn screen_clr_all(&mut self)
        ensures
            final(self).font() == old(self).font(),
            final(self).logs_row == old(self).logs_row,
            final(self).sent@ == old(self).sent@ + esc::SCREEN_ERASE_ALL@,
            sent_extends(old(self).sent@, final(self).sent@),
    {
        self.emit(esc::SCREEN_ERASE_ALL);
        proof {
            assert(old(self).sent@ =~= self.sent@.subrange(0, old(self).sent@.len() as int));
        }
    }

    /// Tell the terminal to remember screen content
    pub fn screen_save(&mut self)
        ensures
            final(self).font() == old(self).font(),
            final(self).logs_row == old(self).logs_row,
            final(self).sent@ == old(self).sent@ + esc::SCREEN_SAVE@,
            sent_extends(old(self).sent@, final(self).sent@),
    {
        self.emit(esc::SCREEN_SAVE);
        proof {
            assert(old(self).sent@ =~= self.sent@.subrange(0, old(self).sent@.len() as int));
        }
    }

    /// Tell the terminal to restore screen content
    pub fn screen_restore(&mut self)
        ensures
            final(self).font() == old(self).font(),
            final(self).logs_row == old(self).logs_row,
            final(self).sent@ == old(self).sent@ + esc::SCREEN_RESTORE@,
            sent_extends(old(self).sent@, final(self).sent@),
    {
        self.emit(esc::SCREEN_RESTORE);
        proof {
            assert(old(self).sent@ =~= self.sent@.subrange(0, old(self).sent@.len() as int));
        }
    }

    /// Insert empty lines at current cursor row
    pub fn insert_lines(&mut self, count: u16)
        ensures
            final(self).font() == old(self).font(),
            final(self).logs_row == old(self).logs_row,
            final(self).sent@ == old(self).sent@ + csi_num_seq(count as nat, 'L'),
            sent_extends(old(self).sent@, final(self).sent@),
    {
        let s = esc::line_insert(count);
        self.emit(s.as_str());
        proof {
            assert(old(self).sent@ =~= self.sent@.subrange(0, old(self).sent@.len() as int));
        }
    }

    /// Delete lines starting at current cursor row
    pub fn delete_lines(&mut self, count: u16)
        ensures
            final(self).font() == old(self).font(),
            final(self).logs_row == old(self).logs_row,
            final(self).sent@ == old(self).sent@ + csi_num_seq(count as nat, 'M'),
            sent_extends(old(self).sent@, final(self).sent@),
    {
        let s = esc::line_delete(count);
        self.emit(s.as_str());
        proof {
            assert(old(self).sent@ =~= self.sent@.subrange(0, old(self).sent@.len() as int));
        }
    }

    /// ANSI escape code of a foreground color; theme colors are encoded by the PAL
    fn code_fg(&self, cl: ColorFg) -> (r: &'static str)
        ensures
            !fg_is_theme(cl) ==> r == fg_code(cl),
    {
        if cl.is_theme() {
            self.pal.encode_theme_fg(cl)
        } else {
            cl.encode()
        }
    }

    /// ANSI escape code of a background color; theme colors are encoded by the PAL
    fn code_bg(&self, cl: ColorBg) -> (r: &'static str)
        ensures
            !bg_is_theme(cl) ==> r == bg_code(cl),
    {
        if cl.is_theme() {
            self.pal.encode_theme_bg(cl)
        } else {
            cl.encode()
        }
    }

    /// Intense variant of a foreground color when `cond` holds; theme colors are intensified by the PAL
    pub fn intensify_fg_if(&self, cl: ColorFg, cond: bool) -> (r: ColorFg)
        ensures
            !cond ==> r == cl,
            cond && !(18 <= fg_rank(cl) < 48) ==> r == fg_intensified(cl),
    {
        if cond && cl.is_theme() {
            self.pal.intensify_theme_fg(cl)
        } else {
            cl.intensify_if(cond)
        }
    }

    /// Intense variant of a background color when `cond` holds; theme colors are intensified by the PAL
    pub fn intensify_bg_if(&self, cl: ColorBg, cond: bool) -> (r: ColorBg)
        ensures
            !cond ==> r == cl,
            cond && !(18 <= bg_rank(cl) < 48) ==> r == bg_intensified(cl),
    {
        if cond && cl.is_theme() {
            self.pal.intensify_theme_bg(cl)
        } else {
            cl.intensify_if(cond)
        }
    }

    /// Set new foreground color, put current color on stack
    pub fn push_cl_fg(&mut self, cl: ColorFg)
        ensures
            final(self).font() == pushed_fg(old(self).font(), cl),
            final(self).logs_row == old(self).logs_row,
            forall|f: FontState|
                #[trigger] font_extends(f, old(self).font()) && old(self).font().fg_stack.len() < f.fg_stack.len() + 127
                    ==> font_extends(f, final(self).font()),
            sent_extends(old(self).sent@, final(self).sent@),
            !fg_is_theme(cl) ==> final(self).sent@ == old(self).sent@ + fg_code(cl)@,
    {
        let cur = self.current_cl_fg;
        self.stack_cl_fg.push(cur);
        self.current_cl_fg = cl;
        let code = self.code_fg(cl);
        self.emit(code);
        proof {
            assert forall|f: FontState|
                font_extends(f, old(self).font()) && old(self).font().fg_stack.len() < f.fg_stack.len() + 127
                    implies font_extends(f, self.font()) by {
                lemma_font_extends_push_fg(f, old(self).font(), cl);
            }
        }
    }

    /// Restore current-n foreground color from the stack
    pub fn pop_cl_fg_n(&mut self, n: i8)
        ensures
            final(self).font() == popped_fg(old(self).font(), n),
            final(self).logs_row == old(self).logs_row,
            sent_extends(old(self).sent@, final(self).sent@),
            !fg_is_theme(final(self).current_cl_fg) ==> final(self).sent@ == old(self).sent@ + fg_code(final(self).current_cl_fg)@,
    {
        let mut k: i8 = n;
        let ghost len = self.stack_cl_fg@.len();
        let ghost cnt = pop_count(n, len);
        while self.stack_cl_fg.len() > 0 && k > 0
            invariant
                k <= n,
                n > 0 ==> k >= 0,
                n > 0 ==> self.stack_cl_fg@.len() + (n - k) == len,
                n <= 0 ==> self.stack_cl_fg@.len() == len && k == n,
                self.stack_cl_fg@ == old(self).stack_cl_fg@.take(self.stack_cl_fg@.len() as int),
                len == old(self).stack_cl_fg@.len(),
                cnt == pop_count(n, len),
                self.current_cl_fg == (if n - k > 0 { old(self).stack_cl_fg@[self.stack_cl_fg@.len() as int] } else { old(self).current_cl_fg }),
                self.current_cl_bg == old(self).current_cl_bg,
                self.attr_faint == old(self).attr_faint,
                self.stack_cl_bg == old(self).stack_cl_bg,
                self.stack_attr == old(self).stack_attr,
                self.logs_row == old(self).logs_row,
                self.sent@ == old(self).sent@,
            decreases self.stack_cl_fg@.len(),
        {
            match self.stack_cl_fg.pop() {
                Some(c) => {
                    self.current_cl_fg = c;
                },
                None => {},
            }
            k = k - 1;
        }
        assert(self.stack_cl_fg@ =~= old(self).stack_cl_fg@.take(len - pop_count(n, len)));
        assert(self.font() =~= popped_fg(old(self).font(), n));
        let cl = self.current_cl_fg;
        let code = self.code_fg(cl);
        self.emit(code);
    }

    /// Restore previous foreground color
    pub fn pop_cl_fg(&mut self)
        ensures
            final(self).font() == popped_fg(old(self).font(), 1),
            final(self).logs_row == old(self).logs_row,
            forall|f: FontState|
                #[trigger] font_extends(f, old(self).font()) && old(self).font().fg_stack.len() > f.fg_stack.len()
                    ==> font_extends(f, final(self).font()),
            sent_extends(old(self).sent@, final(self).sent@),
            !fg_is_theme(final(self).current_cl_fg) ==> final(self).sent@ == old(self).sent@ + fg_code(final(self).current_cl_fg)@,
    {
        self.pop_cl_fg_n(1);
        proof {
            assert forall|f: FontState|
                font_extends(f, old(self).font()) && old(self).font().fg_stack.len() > f.fg_stack.len()
                    implies font_extends(f, self.font()) by {
                lemma_font_extends_pop_fg(f, old(self).font());
            }
        }
    }

    /// Reset foreground color stack, set to the DEFAULT
    pub fn reset_cl_fg(&mut self)
        ensures
            final(self).font() == (FontState { fg_stack: Seq::empty(), ..old(self).font() }),
            final(self).logs_row == old(self).logs_row,
            final(self).sent@ == old(self).sent@ + esc::FG_DEFAULT@,
            sent_extends(old(self).sent@, final(self).sent@),
    {
        self.stack_cl_fg.clear();
        self.emit(esc::FG_DEFAULT);
        proof {
            assert(old(self).sent@ =~= self.sent@.subrange(0, old(self).sent@.len() as int));
        }
    }

    /// Set new background color, put current color on stack
    pub fn push_cl_bg(&mut self, cl: ColorBg)
        ensures
            final(self).font() == pushed_bg(old(self).font(), cl),
            final(self).logs_row == old(self).logs_row,
            forall|f: FontState|
                #[trigger] font_extends(f, old(self).font()) && old(self).font().bg_stack.len() < f.bg_stack.len() + 127
                    ==> font_extends(f, final(self).font()),
            sent_extends(old(self).sent@, final(self).sent@),
            !bg_is_theme(cl) ==> final(self).sent@ == old(self).sent@ + bg_code(cl)@,
    {
        let cur = self.current_cl_bg;
        self.stack_cl_bg.push(cur);
        self.current_cl_bg = cl;
        let code = self.code_bg(cl);
        self.emit(code);
        proof {
            assert forall|f: FontState|
                font_extends(f, old(self).font()) && old(self).font().bg_stack.len() < f.bg_stack.len() + 127
                    implies font_extends(f, self.font()) by {
                lemma_font_extends_push_bg(f, old(self).font(), cl);
            }
        }
    }

    /// Restore current-n background color from the stack
    pub fn pop_cl_bg_n(&mut self, n: i8)
        ensures
            final(self).marks == old(self).marks,
            final(self).font() == popped_bg(old(self).font(), n),
            final(self).logs_row == old(self).logs_row,
            sent_extends(old(self).sent@, final(self).sent@),
            !bg_is_theme(final(self).current_cl_bg) ==> final(self).sent@ == old(self).sent@ + bg_code(final(self).current_cl_bg)@,
    {
        let mut k: i8 = n;
        let ghost len = self.stack_cl_bg@.len();
        while self.stack_cl_bg.len() > 0 && k > 0
            invariant
                k <= n,
                n > 0 ==> k >= 0,
                n > 0 ==> self.stack_cl_bg@.len() + (n - k) == len,
                n <= 0 ==> self.stack_cl_bg@.len() == len && k == n,
                self.stack_cl_bg@ == old(self).stack_cl_bg@.take(self.stack_cl_bg@.len() as int),
                len == old(self).stack_cl_bg@.len(),
                self.current_cl_bg == (if n - k > 0 { old(self).stack_cl_bg@[self.stack_cl_bg@.len() as int] } else { old(self).current_cl_bg }),
                self.current_cl_fg == old(self).current_cl_fg,
                self.attr_faint == old(self).attr_faint,
                self.stack_cl_fg == old(self).stack_cl_fg,
                self.stack_attr == old(self).stack_attr,
                self.logs_row == old(self).logs_row,
                self.sent@ == old(self).sent@,
                self.marks == old(self).marks,
            decreases self.stack_cl_bg@.len(),
        {
            match self.stack_cl_bg.pop() {
                Some(c) => {
                    self.current_cl_bg = c;
                },
                None => {},
            }
            k = k - 1;
        }
        assert(self.stack_cl_bg@ =~= old(self).stack_cl_bg@.take(len - pop_count(n, len)));
        assert(self.font() =~= popped_bg(old(self).font(), n));
        let cl = self.current_cl_bg;
        let code = self.code_bg(cl);
        self.emit(code);
    }

    /// Restore previous background color
    pub fn pop_cl_bg(&mut self)
        ensures
            final(self).marks == old(self).marks,
            final(self).font() == popped_bg(old(self).font(), 1),
            final(self).logs_row == old(self).logs_row,
            forall|f: FontState|
                #[trigger] font_extends(f, old(self).font()) && old(self).font().bg_stack.len() > f.bg_stack.len()
                    ==> font_extends(f, final(self).font()),
            sent_extends(old(self).sent@, final(self).sent@),
            !bg_is_theme(final(self).current_cl_bg) ==> final(self).sent@ == old(self).sent@ + bg_code(final(self).current_cl_bg)@,
    {
        self.pop_cl_bg_n(1);
        proof {
            assert forall|f: FontState|
                font_extends(f, old(self).font()) && old(self).font().bg_stack.len() > f.bg_stack.len()
                    implies font_extends(f, self.font()) by {
                lemma_font_extends_pop_bg(f, old(self).font());
            }
        }
    }

    /// Reset background color stack, set to the DEFAULT
    pub fn reset_cl_bg(&mut self)
        ensures
            final(self).font() == (FontState { bg_stack: Seq::empty(), ..old(self).font() }),
            final(self).logs_row == old(self).logs_row,
            final(self).sent@ == old(self).sent@ + esc::BG_DEFAULT@,
            sent_extends(old(self).sent@, final(self).sent@),
    {
        self.stack_cl_bg.clear();
        self.emit(esc::BG_DEFAULT);
        proof {
            assert(old(self).sent@ =~= self.sent@.subrange(0, old(self).sent@.len() as int));
        }
    }

    /// Set new font attribute, remember it on stack
    pub fn push_attr(&mut self, attr: FontAttrib)
        ensures
            final(self).font() == pushed_attr(old(self).font(), attr),
            final(self).logs_row == old(self).logs_row,
            forall|f: FontState|
                #[trigger] font_extends(f, old(self).font()) && old(self).font().attr_stack.len() < f.attr_stack.len() + 127
                    && (attr == FontAttrib::Faint ==> 0 <= old(self).font().faint < i8::MAX)
                    ==> font_extends(f, final(self).font()),
            final(self).sent@ == old(self).sent@ + attr_on_text(attr, old(self).attr_faint),
            sent_extends(old(self).sent@, final(self).sent@),
    {
        self.stack_attr.push(attr);
        match attr {
            FontAttrib::Bold => {
                if self.attr_faint == 0 {
                    self.emit(esc::BOLD);
                }
            },
            FontAttrib::Faint => {
                if self.attr_faint < i8::MAX {
                    self.attr_faint = self.attr_faint + 1;
                }
                self.emit(esc::FAINT);
            },
            FontAttrib::Italics => {
                self.emit(esc::ITALICS_ON);
            },
            FontAttrib::Underline => {
                self.emit(esc::UNDERLINE_ON);
            },
            FontAttrib::Blink => {
                self.emit(esc::BLINK);
            },
            FontAttrib::Inverse => {
                self.emit(esc::INVERSE_ON);
            },
            FontAttrib::Invisible => {
                self.emit(esc::INVISIBLE_ON);
            },
            FontAttrib::StrikeThrough => {
                self.emit(esc::STRIKETHROUGH_ON);
            },
            FontAttrib::NoAttrib => {},
        }
        proof {
            assert forall|f: FontState|
                font_extends(f, old(self).font()) && old(self).font().attr_stack.len() < f.attr_stack.len() + 127
                    && (attr == FontAttrib::Faint ==> 0 <= old(self).font().faint < i8::MAX)
                    implies font_extends(f, self.font()) by {
                lemma_font_extends_push_attr(f, old(self).font(), attr);
            }
        }
        proof {
            assert(old(self).sent@ =~= self.sent@.subrange(0, old(self).sent@.len() as int));
        }
    }

    /// Restore current-n font attribute
    pub fn pop_attr_n(&mut self, n: i8)
        ensures
            final(self).font() == popped_attr(old(self).font(), n),
            final(self).sent@ == old(self).sent@ + pops_text(
                old(self).attr_faint,
                old(self).stack_attr@.skip(old(self).stack_attr@.len() - pop_count(n, old(self).stack_attr@.len())),
            ),
            final(self).logs_row == old(self).logs_row,
            sent_extends(old(self).sent@, final(self).sent@),
    {
        let mut k: i8 = n;
        let ghost len = self.stack_attr@.len();
        let ghost cnt = pop_count(n, len);
        while self.stack_attr.len() > 0 && k > 0
            invariant
                k <= n,
                n > 0 ==> self.stack_attr@.len() + (n - k) == len,
                n <= 0 ==> self.stack_attr@.len() == len && k == n,
                self.stack_attr@ == old(self).stack_attr@.take(self.stack_attr@.len() as int),
                len == old(self).stack_attr@.len(),
                faint_after_pops(old(self).attr_faint, old(self).stack_attr@.skip(len - cnt))
                    == faint_after_pops(self.attr_faint, old(self).stack_attr@.subrange(len - cnt, self.stack_attr@.len() as int)),
                cnt == pop_count(n, len),
                len - cnt <= self.stack_attr@.len(),
                n > 0 && k > 0 && self.stack_attr@.len() > 0 ==> len - cnt < self.stack_attr@.len(),
                old(self).sent@ + pops_text(old(self).attr_faint, old(self).stack_attr@.skip(len - cnt))
                    == self.sent@ + pops_text(self.attr_faint, old(self).stack_attr@.subrange(len - cnt, self.stack_attr@.len() as int)),
                self.current_cl_fg == old(self).current_cl_fg,
                self.current_cl_bg == old(self).current_cl_bg,
                self.stack_cl_fg@ == old(self).stack_cl_fg@,
                self.stack_cl_bg@ == old(self).stack_cl_bg@,
                self.logs_row == old(self).logs_row,
            decreases self.stack_attr@.len(),
        {
            let ghost before = self.stack_attr@;
            let ghost faint_before = self.attr_faint;
            let ghost sent_before = self.sent@;
            match self.stack_attr.pop() {
                Some(attr) => {
                    match attr {
                        FontAttrib::Bold => {
                            if self.attr_faint == 0 {
                                self.emit(esc::NORMAL);
                            }
                        },
                        FontAttrib::Faint => {
                            if self.attr_faint > 0 {
                                self.attr_faint = self.attr_faint - 1;
                                self.emit(esc::NORMAL);
                            }
                        },
                        FontAttrib::Italics => {
                            self.emit(esc::ITALICS_OFF);
                        },
                        FontAttrib::Underline => {
                            self.emit(esc::UNDERLINE_OFF);
                        },
                        FontAttrib::Blink => {
                            self.emit(esc::BLINK_OFF);
                        },
                        FontAttrib::Inverse => {
                            self.emit(esc::INVERSE_OFF);
                        },
                        FontAttrib::Invisible => {
                            self.emit(esc::INVISIBLE_OFF);
                        },
                        FontAttrib::StrikeThrough => {
                            self.emit(esc::STRIKETHROUGH_OFF);
                        },
                        FontAttrib::NoAttrib => {},
                    }
                    proof {
                        let sub = old(self).stack_attr@.subrange(len - cnt, before.len() as int);
                        assert(sub.last() == attr);
                        assert(sub.drop_last() =~= old(self).stack_attr@.subrange(len - cnt, self.stack_attr@.len() as int));
                        let rest = pops_text(self.attr_faint, sub.drop_last());
                        assert(self.sent@ == sent_before + attr_off_text(attr, faint_before));
                        assert(pops_text(faint_before, sub) == attr_off_text(attr, faint_before) + rest);
                        assert(sent_before + (attr_off_text(attr, faint_before) + rest) =~= self.sent@ + rest);
                    }
                },
                None => {},
            }
            k = k - 1;
        }
        proof {
            assert(old(self).stack_attr@.subrange(len - cnt, self.stack_attr@.len() as int) =~= Seq::<FontAttrib>::empty());
            assert(self.sent@ + Seq::<char>::empty() =~= self.sent@);
        }
        proof {
            assert(old(self).sent@ =~= self.sent@.subrange(0, old(self).sent@.len() as int));
        }
    }

    /// Restore previous font attribute
    pub fn pop_attr(&mut self)
        ensures
            final(self).font() == popped_attr(old(self).font(), 1),
            final(self).logs_row == old(self).logs_row,
            forall|f: FontState|
                #[trigger] font_extends(f, old(self).font()) && old(self).font().attr_stack.len() > f.attr_stack.len()
                    ==> font_extends(f, final(self).font()),
            final(self).sent@ == old(self).sent@ + pops_text(old(self).attr_faint, old(self).stack_attr@.skip(old(self).stack_attr@.len() - pop_count(1, old(self).stack_attr@.len()))),
            sent_extends(old(self).sent@, final(self).sent@),
    {
        self.pop_attr_n(1);
        proof {
            assert forall|f: FontState|
                font_extends(f, old(self).font()) && old(self).font().attr_stack.len() > f.attr_stack.len()
                    implies font_extends(f, self.font()) by {
                lemma_font_extends_pop_attr(f, old(self).font());
            }
        }
        proof {
            assert(old(self).sent@ =~= self.sent@.subrange(0, old(self).sent@.len() as int));
        }
    }

    /// Reset font attribute stack, reset terminal font attributes
    pub fn reset_attr(&mut self)
        ensures
            final(self).font() == (FontState { attr_stack: Seq::empty(), faint: 0, ..old(self).font() }),
            final(self).logs_row == old(self).logs_row,
            final(self).sent@ == old(self).sent@ + esc::ATTRIBUTES_DEFAULT@,
            sent_extends(old(self).sent@, final(self).sent@),
    {
        self.attr_faint = 0;
        self.stack_attr.clear();
        self.emit(esc::ATTRIBUTES_DEFAULT);
        proof {
            assert(old(self).sent@ =~= self.sent@.subrange(0, old(self).sent@.len() as int));
        }
    }

    /// Number of font attributes on the stack
    pub fn attr_stack_len(&self) -> (r: usize)
        ensures
            r == self.font().attr_stack.len(),
    {
        self.stack_attr.len()
    }

    /// Draw given widgets; flushes the buffer
    pub fn draw<W: WindowState>(&mut self, ws: &mut W, wst: &mut WidgetState, wids: &[WId])
        ensures
            widgets_drawn(*old(self), *final(self), old(ws).focused_spec(), *old(wst), *final(wst), wids@),
    {
        draw_widgets(self, ws, wst, wids);
    }

    /// Draw widgets marked as invalidated; flushes the buffer.
    /// Clears the invalidated widgets list
    pub fn draw_invalidated<W: WindowState>(&mut self, ws: &mut W, wst: &mut WidgetState)
        ensures
            widgets_drawn(*old(self), *final(self), old(ws).focused_spec(), *old(wst), *final(wst), old(ws).invalidated_spec()),
            final(ws).invalidated_spec() == Seq::<WId>::empty(),
    {
        let mut wids: Vec<WId> = Vec::new();
        ws.get_invalidated(&mut wids);
        draw_widgets(self, ws, wst, wids.as_slice());
        ws.clear_invalidated();
    }

    /// Draw entire window; flushes the buffer and clears the invalidated widgets list
    pub fn draw_wnd<W: WindowState>(&mut self, ws: &mut W, wst: &mut WidgetState)
        ensures
            widgets_drawn(*old(self), *final(self), old(ws).focused_spec(), *old(wst), *final(wst), seq![WIDGET_ID_ALL]),
            final(ws).invalidated_spec() == Seq::<WId>::empty(),
    {
        draw_widgets(self, ws, wst, &[WIDGET_ID_ALL]);
        ws.clear_invalidated();
    }

    /// Mouse reporting
    pub fn mouse_mode(&mut self, mode: MouseMode)
        ensures
            final(self).font() == old(self).font(),
            final(self).logs_row == old(self).logs_row,
            final(self).sent@ == old(self).sent@ + match mode {
                MouseMode::Off => esc::MOUSE_REPORTING_M1_OFF@ + esc::MOUSE_REPORTING_M2_OFF@,
                MouseMode::M1 => esc::MOUSE_REPORTING_M1_ON@,
                MouseMode::M2 => esc::MOUSE_REPORTING_M2_ON@,
            },
    {
        match mode {
            MouseMode::Off => {
                self.emit(esc::MOUSE_REPORTING_M1_OFF);
                self.emit(esc::MOUSE_REPORTING_M2_OFF);
                assert(self.sent@ =~= old(self).sent@ + (esc::MOUSE_REPORTING_M1_OFF@ + esc::MOUSE_REPORTING_M2_OFF@));
            },
            MouseMode::M1 => {
                self.emit(esc::MOUSE_REPORTING_M1_ON);
            },
            MouseMode::M2 => {
                self.emit(esc::MOUSE_REPORTING_M2_ON);
            },
        }
    }
}

/// Stack depth to pop to get back from `len` entries to `stored` ones
pub open spec fn depth_to_pop(len: nat, stored: usize) -> i8 {
    if len > stored {
        if len - stored > 127 { 127i8 } else { (len - stored) as i8 }
    } else {
        0i8
    }
}

/// Remembers and restores font attributes on request
pub struct FontMementoManual {
    pub fg_stack_len: usize,
    pub bg_stack_len: usize,
    pub at_stack_len: usize,
}

impl FontMementoManual {
    /// Creates a memento of empty stacks
    pub fn new() -> (m: Self)
        ensures
            m.fg_stack_len == 0 && m.bg_stack_len == 0 && m.at_stack_len == 0,
    {
        FontMementoManual { fg_stack_len: 0, bg_stack_len: 0, at_stack_len: 0 }
    }

    /// Creates a memento of the terminal's current stacks
    pub fn from_term<P: Pal>(term: &Term<P>) -> (m: Self)
        ensures
            m.fg_stack_len == term.font().fg_stack.len(),
            m.bg_stack_len == term.font().bg_stack.len(),
            m.at_stack_len == term.font().attr_stack.len(),
    {
        let mut fm = FontMementoManual { fg_stack_len: 0, bg_stack_len: 0, at_stack_len: 0 };
        fm.store(term);
        fm
    }

    /// Remembers the depth of the terminal's stacks
    pub fn store<P: Pal>(&mut self, term: &Term<P>)
        ensures
            final(self).fg_stack_len == term.font().fg_stack.len(),
            final(self).bg_stack_len == term.font().bg_stack.len(),
            final(self).at_stack_len == term.font().attr_stack.len(),
    {
        self.fg_stack_len = term.stack_cl_fg.len();
        self.bg_stack_len = term.stack_cl_bg.len();
        self.at_stack_len = term.stack_attr.len();
    }

    /// Pops the terminal's stacks back to the remembered depth
    pub fn restore<P: Pal>(&mut self, term: &mut Term<P>)
        ensures
            final(term).font() == popped_attr(
                popped_bg(
                    popped_fg(old(term).font(), depth_to_pop(old(term).font().fg_stack.len(), old(self).fg_stack_len)),
                    depth_to_pop(old(term).font().bg_stack.len(), old(self).bg_stack_len),
                ),
                depth_to_pop(old(term).font().attr_stack.len(), old(self).at_stack_len),
            ),
            final(term).logs_row == old(term).logs_row,
            sent_extends(old(term).sent@, final(term).sent@),
            *final(self) == *old(self),
            forall|f: FontState|
                #[trigger] font_extends(f, old(term).font()) && f.fg_stack.len() == old(self).fg_stack_len
                    && f.bg_stack.len() == old(self).bg_stack_len && f.attr_stack.len() == old(self).at_stack_len
                    ==> final(term).font() == f,
    {
        let fg = Self::depth(term.stack_cl_fg.len(), self.fg_stack_len);
        let bg = Self::depth(term.stack_cl_bg.len(), self.bg_stack_len);
        let at = Self::depth(term.stack_attr.len(), self.at_stack_len);
        let ghost s0 = term.sent@;
        term.pop_cl_fg_n(fg);
        let ghost s1 = term.sent@;
        term.pop_cl_bg_n(bg);
        let ghost s2 = term.sent@;
        term.pop_attr_n(at);
        proof {
            assert(s0 =~= term.sent@.subrange(0, s0.len() as int)) by {
                assert(s0 =~= s1.subrange(0, s0.len() as int));
                assert(s1 =~= s2.subrange(0, s1.len() as int));
                assert(s2 =~= term.sent@.subrange(0, s2.len() as int));
            }
            assert forall|f: FontState|
                font_extends(f, old(term).font()) && f.fg_stack.len() == old(self).fg_stack_len
                    && f.bg_stack.len() == old(self).bg_stack_len && f.attr_stack.len() == old(self).at_stack_len
                    implies term.font() == f by {
                lemma_memento_round_trip(f, old(term).font());
            }
        }
    }

    /// Stack depth to pop to get back from `len` entries to `stored` ones
    fn depth(len: usize, stored: usize) -> (r: i8)
        ensures
            r == depth_to_pop(len as nat, stored),
    {
        if len > stored {
            if len - stored > 127 { 127 } else { (len - stored) as i8 }
        } else {
            0
        }
    }
}

/// `g` is `f` with at most 127 entries pushed on each of its stacks (and the faint nesting
/// raised by the faint attributes pushed), so that popping back to `f`'s depths gives `f`
pub open spec fn font_extends(f: FontState, g: FontState) -> bool {
    &&& g.fg_stack.len() >= f.fg_stack.len()
    &&& g.fg_stack.len() - f.fg_stack.len() <= 127
    &&& g.fg_stack.take(f.fg_stack.len() as int) == f.fg_stack
    &&& g.fg_stack.len() > f.fg_stack.len() ==> g.fg_stack[f.fg_stack.len() as int] == f.fg
    &&& g.fg_stack.len() == f.fg_stack.len() ==> g.fg == f.fg
    &&& g.bg_stack.len() >= f.bg_stack.len()
    &&& g.bg_stack.len() - f.bg_stack.len() <= 127
    &&& g.bg_stack.take(f.bg_stack.len() as int) == f.bg_stack
    &&& g.bg_stack.len() > f.bg_stack.len() ==> g.bg_stack[f.bg_stack.len() as int] == f.bg
    &&& g.bg_stack.len() == f.bg_stack.len() ==> g.bg == f.bg
    &&& g.attr_stack.len() >= f.attr_stack.len()
    &&& g.attr_stack.len() - f.attr_stack.len() <= 127
    &&& g.attr_stack.take(f.attr_stack.len() as int) == f.attr_stack
    &&& faint_after_pops(g.faint, g.attr_stack.skip(f.attr_stack.len() as int)) == f.faint
}

/// A memento stored before pushes on the three stacks (at most 127 on each) gives back,
/// when restored, the font state it was stored from
pub proof fn lemma_memento_round_trip(f: FontState, g: FontState)
    requires
        font_extends(f, g),
        f.fg_stack.len() <= usize::MAX,
        f.bg_stack.len() <= usize::MAX,
        f.attr_stack.len() <= usize::MAX,
    ensures
        popped_attr(
            popped_bg(
                popped_fg(g, depth_to_pop(g.fg_stack.len(), f.fg_stack.len() as usize)),
                depth_to_pop(g.bg_stack.len(), f.bg_stack.len() as usize),
            ),
            depth_to_pop(g.attr_stack.len(), f.attr_stack.len() as usize),
        ) == f,
{
    let g1 = popped_fg(g, depth_to_pop(g.fg_stack.len(), f.fg_stack.len() as usize));
    let g2 = popped_bg(g1, depth_to_pop(g.bg_stack.len(), f.bg_stack.len() as usize));
    let g3 = popped_attr(g2, depth_to_pop(g.attr_stack.len(), f.attr_stack.len() as usize));
    assert(g.fg_stack.take(f.fg_stack.len() as int) =~= f.fg_stack);
    assert(g.bg_stack.take(f.bg_stack.len() as int) =~= f.bg_stack);
    if g.fg_stack.len() == f.fg_stack.len() {
        assert(g.fg_stack =~= f.fg_stack);
    }
    if g.bg_stack.len() == f.bg_stack.len() {
        assert(g.bg_stack =~= f.bg_stack);
    }
    if g.attr_stack.len() == f.attr_stack.len() {
        assert(g.attr_stack =~= f.attr_stack);
        assert(g.attr_stack.skip(f.attr_stack.len() as int) =~= Seq::<FontAttrib>::empty());
    }
    assert(g1.fg == f.fg && g1.fg_stack =~= f.fg_stack);
    assert(g2.bg == f.bg && g2.bg_stack =~= f.bg_stack);
    assert(g3.attr_stack =~= f.attr_stack);
    assert(g3.faint == f.faint);
    assert(g3 =~= f);
}

/// `b` is `a` followed by more text: what was sent stays sent
pub closed spec fn sent_extends(a: Seq<char>, b: Seq<char>) -> bool {
    a.is_prefix_of(b)
}

/// What has been sent extends itself
pub proof fn lemma_sent_extends_refl(a: Seq<char>)
    ensures
        sent_extends(a, a),
{
    assert(a =~= a.subrange(0, a.len() as int));
}

/// Text followed by more text extends it
pub proof fn lemma_sent_extends_append(a: Seq<char>, x: Seq<char>)
    ensures
        sent_extends(a, a + x),
{
    assert(a =~= (a + x).subrange(0, a.len() as int));
}

/// Extending is transitive
pub proof fn lemma_sent_extends_trans(a: Seq<char>, b: Seq<char>, c: Seq<char>)
    requires
        sent_extends(a, b),
        sent_extends(b, c),
    ensures
        sent_extends(a, c),
{
    assert(a =~= c.subrange(0, a.len() as int)) by {
        assert forall|i: int| 0 <= i < a.len() implies a[i] == c.subrange(0, a.len() as int)[i] by {
            assert(a[i] == b.subrange(0, a.len() as int)[i]);
            assert(b[i] == c.subrange(0, b.len() as int)[i]);
        }
    }
}

/// What has been sent extends itself, wherever that is asked
pub broadcast proof fn lemma_sent_extends_same(a: Seq<char>)
    ensures
        #[trigger] sent_extends(a, a),
{
    lemma_sent_extends_refl(a);
}

/// Extending is transitive, wherever two extensions meet
pub broadcast proof fn lemma_sent_extends_chain(a: Seq<char>, b: Seq<char>, c: Seq<char>)
    requires
        #[trigger] sent_extends(a, b),
        #[trigger] sent_extends(b, c),
    ensures
        sent_extends(a, c),
{
    lemma_sent_extends_trans(a, b, c);
}

/// Text that extends `a` is `a` followed by the rest
pub proof fn lemma_sent_extends_split(a: Seq<char>, b: Seq<char>)
    requires
        sent_extends(a, b),
    ensures
        b == a + b.skip(a.len() as int),
{
    assert(b =~= a + b.skip(a.len() as int));
}

/// Pushing a foreground color and popping it gives back the font state
pub proof fn lemma_push_pop_fg(f: FontState, cl: ColorFg)
    ensures
        popped_fg(pushed_fg(f, cl), 1) == f,
{
    assert(popped_fg(pushed_fg(f, cl), 1) =~= f);
}

/// Pushing a background color and popping it gives back the font state
pub proof fn lemma_push_pop_bg(f: FontState, cl: ColorBg)
    ensures
        popped_bg(pushed_bg(f, cl), 1) == f,
{
    assert(popped_bg(pushed_bg(f, cl), 1) =~= f);
}

/// Every font state extends itself
pub proof fn lemma_font_extends_refl(f: FontState)
    ensures
        font_extends(f, f),
{
    assert(f.fg_stack.take(f.fg_stack.len() as int) =~= f.fg_stack);
    assert(f.bg_stack.take(f.bg_stack.len() as int) =~= f.bg_stack);
    assert(f.attr_stack.take(f.attr_stack.len() as int) =~= f.attr_stack);
    assert(f.attr_stack.skip(f.attr_stack.len() as int) =~= Seq::<FontAttrib>::empty());
}

/// Pushing a foreground color keeps a font state extending `f`
pub proof fn lemma_font_extends_push_fg(f: FontState, g: FontState, cl: ColorFg)
    requires
        font_extends(f, g),
        g.fg_stack.len() < f.fg_stack.len() + 127,
    ensures
        font_extends(f, pushed_fg(g, cl)),
{
    let h = pushed_fg(g, cl);
    assert(h.fg_stack.take(f.fg_stack.len() as int) =~= f.fg_stack);
    if g.fg_stack.len() == f.fg_stack.len() {
        assert(h.fg_stack[f.fg_stack.len() as int] == g.fg);
    } else {
        assert(h.fg_stack[f.fg_stack.len() as int] == g.fg_stack[f.fg_stack.len() as int]);
    }
}

/// Pushing a background color keeps a font state extending `f`
pub proof fn lemma_font_extends_push_bg(f: FontState, g: FontState, cl: ColorBg)
    requires
        font_extends(f, g),
        g.bg_stack.len() < f.bg_stack.len() + 127,
    ensures
        font_extends(f, pushed_bg(g, cl)),
{
    let h = pushed_bg(g, cl);
    assert(h.bg_stack.take(f.bg_stack.len() as int) =~= f.bg_stack);
    if g.bg_stack.len() == f.bg_stack.len() {
        assert(h.bg_stack[f.bg_stack.len() as int] == g.bg);
    } else {
        assert(h.bg_stack[f.bg_stack.len() as int] == g.bg_stack[f.bg_stack.len() as int]);
    }
}

/// Pushing an attribute keeps a font state extending `f`, unless it is the faint attribute
/// pushed with the faint nesting at its limit
pub proof fn lemma_font_extends_push_attr(f: FontState, g: FontState, a: FontAttrib)
    requires
        font_extends(f, g),
        g.attr_stack.len() < f.attr_stack.len() + 127,
        a == FontAttrib::Faint ==> 0 <= g.faint < i8::MAX,
    ensures
        font_extends(f, pushed_attr(g, a)),
{
    let h = pushed_attr(g, a);
    let n = f.attr_stack.len() as int;
    assert(h.attr_stack.take(n) =~= f.attr_stack);
    let s = g.attr_stack.skip(n);
    assert(h.attr_stack.skip(n) =~= s.push(a));
    assert(s.push(a).drop_last() =~= s);
}

/// Popping a foreground color pushed after `f` keeps a font state extending `f`
pub proof fn lemma_font_extends_pop_fg(f: FontState, g: FontState)
    requires
        font_extends(f, g),
        g.fg_stack.len() > f.fg_stack.len(),
    ensures
        font_extends(f, popped_fg(g, 1)),
{
    let h = popped_fg(g, 1);
    let n = f.fg_stack.len() as int;
    assert(h.fg_stack =~= g.fg_stack.take(g.fg_stack.len() - 1));
    assert(h.fg_stack.take(n) =~= f.fg_stack);
}

/// Popping a background color pushed after `f` keeps a font state extending `f`
pub proof fn lemma_font_extends_pop_bg(f: FontState, g: FontState)
    requires
        font_extends(f, g),
        g.bg_stack.len() > f.bg_stack.len(),
    ensures
        font_extends(f, popped_bg(g, 1)),
{
    let h = popped_bg(g, 1);
    let n = f.bg_stack.len() as int;
    assert(h.bg_stack =~= g.bg_stack.take(g.bg_stack.len() - 1));
    assert(h.bg_stack.take(n) =~= f.bg_stack);
}

/// Popping an attribute pushed after `f` keeps a font state extending `f`
pub proof fn lemma_font_extends_pop_attr(f: FontState, g: FontState)
    requires
        font_extends(f, g),
        g.attr_stack.len() > f.attr_stack.len(),
    ensures
        font_extends(f, popped_attr(g, 1)),
{
    let h = popped_attr(g, 1);
    let n = f.attr_stack.len() as int;
    let len = g.attr_stack.len() as int;
    assert(h.attr_stack =~= g.attr_stack.take(len - 1));
    assert(h.attr_stack.take(n) =~= f.attr_stack);
    let s = g.attr_stack.skip(n);
    let top = g.attr_stack.skip(len - 1);
    assert(top =~= seq![g.attr_stack[len - 1]]);
    assert(top.drop_last() =~= Seq::<FontAttrib>::empty());
    reveal_with_fuel(faint_after_pops, 2);
    assert(h.faint == faint_after_pops(g.faint, top));
    assert(s.drop_last() =~= h.attr_stack.skip(n));
    assert(s.last() == g.attr_stack[len - 1]);
}

/// Popping the attribute just pushed gives back the font state
pub proof fn lemma_push_pop_attr(f: FontState, a: FontAttrib)
    requires
        a == FontAttrib::Faint ==> 0 <= f.faint < i8::MAX,
    ensures
        popped_attr(pushed_attr(f, a), 1) == f,
{
    let g = pushed_attr(f, a);
    let s = g.attr_stack.skip(g.attr_stack.len() - 1);
    assert(s =~= seq![a]);
    assert(s.drop_last() =~= Seq::<FontAttrib>::empty());
    reveal_with_fuel(faint_after_pops, 2);
    assert(g.attr_stack.take(g.attr_stack.len() - 1) =~= f.attr_stack);
    assert(popped_attr(g, 1) =~= f);
}

/// Popping the foreground color just pushed gives back the stack and the current color, and
/// the text the pop sends is the code of that color (the PAL encodes a theme color)
pub proof fn lemma_pop_fg_after_push(f0: FontState, cl: ColorFg, f2: FontState, s1: Seq<char>, s2: Seq<char>)
    requires
        f2 == popped_fg(pushed_fg(f0, cl), 1),
        !fg_is_theme(f2.fg) ==> s2 == s1 + fg_code(f2.fg)@,
    ensures
        f2 == f0,
        f2.fg_stack == f0.fg_stack && f2.fg == f0.fg,
        !fg_is_theme(f0.fg) ==> s2 == s1 + fg_code(f0.fg)@,
{
    lemma_push_pop_fg(f0, cl);
}

/// Popping the background color just pushed gives back the stack and the current color, and
/// the text the pop sends is the code of that color (the PAL encodes a theme color)
pub proof fn lemma_pop_bg_after_push(f0: FontState, cl: ColorBg, f2: FontState, s1: Seq<char>, s2: Seq<char>)
    requires
        f2 == popped_bg(pushed_bg(f0, cl), 1),
        !bg_is_theme(f2.bg) ==> s2 == s1 + bg_code(f2.bg)@,
    ensures
        f2 == f0,
        f2.bg_stack == f0.bg_stack && f2.bg == f0.bg,
        !bg_is_theme(f0.bg) ==> s2 == s1 + bg_code(f0.bg)@,
{
    lemma_push_pop_bg(f0, cl);
}

/// Popping the attribute just pushed gives back the attribute stack and the faint nesting;
/// the faint attribute is switched on by its push and off by its pop, and bold pushed
/// while faint is on sends nothing either way (faint wins over bold)
pub proof fn lemma_pop_attr_after_push(f0: FontState, a: FontAttrib, s0: Seq<char>, s1: Seq<char>, s2: Seq<char>)
    requires
        0 <= f0.faint < i8::MAX,
        s1 == s0 + attr_on_text(a, f0.faint),
        s2 == s1 + pops_text(
            pushed_attr(f0, a).faint,
            pushed_attr(f0, a).attr_stack.skip(pushed_attr(f0, a).attr_stack.len() - pop_count(1, pushed_attr(f0, a).attr_stack.len())),
        ),
    ensures
        popped_attr(pushed_attr(f0, a), 1) == f0,
        s2 == s1 + attr_off_text(a, faint_after_push(f0.faint, a)),
        a == FontAttrib::Faint ==> s1 == s0 + esc::FAINT@ && s2 == s1 + esc::NORMAL@,
        a == FontAttrib::Bold && f0.faint > 0 ==> s1 == s0 && s2 == s1,
{
    lemma_push_pop_attr(f0, a);
    let g = pushed_attr(f0, a);
    let top = g.attr_stack.skip(g.attr_stack.len() - 1);
    assert(top =~= seq![a]);
    assert(top.drop_last() =~= Seq::<FontAttrib>::empty());
    reveal_with_fuel(pops_text, 2);
    assert(pops_text(g.faint, top) == attr_off_text(a, g.faint) + Seq::<char>::empty());
    assert(attr_off_text(a, g.faint) + Seq::<char>::empty() =~= attr_off_text(a, g.faint));
    assert(s0 + Seq::<char>::empty() =~= s0);
    assert(s1 + Seq::<char>::empty() =~= s1);
}

/// One push on the font stacks
pub enum FontPush {
    Fg(ColorFg),
    Bg(ColorBg),
    Attr(FontAttrib),
}

/// Font state after one push
pub open spec fn pushed_one(f: FontState, p: FontPush) -> FontState {
    match p {
        FontPush::Fg(cl) => pushed_fg(f, cl),
        FontPush::Bg(cl) => pushed_bg(f, cl),
        FontPush::Attr(a) => pushed_attr(f, a),
    }
}

/// Font state after the pushes `ops`, the first one first
pub open spec fn pushed_all(f: FontState, ops: Seq<FontPush>) -> FontState
    decreases ops.len(),
{
    if ops.len() == 0 {
        f
    } else {
        pushed_one(pushed_all(f, ops.drop_last()), ops.last())
    }
}

/// Number of pushes in `ops` that `p` picks
pub open spec fn push_count(ops: Seq<FontPush>, p: spec_fn(FontPush) -> bool) -> nat
    decreases ops.len(),
{
    if ops.len() == 0 {
        0
    } else {
        push_count(ops.drop_last(), p) + (if p(ops.last()) { 1nat } else { 0nat })
    }
}

/// Number of foreground, background, attribute and faint pushes in `ops`
pub open spec fn push_counts(ops: Seq<FontPush>) -> (nat, nat, nat, nat) {
    (
        push_count(ops, |p: FontPush| p is Fg),
        push_count(ops, |p: FontPush| p is Bg),
        push_count(ops, |p: FontPush| p is Attr),
        push_count(ops, |p: FontPush| p == FontPush::Attr(FontAttrib::Faint)),
    )
}

proof fn lemma_pushed_all_extends(f: FontState, ops: Seq<FontPush>)
    requires
        push_counts(ops).0 <= 127,
        push_counts(ops).1 <= 127,
        push_counts(ops).2 <= 127,
        0 <= f.faint,
        f.faint + push_counts(ops).3 <= 127,
    ensures
        font_extends(f, pushed_all(f, ops)),
        pushed_all(f, ops).fg_stack.len() == f.fg_stack.len() + push_counts(ops).0,
        pushed_all(f, ops).bg_stack.len() == f.bg_stack.len() + push_counts(ops).1,
        pushed_all(f, ops).attr_stack.len() == f.attr_stack.len() + push_counts(ops).2,
        pushed_all(f, ops).faint == f.faint + push_counts(ops).3,
    decreases ops.len(),
{
    if ops.len() == 0 {
        lemma_font_extends_refl(f);
    } else {
        let rest = ops.drop_last();
        lemma_pushed_all_extends(f, rest);
        let g = pushed_all(f, rest);
        match ops.last() {
            FontPush::Fg(cl) => {
                lemma_font_extends_push_fg(f, g, cl);
            },
            FontPush::Bg(cl) => {
                lemma_font_extends_push_bg(f, g, cl);
            },
            FontPush::Attr(a) => {
                lemma_font_extends_push_attr(f, g, a);
            },
        }
    }
}

/// A memento stored from a font state, restored after pushes on its stacks (at most 127 on
/// each, the faint nesting not going past its limit), gives back that font state
pub proof fn lemma_memento_restores_pushes(f: FontState, ops: Seq<FontPush>)
    requires
        push_counts(ops).0 <= 127,
        push_counts(ops).1 <= 127,
        push_counts(ops).2 <= 127,
        0 <= f.faint,
        f.faint + push_counts(ops).3 <= 127,
        f.fg_stack.len() <= usize::MAX,
        f.bg_stack.len() <= usize::MAX,
        f.attr_stack.len() <= usize::MAX,
    ensures
        ({
            let g = pushed_all(f, ops);
            popped_attr(
                popped_bg(
                    popped_fg(g, depth_to_pop(g.fg_stack.len(), f.fg_stack.len() as usize)),
                    depth_to_pop(g.bg_stack.len(), f.bg_stack.len() as usize),
                ),
                depth_to_pop(g.attr_stack.len(), f.attr_stack.len() as usize),
            ) == f
        }),
{
    lemma_pushed_all_extends(f, ops);
    lemma_memento_round_trip(f, pushed_all(f, ops));
}

} // verus!
