//! # RTWins Widget drawing

use vstd::prelude::*;
use crate::colors::ColorBg;
use crate::colors::ColorFg;
use crate::common::Coord;
use crate::common::FontAttrib;
use crate::common::Size;
use crate::common::sat_add_u8;
use crate::common::sat_sub_u8;
use crate::esc;
use crate::pal::Pal;
use crate::string_ext::chars_of;
use crate::string_ext::esc_len_chars_in;
use crate::string_ext::push_chars;
use crate::string_ext::StrExt;
use crate::string_ext::StringExt;
use crate::string_ext::repeat_char;
use crate::string_ext::tail_at;
use crate::string_ext::fit_width;
use crate::string_ext::displayed_width_of;
use crate::colors::fg_rank;
use crate::colors::fg_intensified;
use crate::terminal::attr_on_text;
use crate::terminal::lemma_sent_extends_append;
use crate::esc::cursor_goto_seq;
use crate::colors::fg_code;
use crate::terminal::fg_is_theme;
use crate::terminal::bg_is_theme;
use crate::terminal::move_by_text;
use crate::terminal::repeat_text;
use crate::colors::bg_code;
use crate::string_ext::esc_fmt;
use crate::terminal::lemma_sent_extends_trans;
use crate::terminal::lemma_sent_extends_refl;
use crate::terminal::lemma_sent_extends_split;
use crate::terminal::sent_extends;
use crate::terminal::FontMementoManual;
use crate::terminal::lemma_font_extends_refl;
use crate::terminal::lemma_push_pop_attr;
use crate::terminal::lemma_push_pop_fg;
use crate::terminal::pushed_bg;
use crate::terminal::pushed_fg;
use crate::terminal::popped_bg;
use crate::terminal::popped_fg;
use crate::terminal::FontState;
use crate::terminal::Term;
use crate::widget_def::prop;
use crate::widget_def::rstate::CbbxState;
use crate::widget_def::rstate::LbxState;
use crate::widget_def::rstate::PgbarState;
use crate::widget_def::rstate::TxtbxState;
use crate::widget_def::ButtonStyle;
use crate::widget_def::FrameStyle;
use crate::widget_def::PgBarStyle;
use crate::widget_def::Property;
use crate::widget_def::WId;
use crate::widget_def::WIDGET_ID_ALL;
use crate::widget_def::Widget;
use crate::widget_def::WindowState;
use crate::widget_impl::find_by_id;
use crate::widget_impl::get_parent;
use crate::widget_impl::get_screen_coord;
use crate::widget_impl::children_of;
use crate::widget_impl::children_range;
use crate::widget_impl::is_enabled;
use crate::widget_impl::is_visible;
use crate::widget_impl::parent_of;
use crate::widget_impl::set_cursor_at;
use crate::widget_impl::WidgetState;

verus! {

broadcast use {crate::terminal::lemma_sent_extends_chain, crate::terminal::lemma_sent_extends_same};

// ---------------------------------------------------------------------------------------------- //
// ---- WIDGET COLORS --------------------------------------------------------------------------- //

/// Background color a widget's properties name
pub open spec fn own_bg(p: Property) -> ColorBg {
    match p {
        Property::Window(p) => p.bg_color,
        Property::Panel(p) => p.bg_color,
        Property::Label(p) => p.bg_color,
        Property::TextEdit(p) => p.bg_color,
        Property::Button(p) => p.bg_color,
        Property::ListBox(p) => p.bg_color,
        Property::ComboBox(p) => p.bg_color,
        Property::TextBox(p) => p.bg_color,
        _ => ColorBg::Inherit,
    }
}

/// Foreground color a widget's properties name
pub open spec fn own_fg(p: Property) -> ColorFg {
    match p {
        Property::Window(p) => p.fg_color,
        Property::Panel(p) => p.fg_color,
        Property::Label(p) => p.fg_color,
        Property::TextEdit(p) => p.fg_color,
        Property::CheckBox(p) => p.fg_color,
        Property::Radio(p) => p.fg_color,
        Property::Button(p) => p.fg_color,
        Property::Led(p) => p.fg_color,
        Property::Page(p) => p.fg_color,
        Property::ProgressBar(p) => p.fg_color,
        Property::ListBox(p) => p.fg_color,
        Property::ComboBox(p) => p.fg_color,
        Property::TextBox(p) => p.fg_color,
        _ => ColorFg::Inherit,
    }
}

/// Background color of a widget: its own, or the first one a parent names, `fuel` levels up
pub open spec fn inherited_bg(wgts: Seq<Widget>, w: Widget, fuel: nat) -> ColorBg
    decreases fuel,
{
    if own_bg(w.prop) != ColorBg::Inherit || fuel == 0 {
        own_bg(w.prop)
    } else {
        let p = parent_of(wgts, w);
        if p.id != w.id { inherited_bg(wgts, p, (fuel - 1) as nat) } else { ColorBg::Inherit }
    }
}

/// Foreground color of a widget: its own, or the first one a parent names, `fuel` levels up
pub open spec fn inherited_fg(wgts: Seq<Widget>, w: Widget, fuel: nat) -> ColorFg
    decreases fuel,
{
    if own_fg(w.prop) != ColorFg::Inherit || fuel == 0 {
        own_fg(w.prop)
    } else {
        let p = parent_of(wgts, w);
        if p.id != w.id { inherited_fg(wgts, p, (fuel - 1) as nat) } else { ColorFg::Inherit }
    }
}

fn own_bg_of(p: &Property) -> (c: ColorBg)
    ensures
        c == own_bg(*p),
{
    match p {
        Property::Window(p) => p.bg_color,
        Property::Panel(p) => p.bg_color,
        Property::Label(p) => p.bg_color,
        Property::TextEdit(p) => p.bg_color,
        Property::Button(p) => p.bg_color,
        Property::ListBox(p) => p.bg_color,
        Property::ComboBox(p) => p.bg_color,
        Property::TextBox(p) => p.bg_color,
        _ => ColorBg::Inherit,
    }
}

fn own_fg_of(p: &Property) -> (c: ColorFg)
    ensures
        c == own_fg(*p),
{
    match p {
        Property::Window(p) => p.fg_color,
        Property::Panel(p) => p.fg_color,
        Property::Label(p) => p.fg_color,
        Property::TextEdit(p) => p.fg_color,
        Property::CheckBox(p) => p.fg_color,
        Property::Radio(p) => p.fg_color,
        Property::Button(p) => p.fg_color,
        Property::Led(p) => p.fg_color,
        Property::Page(p) => p.fg_color,
        Property::ProgressBar(p) => p.fg_color,
        Property::ListBox(p) => p.fg_color,
        Property::ComboBox(p) => p.fg_color,
        Property::TextBox(p) => p.fg_color,
        _ => ColorFg::Inherit,
    }
}

/// Background color of a widget, inherited from its parents when it names none
pub fn get_widget_bg_color(wgts: &[Widget], wgt: &Widget) -> (c: ColorBg)
    ensures
        c == inherited_bg(wgts@, *wgt, wgts@.len()),
{
    let mut cur = *wgt;
    let mut fuel: usize = wgts.len();
    while fuel > 0 && own_bg_of(&cur.prop) == ColorBg::Inherit
        invariant
            inherited_bg(wgts@, *wgt, wgts@.len()) == inherited_bg(wgts@, cur, fuel as nat),
        decreases fuel,
    {
        let parent = *get_parent(wgts, &cur);
        if parent.id == cur.id {
            return ColorBg::Inherit;
        }
        cur = parent;
        fuel = fuel - 1;
    }
    own_bg_of(&cur.prop)
}

/// Foreground color of a widget, inherited from its parents when it names none
pub fn get_widget_fg_color(wgts: &[Widget], wgt: &Widget) -> (c: ColorFg)
    ensures
        c == inherited_fg(wgts@, *wgt, wgts@.len()),
{
    let mut cur = *wgt;
    let mut fuel: usize = wgts.len();
    while fuel > 0 && own_fg_of(&cur.prop) == ColorFg::Inherit
        invariant
            inherited_fg(wgts@, *wgt, wgts@.len()) == inherited_fg(wgts@, cur, fuel as nat),
        decreases fuel,
    {
        let parent = *get_parent(wgts, &cur);
        if parent.id == cur.id {
            return ColorFg::Inherit;
        }
        cur = parent;
        fuel = fuel - 1;
    }
    own_fg_of(&cur.prop)
}

// ---------------------------------------------------------------------------------------------- //
// ---- DRAWING PRIMITIVES ---------------------------------------------------------------------- //

/// Frame characters of a style: corners, edges and the inside, row by row
/// The nine characters of a frame: the corners, edges and inside of its top, middle and bottom lines
pub open spec fn frame_chars(style: FrameStyle) -> Seq<char> {
    match style {
        FrameStyle::Single => seq!['┌', '─', '┐', '│', ' ', '│', '└', '─', '┘'],
        FrameStyle::Double => seq!['╔', '═', '╗', '║', ' ', '║', '╚', '═', '╝'],
        FrameStyle::PgControl => seq!['├', '─', '┐', '│', ' ', '│', '├', '─', '┘'],
        FrameStyle::ListBox => seq!['┌', '─', '┐', '│', ' ', '▒', '└', '─', '┘'],
        FrameStyle::NoFrame => seq![' ', ' ', ' ', ' ', ' ', ' ', ' ', ' ', ' '],
    }
}

fn frame_of(style: FrameStyle) -> (f: [char; 9])
    ensures
        f@ == frame_chars(style),
{
    let f = match style {
        FrameStyle::Single => ['┌', '─', '┐', '│', ' ', '│', '└', '─', '┘'],
        FrameStyle::Double => ['╔', '═', '╗', '║', ' ', '║', '╚', '═', '╝'],
        FrameStyle::PgControl => ['├', '─', '┐', '│', ' ', '│', '├', '─', '┘'],
        FrameStyle::ListBox => ['┌', '─', '┐', '│', ' ', '▒', '└', '─', '┘'],
        FrameStyle::NoFrame => [' ', ' ', ' ', ' ', ' ', ' ', ' ', ' ', ' '],
    };
    assert(f@ =~= frame_chars(style));
    f
}

/// Appends the inner part of a frame line: `len - 2` copies of `c`
fn draw_line(strbuff: &mut String, c: char, len: u8)
    ensures
        final(strbuff)@ == old(strbuff)@ + crate::string_ext::repeat_char(c, len - 2),
{
    strbuff.push_n(c, len as i16 - 2);
}

/// Font state after drawing an area: its background and foreground colors pushed,
/// each unless it is `Inherit`
pub open spec fn area_font(f: FontState, cl_bg: ColorBg, cl_fg: ColorFg) -> FontState {
    let f1 = if cl_bg != ColorBg::Inherit { pushed_bg(f, cl_bg) } else { f };
    if cl_fg != ColorFg::Inherit { pushed_fg(f1, cl_fg) } else { f1 }
}

/// A frame line `w` columns wide: `l`, `w - 2` copies of `c`, then `r`
pub open spec fn frame_line(l: char, c: char, r: char, w: u8) -> Seq<char> {
    seq![l] + repeat_char(c, w - 2) + seq![r]
}

/// A middle line of an area `w` columns wide: its edges with the inside filled or skipped, and the
/// trailing shadow, which sets the foreground color back to `fg_txt`
pub open spec fn area_middle(f: Seq<char>, w: u8, filled: bool, shadow: bool, fg_txt: Seq<char>) -> Seq<char> {
    seq![f[3]] + (if filled { repeat_char(f[4], w - 2) } else { esc_fmt(esc::CURSOR_FORWARD_FMT@, w - 2) })
        + seq![f[5]] + (if shadow { esc::FG_BLACK@ + seq!['█'] + fg_txt } else { Seq::empty() })
}

/// The bottom line of an area `w` columns wide, with its shadow and the shadow's line below
pub open spec fn area_bottom(f: Seq<char>, w: u8, shadow: bool, fg_txt: Seq<char>) -> Seq<char> {
    frame_line(f[6], f[7], f[8], w) + (if shadow {
        esc::FG_BLACK@ + seq!['█'] + move_by_text((0 - w) as i16, 1) + repeat_char('█', w.wrapping_add(2) - 2) + fg_txt
    } else {
        Seq::empty()
    })
}

/// Text of an area of frame `style`, `w` columns wide with `mid_rows` middle lines, drawn from
/// its top left corner; `fg_txt` is the code of its foreground color
pub open spec fn area_text(style: FrameStyle, w: u8, mid_rows: int, filled: bool, shadow: bool, fg_txt: Seq<char>) -> Seq<char> {
    let f = frame_chars(style);
    let back_mid = (0 - (w + if shadow { 1int } else { 0int })) as i16;
    frame_line(f[0], f[1], f[2], w) + move_by_text((0 - w) as i16, 1)
        + repeat_text(area_middle(f, w, filled, shadow, fg_txt) + move_by_text(back_mid, 1), mid_rows)
        + area_bottom(f, w, shadow, fg_txt)
}

/// Middle lines of an area at row `row`, `h` rows high
pub open spec fn area_mid_rows(row: u8, h: u8) -> int {
    let end = ((row + h) as u16).wrapping_sub(1);
    if end > row + 1 { end - row - 1 } else { 0 }
}

/// Builds a frame line
fn frame_line_of(l: char, c: char, r: char, w: u8) -> (s: String)
    ensures
        s@ == frame_line(l, c, r, w),
{
    let mut strbuff = String::new();
    strbuff.push(l);
    draw_line(&mut strbuff, c, w);
    strbuff.push(r);
    assert(strbuff@ =~= frame_line(l, c, r, w));
    strbuff
}

/// Builds a middle line of an area
fn area_middle_of(f: &[char; 9], w: u8, filled: bool, shadow: bool, cl_fg: ColorFg) -> (s: String)
    ensures
        s@ == area_middle(f@, w, filled, shadow, fg_code(cl_fg)@),
{
    let mut strbuff = String::new();
    strbuff.push(f[3]);
    if filled {
        draw_line(&mut strbuff, f[4], w);
    } else {
        strbuff.push_esc_fmt(esc::CURSOR_FORWARD_FMT, w as i16 - 2);
    }
    strbuff.push(f[5]);
    if shadow {
        // trailing shadow
        strbuff.push_str(esc::FG_BLACK);
        strbuff.push('█');
        strbuff.push_str(cl_fg.encode());
    }
    assert(strbuff@ =~= area_middle(f@, w, filled, shadow, fg_code(cl_fg)@));
    strbuff
}

/// Draws the bottom line of an area, with its shadow
fn draw_area_bottom<P: Pal>(term: &mut Term<P>, f: &[char; 9], w: u8, shadow: bool, cl_fg: ColorFg)
    ensures
        sent_extends(old(term).sent@, final(term).sent@),
        final(term).logs_row == old(term).logs_row,
        final(term).font() == old(term).font(),
        final(term).sent@ == old(term).sent@ + area_bottom(f@, w, shadow, fg_code(cl_fg)@),
{
    let mut strbuff = frame_line_of(f[6], f[7], f[8], w);
    if shadow {
        // trailing shadow
        strbuff.push_str(esc::FG_BLACK);
        strbuff.push('█');
    }
    term.write_str(strbuff.as_str());
    term.flush_buff();
    if shadow {
        term.move_by(0i16 - w as i16, 1);
        let mut sh = String::new();
        // trailing shadow
        draw_line(&mut sh, '█', w.wrapping_add(2));
        term.write_str(sh.as_str());
        term.write_str(cl_fg.encode());
        term.flush_buff();
    }
    assert(term.sent@ =~= old(term).sent@ + area_bottom(f@, w, shadow, fg_code(cl_fg)@));
}

/// The text of an area drawn at `coord`: the move there, the codes `bg_txt` and `fg_txt` of its
/// colors, then its frame and inside
pub open spec fn area_drawn(
    coord: Coord,
    size: Size,
    style: FrameStyle,
    filled: bool,
    shadow: bool,
    cl_fg: ColorFg,
    bg_txt: Seq<char>,
    fg_txt: Seq<char>,
) -> Seq<char> {
    drawn_with(
        cursor_goto_seq(coord.row as nat, coord.col as nat),
        bg_txt,
        fg_txt,
        area_text(style, size.width, area_mid_rows(coord.row, size.height), filled, shadow, fg_code(cl_fg)@),
    )
}

/// The codes an area sends for its colors: none for an inherited color, the color's own code for
/// one that is not a theme color
pub open spec fn area_codes(cl_bg: ColorBg, cl_fg: ColorFg, bg_txt: Seq<char>, fg_txt: Seq<char>) -> bool {
    &&& cl_bg == ColorBg::Inherit ==> bg_txt == Seq::<char>::empty()
    &&& cl_bg != ColorBg::Inherit && !bg_is_theme(cl_bg) ==> bg_txt == bg_code(cl_bg)@
    &&& cl_fg == ColorFg::Inherit ==> fg_txt == Seq::<char>::empty()
    &&& cl_fg != ColorFg::Inherit && !fg_is_theme(cl_fg) ==> fg_txt == fg_code(cl_fg)@
}

/// The frame of a panel
pub open spec fn panel_frame(no_frame: bool) -> FrameStyle {
    if no_frame { FrameStyle::NoFrame } else { FrameStyle::Single }
}

/// How the text sent while drawing an area adds up
proof fn lemma_area_sent(
    s0: Seq<char>,
    s1: Seq<char>,
    s2: Seq<char>,
    s3: Seq<char>,
    s4: Seq<char>,
    s5: Seq<char>,
    s6: Seq<char>,
    coord: Coord,
    size: Size,
    style: FrameStyle,
    filled: bool,
    shadow: bool,
    cl_fg: ColorFg,
    unit: Seq<char>,
)
    requires
        s1 == s0 + cursor_goto_seq(coord.row as nat, coord.col as nat),
        s2 == s1 + s2.skip(s1.len() as int),
        s3 == s2 + s3.skip(s2.len() as int),
        s4 == s3 + frame_line(frame_chars(style)[0], frame_chars(style)[1], frame_chars(style)[2], size.width)
            + move_by_text((0 - size.width) as i16, 1),
        unit == area_middle(frame_chars(style), size.width, filled, shadow, fg_code(cl_fg)@)
            + move_by_text((0 - (size.width + if shadow { 1int } else { 0int })) as i16, 1),
        s5 == s4 + repeat_text(unit, area_mid_rows(coord.row, size.height)),
        s6 == s5 + area_bottom(frame_chars(style), size.width, shadow, fg_code(cl_fg)@),
    ensures
        s6 == s0 + drawn_with(
            cursor_goto_seq(coord.row as nat, coord.col as nat),
            s2.skip(s1.len() as int),
            s3.skip(s2.len() as int),
            area_text(style, size.width, area_mid_rows(coord.row, size.height), filled, shadow, fg_code(cl_fg)@),
        ),
{
    let body = area_text(style, size.width, area_mid_rows(coord.row, size.height), filled, shadow, fg_code(cl_fg)@);
    assert(s6 =~= s3 + body);
    assert(s6 =~= s0 + drawn_with(cursor_goto_seq(coord.row as nat, coord.col as nat), s2.skip(s1.len() as int), s3.skip(s2.len() as int), body));
}

/// Draws a rectangular area with a frame; the colors it sets are not restored
#[verifier::rlimit(40)]
fn draw_area<P: Pal>(
    term: &mut Term<P>,
    coord: Coord,
    size: Size,
    cl_bg: ColorBg,
    cl_fg: ColorFg,
    style: FrameStyle,
    filled: bool,
    shadow: bool,
)
    ensures
        sent_extends(old(term).sent@, final(term).sent@),
        final(term).logs_row == old(term).logs_row,
        final(term).font() == area_font(old(term).font(), cl_bg, cl_fg),
        exists|bg_txt: Seq<char>, fg_txt: Seq<char>|
            area_codes(cl_bg, cl_fg, bg_txt, fg_txt)
                && final(term).sent@ == old(term).sent@ + #[trigger] area_drawn(coord, size, style, filled, shadow, cl_fg, bg_txt, fg_txt),
{
    term.move_to(coord.col as u16, coord.row as u16);
    let ghost s1 = term.sent@;
    let frame = frame_of(style);
    // background and frame color
    if cl_bg != ColorBg::Inherit {
        term.push_cl_bg(cl_bg);
    }
    proof {
        lemma_sent_extends_refl(term.sent@);
        lemma_sent_extends_split(s1, term.sent@);
    }
    let ghost s2 = term.sent@;
    if cl_fg != ColorFg::Inherit {
        term.push_cl_fg(cl_fg);
    }
    proof {
        lemma_sent_extends_refl(term.sent@);
        lemma_sent_extends_split(s2, term.sent@);
    }
    let ghost s3 = term.sent@;
    // top line
    let top = frame_line_of(frame[0], frame[1], frame[2], size.width);
    term.write_str(top.as_str());
    term.move_by(0i16 - size.width as i16, 1);
    term.flush_buff();
    let ghost s4 = term.sent@;
    // lines in the middle
    let mid = area_middle_of(&frame, size.width, filled, shadow, cl_fg);
    let back_mid: i16 = 0i16 - (size.width as i16 + if shadow { 1i16 } else { 0i16 });
    assert(back_mid == (0 - (size.width + if shadow { 1int } else { 0int })) as i16);
    let ghost unit = mid@ + move_by_text(back_mid, 1);
    let row_end: u16 = (coord.row as u16 + size.height as u16).wrapping_sub(1);
    let mut r: u16 = coord.row as u16 + 1;
    let ghost fl = term.font();
    assert(term.sent@ =~= s4 + repeat_text(unit, 0));
    while r < row_end
        invariant
            sent_extends(old(term).sent@, term.sent@),
            term.logs_row == old(term).logs_row,
            term.font() == fl,
            coord.row + 1 <= r,
            r <= row_end || r == coord.row + 1,
            unit == mid@ + move_by_text(back_mid, 1),
            term.sent@ == s4 + repeat_text(unit, r - coord.row - 1),
        decreases row_end - r,
    {
        term.write_str(mid.as_str());
        term.move_by(back_mid, 1);
        term.flush_buff();
        assert(term.sent@ =~= s4 + repeat_text(unit, r - coord.row));
        r = r + 1;
    }
    assert(r - coord.row - 1 == area_mid_rows(coord.row, size.height));
    let ghost s5 = term.sent@;
    // bottom line
    draw_area_bottom(term, &frame, size.width, shadow, cl_fg);
    proof {
        lemma_area_sent(old(term).sent@, s1, s2, s3, s4, s5, term.sent@, coord, size, style, filled, shadow, cl_fg, unit);
        let bg_txt = s2.skip(s1.len() as int);
        let fg_txt = s3.skip(s2.len() as int);
        if cl_bg == ColorBg::Inherit {
            assert(bg_txt =~= Seq::<char>::empty());
        } else if !bg_is_theme(cl_bg) {
            assert(bg_txt =~= bg_code(cl_bg)@);
        }
        if cl_fg == ColorFg::Inherit {
            assert(fg_txt =~= Seq::<char>::empty());
        } else if !fg_is_theme(cl_fg) {
            assert(fg_txt =~= fg_code(cl_fg)@);
        }
        assert(area_codes(cl_bg, cl_fg, bg_txt, fg_txt));
        assert(term.sent@ == old(term).sent@ + area_drawn(coord, size, style, filled, shadow, cl_fg, bg_txt, fg_txt));
    }
    // here the Fg and Bg colors are not restored
}

/// Draws a vertical scroll bar; nothing when the position is past its maximum
fn draw_list_scroll_bar_v<P: Pal>(term: &mut Term<P>, coord: Coord, height: i16, pos_max: i16, pos: i16)
    ensures
        sent_extends(old(term).sent@, final(term).sent@),
        final(term).font() == old(term).font(),
        final(term).logs_row == old(term).logs_row,
        pos > pos_max ==> final(term).sent@ == old(term).sent@,
        pos <= pos_max ==> final(term).sent@ == old(term).sent@
            + scroll_bar_text(coord.col, coord.row, scroll_slider(height as int, pos_max as int, pos as int), height as int),
{
    if pos > pos_max {
        return;
    }
    assert(-40000 * 40000 <= (height as i64 - 1) * pos as i64 <= 40000 * 40000) by (nonlinear_arith)
        requires
            -32769 <= height as i64 - 1 <= 32767,
            -32768 <= pos <= 32767,
    ;
    let prod: i64 = (height as i64 - 1) * pos as i64;
    // a division rounded toward zero, by a divisor made positive
    let slider_at: i64 = if pos_max > 0 {
        prod / pos_max as i64
    } else if pos_max < 0 {
        0 - prod / (0 - pos_max as i64)
    } else {
        0
    };
    assert(prod == (height - 1) * pos) by (nonlinear_arith)
        requires
            prod == (height as i64 - 1) * pos as i64,
    ;
    if pos_max > 0 {
        assert(slider_at == trunc_div(prod as int, pos_max as int));
    } else if pos_max < 0 {
        assert(slider_at == -trunc_div(prod as int, -pos_max));
    }
    assert(slider_at == scroll_slider(height as int, pos_max as int, pos as int));
    let mut i: i16 = 0;
    while i < height
        invariant
            sent_extends(old(term).sent@, term.sent@),
            term.font() == old(term).font(),
            term.logs_row == old(term).logs_row,
            0 <= i,
            i <= height || i == 0,
            slider_at == scroll_slider(height as int, pos_max as int, pos as int),
            term.sent@ == old(term).sent@ + scroll_bar_text(coord.col, coord.row, slider_at as int, i as int),
        decreases height - i,
    {
        term.move_to(coord.col as u16, (coord.row as u16).wrapping_add(i as u16));
        term.write_char(if i as i64 == slider_at { '◘' } else { '▒' });
        assert(term.sent@ =~= old(term).sent@ + scroll_bar_text(coord.col, coord.row, slider_at as int, i + 1));
        i = i + 1;
    }
    assert(scroll_bar_text(coord.col, coord.row, slider_at as int, i as int)
        == scroll_bar_text(coord.col, coord.row, slider_at as int, height as int));
}

/// Row of a scroll bar `height` rows high at which the slider stands for position `pos` of `pos_max`
pub open spec fn scroll_slider(height: int, pos_max: int, pos: int) -> int {
    if pos_max > 0 {
        trunc_div((height - 1) * pos, pos_max)
    } else if pos_max < 0 {
        -trunc_div((height - 1) * pos, -pos_max)
    } else {
        0
    }
}

/// The first `n` rows of a vertical scroll bar at `col`:`row` with the slider at row `slider`
pub open spec fn scroll_bar_text(col: u8, row: u8, slider: int, n: int) -> Seq<char>
    decreases n,
{
    if n <= 0 {
        Seq::empty()
    } else {
        scroll_bar_text(col, row, slider, n - 1)
            + cursor_goto_seq((row as u16).wrapping_add((n - 1) as u16) as nat, col as nat)
            + seq![if n - 1 == slider { '◘' } else { '▒' }]
    }
}

/// First item of the page of `per_page` items that holds item `sel`
fn page_top(sel: i16, per_page: i16) -> (r: i16)
    requires
        per_page > 0,
    ensures
        r == trunc_div(sel as int, per_page as int) * per_page,
{
    let q: i32 = sel as i32 / per_page as i32;
    assert(-2147483648 * 32767 <= q * per_page <= 2147483647 * 32767) by (nonlinear_arith)
        requires
            i32::MIN <= q <= i32::MAX,
            0 < per_page <= 32767,
    ;
    let prod: i64 = q as i64 * per_page as i64;
    assert(q == trunc_div(sel as int, per_page as int));
    if sel >= 0 {
        assert(0 <= q * per_page <= sel) by (nonlinear_arith)
            requires
                sel >= 0,
                per_page > 0,
                q == sel / per_page,
        ;
    } else {
        assert(sel <= q * per_page <= 0) by (nonlinear_arith)
            requires
                sel < 0,
                per_page > 0,
                q == -((-sel as int) / (per_page as int)),
        ;
    }
    prod as i16
}

/// The scroll bar a list shows when it has more items than rows
spec fn list_scroll_bar(dlp: DrawListParams) -> Seq<char> {
    if dlp.items_cnt > dlp.items_visible && dlp.sel_idx <= dlp.items_cnt - 1 {
        scroll_bar_text(
            sat_add_u8(dlp.coord.col, dlp.wgt_width.wrapping_sub(1)),
            sat_add_u8(dlp.coord.row, dlp.frame_size),
            scroll_slider(dlp.items_visible as int, dlp.items_cnt - 1, dlp.sel_idx as int),
            dlp.items_visible as int,
        )
    } else {
        Seq::empty()
    }
}

/// The first `n` rows of a list: each the move to the row, then what is drawn there, `rows[k]`
spec fn list_rows(dlp: DrawListParams, rows: Seq<Seq<char>>, n: int) -> Seq<char>
    decreases n,
{
    if n <= 0 {
        Seq::empty()
    } else {
        list_rows(dlp, rows, n - 1) + cursor_goto_seq(
            (dlp.coord.row as u16).wrapping_add((n - 1) as u16).wrapping_add(dlp.frame_size as u16) as nat,
            (dlp.coord.col + dlp.frame_size) as nat,
        ) + rows[n - 1]
    }
}

/// Text of a list: its scroll bar, then its rows
spec fn list_text(sb: Seq<char>, dlp: DrawListParams, rows: Seq<Seq<char>>) -> Seq<char> {
    sb + list_rows(dlp, rows, rows.len() as int)
}

/// Rows past the first `n` do not change the first `n` rows' text
proof fn lemma_list_rows_prefix(dlp: DrawListParams, a: Seq<Seq<char>>, b: Seq<Seq<char>>, n: int)
    requires
        0 <= n <= a.len(),
        n <= b.len(),
        forall|k: int| 0 <= k < n ==> a[k] == b[k],
    ensures
        list_rows(dlp, a, n) == list_rows(dlp, b, n),
    decreases n,
{
    if n > 0 {
        lemma_list_rows_prefix(dlp, a, b, n - 1);
    }
}

/// Parameters of a list drawing
struct DrawListParams {
    coord: Coord,
    item_idx: i16,
    sel_idx: i16,
    items_cnt: i16,
    items_visible: i16,
    top_item: i16,
    focused: bool,
    wgt_width: u8,
    frame_size: u8,
}

/// Draws the visible items of a list box or of a combo box drop-down list
fn draw_list<P: Pal, W: WindowState>(term: &mut Term<P>, ws: &mut W, wgt: &Widget, dlp: &DrawListParams, combo: bool)
    ensures
        sent_extends(old(term).sent@, final(term).sent@),
        final(term).logs_row == old(term).logs_row,
        final(term).font() == old(term).font(),
        exists|rows: Seq<Seq<char>>| {
            &&& rows.len() == (if dlp.items_visible > 0 { dlp.items_visible as int } else { 0 })
            &&& final(term).sent@ == old(term).sent@ + #[trigger] list_text(list_scroll_bar(*dlp), *dlp, rows)
        },
{
    if dlp.items_cnt > dlp.items_visible {
        draw_list_scroll_bar_v(
            term,
            dlp.coord + Coord::new(dlp.wgt_width.wrapping_sub(1), dlp.frame_size),
            dlp.items_visible,
            dlp.items_cnt - 1,
            dlp.sel_idx,
        );
    }
    term.flush_buff();
    assert(term.sent@ =~= old(term).sent@ + list_scroll_bar(*dlp));
    let ghost mut rows: Seq<Seq<char>> = Seq::empty();
    let mut i: i16 = 0;
    while i < dlp.items_visible
        invariant
            sent_extends(old(term).sent@, term.sent@),
            0 <= i,
            i <= dlp.items_visible || i == 0,
            rows.len() == i,
            term.sent@ == old(term).sent@ + list_text(list_scroll_bar(*dlp), *dlp, rows),
            term.logs_row == old(term).logs_row,
            term.font() == old(term).font(),
        decreases dlp.items_visible - i,
    {
        let idx: i32 = dlp.top_item as i32 + i as i32;
        let is_current_item = if dlp.items_cnt > 0 { idx == dlp.item_idx as i32 } else { false };
        let is_sel_item = idx == dlp.sel_idx as i32;
        term.move_to(
            dlp.coord.col as u16 + dlp.frame_size as u16,
            (dlp.coord.row as u16).wrapping_add(i as u16).wrapping_add(dlp.frame_size as u16),
        );
        let ghost after_goto = term.sent@;
        let mut strbuff = String::new();
        let w: i16 = dlp.wgt_width as i16 - 1 - dlp.frame_size as i16;
        if idx < dlp.items_cnt as i32 {
            strbuff.push(if is_current_item { '►' } else { ' ' });
            if combo {
                ws.get_combo_box_item(wgt, idx as i16, &mut strbuff);
            } else {
                ws.get_list_box_item(wgt, idx as i16, &mut strbuff);
            }
            strbuff.set_displayed_width(w);
        } else {
            // empty string - to erase old content
            strbuff.set_displayed_width(w);
        }
        let ghost f0 = term.font();
        if dlp.focused && is_sel_item {
            term.push_attr(FontAttrib::Inverse);
        }
        let ghost f1 = term.font();
        if is_current_item {
            term.push_attr(FontAttrib::Underline);
        }
        term.write_str(strbuff.as_str());
        if is_current_item {
            term.pop_attr();
            proof {
                lemma_push_pop_attr(f1, FontAttrib::Underline);
            }
        }
        if dlp.focused && is_sel_item {
            term.pop_attr();
            proof {
                lemma_push_pop_attr(f0, FontAttrib::Inverse);
            }
        }
        proof {
            lemma_sent_extends_split(after_goto, term.sent@);
            let chunk = term.sent@.skip(after_goto.len() as int);
            let rows2 = rows.push(chunk);
            assert(rows2.take(i as int) =~= rows);
            assert(list_rows(*dlp, rows2, i as int) == list_rows(*dlp, rows, i as int)) by {
                lemma_list_rows_prefix(*dlp, rows, rows2, i as int);
            }
            assert(term.sent@ =~= old(term).sent@ + list_text(list_scroll_bar(*dlp), *dlp, rows2));
            rows = rows2;
        }
        i = i + 1;
    }
}

/// Position of the first `\n` in `cs` at or after `i`, or the length of `cs`
pub open spec fn next_newline(cs: Seq<char>, i: int) -> int
    decreases cs.len() - i,
{
    if i < 0 || i >= cs.len() {
        cs.len() as int
    } else if cs[i] == '\n' {
        i
    } else {
        next_newline(cs, i + 1)
    }
}

/// Lines of the text from `start` on, as `str::lines` gives them: split at `\n`, a `\r`
/// right before the `\n` dropped, the last line ending optional
pub open spec fn lines_from(cs: Seq<char>, start: int) -> Seq<Seq<char>>
    decreases cs.len() - start,
{
    if start < 0 || start >= cs.len() {
        Seq::empty()
    } else {
        let p = next_newline(cs, start);
        if p >= cs.len() || p < start {
            seq![cs.subrange(start, cs.len() as int)]
        } else {
            let end = if p > start && cs[p - 1] == '\r' { p - 1 } else { p };
            seq![cs.subrange(start, end)] + lines_from(cs, p + 1)
        }
    }
}

/// Lines of a text, as `str::lines` gives them
pub fn text_lines(s: &str) -> (lines: Vec<String>)
    ensures
        lines@.map_values(|l: String| l@) == lines_from(s@, 0),
{
    let cs = chars_of(s);
    let n = cs.len();
    let mut lines: Vec<String> = Vec::new();
    let mut start: usize = 0;
    let mut i: usize = 0;
    while i < n
        invariant
            n == cs@.len(),
            cs@ == s@,
            start <= i <= n,
            next_newline(cs@, start as int) == next_newline(cs@, i as int),
            lines@.map_values(|l: String| l@) + lines_from(cs@, start as int) == lines_from(cs@, 0),
        decreases n - i,
    {
        if cs[i] == '\n' {
            let ghost old_lines = lines@.map_values(|l: String| l@);
            let end = if i > start && cs[i - 1] == '\r' { i - 1 } else { i };
            let mut line = String::new();
            push_chars(&mut line, &cs, start, end);
            lines.push(line);
            assert(lines@.map_values(|l: String| l@) =~= old_lines.push(cs@.subrange(start as int, end as int)));
            assert(lines_from(cs@, start as int) == seq![cs@.subrange(start as int, end as int)] + lines_from(cs@, i + 1));
            assert(old_lines.push(cs@.subrange(start as int, end as int)) + lines_from(cs@, i + 1)
                =~= old_lines + (seq![cs@.subrange(start as int, end as int)] + lines_from(cs@, i + 1)));
            start = i + 1;
        }
        i = i + 1;
    }
    if start < n {
        let ghost old_lines = lines@.map_values(|l: String| l@);
        let mut line = String::new();
        push_chars(&mut line, &cs, start, n);
        lines.push(line);
        assert(lines@.map_values(|l: String| l@) =~= old_lines + seq![cs@.subrange(start as int, n as int)]);
    } else {
        assert(lines@.map_values(|l: String| l@) =~= lines@.map_values(|l: String| l@) + Seq::<Seq<char>>::empty());
    }
    lines
}

// ---------------------------------------------------------------------------------------------- //
// ---- WIDGET DRAWING -------------------------------------------------------------------------- //

/// Position of a widget on screen: its parent's position plus its own
fn abs_pos(parent_coord: Coord, wgt: &Widget) -> (r: (u16, u16))
    ensures
        r.0 == parent_coord.col + wgt.coord.col,
        r.1 == parent_coord.row + wgt.coord.row,
{
    (
        parent_coord.col as u16 + wgt.coord.col as u16,
        parent_coord.row as u16 + wgt.coord.row as u16,
    )
}

/// Widgets whose drawing leaves the font as it was: all but custom widgets (the application
/// draws them), list boxes too low to show items, and windows that inherit a color
pub open spec fn restores_font(w: Widget) -> bool {
    match w.prop {
        Property::CustomWgt(_) => false,
        Property::ListBox(_) => w.size.height >= 3,
        Property::Window(p) => p.bg_color != ColorBg::Inherit && p.fg_color != ColorFg::Inherit,
        _ => true,
    }
}

/// Every widget of the array restores the font when drawn
pub open spec fn all_restore_font(wgts: Seq<Widget>) -> bool {
    forall|i: int| 0 <= i < wgts.len() ==> restores_font(#[trigger] wgts[i])
}

/// Room for `fuel` more nested faint attributes before the faint nesting reaches its limit
pub open spec fn faint_room(f: FontState, fuel: int) -> bool {
    0 <= f.faint && f.faint + fuel < 127
}

/// Drawing the widgets `wids` took the terminal from `t0` to `t1` and the widget state from
/// `wst0` to `wst1`, `focused` being the window's focused widget: with no widget to draw nothing
/// changes; else the font stacks end empty, the focus mark is the window's, the cursor is shown
/// again and the PAL was told to flush last
pub open spec fn widgets_drawn<P: Pal>(
    t0: Term<P>,
    t1: Term<P>,
    focused: WId,
    wst0: WidgetState,
    wst1: WidgetState,
    wids: Seq<WId>,
) -> bool {
    &&& wids.len() == 0 ==> t1.font() == t0.font() && wst1 == wst0 && t1.sent@ == t0.sent@
    &&& wids.len() > 0 ==> {
        &&& t1.font().fg_stack.len() == 0 && t1.font().bg_stack.len() == 0
        &&& t1.font().attr_stack.len() == 0 && t1.font().faint == 0
        &&& wst1.focused_wgt == focused
        &&& t1.flushed@
        &&& exists|p: Seq<char>, tail: Seq<char>|
            #[trigger] (p + esc::CURSOR_SHOW@ + tail) == t1.sent@ && sent_extends(p + esc::CURSOR_SHOW@, t1.sent@)
    }
}

/// Draw given widgets; flushes the buffer. If `wids` holds only `WIDGET_ID_ALL`, draws
/// the entire window
pub fn draw_widgets<P: Pal, W: WindowState>(term: &mut Term<P>, ws: &mut W, wst: &mut WidgetState, wids: &[WId])
    ensures
        widgets_drawn(*old(term), *final(term), old(ws).focused_spec(), *old(wst), *final(wst), wids@),
        wids@.len() == 0 ==> *final(ws) == *old(ws),
{
    if wids.len() == 0 {
        return;
    }
    let mut fm = FontMementoManual::from_term(term);
    let focused_id = ws.get_focused_id();
    wst.focused_wgt = focused_id;
    term.cursor_hide();
    term.flush_buff();
    let wnd_widgets: &'static [Widget] = ws.get_widgets();
    let fuel = wnd_widgets.len();
    if wids.len() == 1 && wids[0] == WIDGET_ID_ALL {
        // window is at index 0
        if wnd_widgets.len() > 0 {
            draw_widget_internal(term, ws, wst, wnd_widgets, &wnd_widgets[0], Coord::cdeflt(), fuel);
        }
    } else {
        let mut i: usize = 0;
        while i < wids.len()
            decreases wids@.len() - i,
        {
            match find_by_id(wnd_widgets, wids[i]) {
                Some(wgt) => {
                    if is_visible(ws, wgt) {
                        // set parent's background color
                        term.push_cl_bg(get_widget_bg_color(wnd_widgets, wgt));
                        let wgt_parent = get_parent(wnd_widgets, wgt);
                        let parent_coord = get_screen_coord(ws, wgt_parent);
                        draw_widget_internal(term, ws, wst, wnd_widgets, wgt, parent_coord, fuel);
                        // restore background color
                        term.pop_cl_bg();
                    }
                },
                None => {},
            }
            i = i + 1;
        }
    }
    term.reset_attr();
    term.reset_cl_bg();
    term.reset_cl_fg();
    match find_by_id(ws.get_widgets(), focused_id) {
        Some(wgt) => set_cursor_at(term, ws, wst, wgt),
        None => {},
    }
    let ghost p = term.sent@;
    term.cursor_show();
    let ghost s_show = term.sent@;
    fm.restore(term);
    term.flush_buff();
    proof {
        lemma_sent_extends_split(s_show, term.sent@);
        assert(p + esc::CURSOR_SHOW@ + term.sent@.skip(s_show.len() as int) == term.sent@);
    }
}

/// Draws a widget and, for parent-type widgets, its children; `fuel` bounds the nesting
fn draw_widget_internal<P: Pal, W: WindowState>(
    term: &mut Term<P>,
    ws: &mut W,
    wst: &WidgetState,
    wgts: &'static [Widget],
    wgt: &'static Widget,
    parent_coord: Coord,
    fuel: usize,
)
    ensures
        all_restore_font(wgts@) && restores_font(*wgt) ==> sent_extends(old(term).sent@, final(term).sent@),
        all_restore_font(wgts@) && restores_font(*wgt) && faint_room(old(term).font(), fuel as int)
            ==> final(term).font() == old(term).font(),
    decreases fuel, 0nat,
{
    if fuel == 0 {
        return;
    }
    if !is_visible(ws, wgt) {
        return;
    }
    let attr_stack_len_before = term.attr_stack_len();
    let en = is_enabled(ws, wgt);
    let ghost f0 = term.font();
    if !en {
        term.push_attr(FontAttrib::Faint);
    }
    match wgt.prop {
        Property::Window(p) => draw_window(term, ws, wst, wgts, wgt, &p, fuel - 1),
        Property::Panel(p) => draw_panel(term, ws, wst, wgts, wgt, &p, parent_coord, fuel - 1),
        Property::Label(p) => draw_label(term, ws, wgts, wgt, &p, parent_coord),
        Property::TextEdit(p) => draw_text_edit(term, ws, wst, wgts, wgt, &p, parent_coord),
        Property::CheckBox(p) => {
            let checked = ws.get_checkbox_checked(wgt);
            draw_checkbox(term, ws, wgts, wgt, &p, parent_coord, checked)
        },
        Property::Radio(p) => {
            let ridx = ws.get_radio_index(wgt);
            draw_radio(term, ws, wgts, wgt, &p, parent_coord, ridx)
        },
        Property::Button(p) => draw_button(term, ws, wst, wgts, wgt, &p, parent_coord),
        Property::Led(p) => draw_led(term, ws, wgts, wgt, &p, parent_coord),
        Property::PageCtrl(p) => draw_page_control(term, ws, wst, wgts, wgt, &p, parent_coord, fuel - 1),
        Property::Page(p) => draw_page(term, ws, wst, wgts, wgt, &p, parent_coord, true, fuel - 1),
        Property::ProgressBar(p) => draw_progress_bar(term, ws, wgts, wgt, &p, parent_coord),
        Property::ListBox(p) => draw_list_box(term, ws, wgt, &p, parent_coord),
        Property::ComboBox(p) => draw_combo_box(term, ws, wgts, wgt, &p, parent_coord),
        Property::CustomWgt(_) => draw_custom_wgt(term, ws, wgt),
        Property::TextBox(p) => draw_text_box(term, ws, wgt, &p, parent_coord),
        Property::Layer(_) => draw_layer(term, ws, wst, wgts, wgt, parent_coord, fuel - 1),
        Property::NoWgt => {},
    }
    if !en {
        term.pop_attr();
        proof {
            if all_restore_font(wgts@) && restores_font(*wgt) && faint_room(f0, fuel as int) {
                lemma_push_pop_attr(f0, FontAttrib::Faint);
            }
        }
    }
    // check if widget drawing procedure cleaned-up environment
    if term.attr_stack_len() != attr_stack_len_before {
        term.reset_attr();
    }
    term.flush_buff();
}

/// Draws the children of a parent widget placed at `coord`
fn draw_children<P: Pal, W: WindowState>(
    term: &mut Term<P>,
    ws: &mut W,
    wst: &WidgetState,
    wgts: &'static [Widget],
    parent: &'static Widget,
    coord: Coord,
    fuel: usize,
)
    ensures
        all_restore_font(wgts@) ==> sent_extends(old(term).sent@, final(term).sent@),
        all_restore_font(wgts@) && faint_room(old(term).font(), fuel as int)
            ==> final(term).font() == old(term).font(),
    decreases fuel, 1nat,
{
    let children: &'static [Widget] = children_of(wgts, parent);
    let mut i: usize = 0;
    while i < children.len()
        invariant
            all_restore_font(wgts@) ==> sent_extends(old(term).sent@, term.sent@),
            children@ == wgts@.subrange(children_range(wgts@, *parent).0, children_range(wgts@, *parent).1),
            0 <= children_range(wgts@, *parent).0 <= children_range(wgts@, *parent).1 <= wgts@.len(),
            all_restore_font(wgts@) && faint_room(old(term).font(), fuel as int) ==> term.font() == old(term).font(),
        decreases children@.len() - i,
    {
        proof {
            if all_restore_font(wgts@) {
                assert(children@[i as int] == wgts@[children_range(wgts@, *parent).0 + i]);
            }
        }
        draw_widget_internal(term, ws, wst, wgts, &children[i], coord, fuel);
        i = i + 1;
    }
}

fn draw_window<P: Pal, W: WindowState>(term: &mut Term<P>, ws: &mut W, wst: &WidgetState, wgts: &'static [Widget], wgt: &'static Widget, prp: &prop::Window, fuel: usize)
    ensures
        all_restore_font(wgts@) ==> sent_extends(old(term).sent@, final(term).sent@),
        all_restore_font(wgts@) && faint_room(old(term).font(), fuel as int) && prp.bg_color != ColorBg::Inherit
            && prp.fg_color != ColorFg::Inherit ==> final(term).font() == old(term).font(),
        all_restore_font(wgts@) ==> exists|wnd: Coord, bg_txt: Seq<char>, fg_txt: Seq<char>| {
            &&& area_codes(prp.bg_color, prp.fg_color, bg_txt, fg_txt)
            &&& sent_extends(
                old(term).sent@ + #[trigger] area_drawn(wnd, wgt.size, FrameStyle::Double, true, prp.is_popup, prp.fg_color, bg_txt, fg_txt),
                final(term).sent@,
            )
        },
    decreases fuel, 2nat,
{
    let wnd_coord = ws.get_window_coord();
    draw_area(term, wnd_coord, wgt.size, prp.bg_color, prp.fg_color, FrameStyle::Double, true, prp.is_popup);
    let ghost s_area = term.sent@;
    let ghost (bg_txt, fg_txt) = choose|bg_txt: Seq<char>, fg_txt: Seq<char>| {
        &&& area_codes(prp.bg_color, prp.fg_color, bg_txt, fg_txt)
        &&& s_area == old(term).sent@ + area_drawn(wnd_coord, wgt.size, FrameStyle::Double, true, prp.is_popup, prp.fg_color, bg_txt, fg_txt)
    };
    // title
    let mut wnd_title = String::new();
    if prp.title.unicode_len() > 0 {
        wnd_title.push_str(prp.title);
    } else {
        ws.get_window_title(wgt, &mut wnd_title);
    }
    if wnd_title.as_str().unicode_len() > 0 {
        let title_width: u16 = (wnd_title.as_str().displayed_width() as u16).wrapping_add(4);
        term.move_to(
            (wnd_coord.col as u16).wrapping_add((wgt.size.width as u16).wrapping_sub(title_width) / 2),
            wnd_coord.row as u16,
        );
        let ghost f1 = term.font();
        term.push_attr(FontAttrib::Bold);
        let mut t = String::new();
        t.push_str("╡ ");
        t.push_str(wnd_title.as_str());
        t.push_str(" ╞");
        term.write_str(t.as_str());
        term.pop_attr();
        proof {
            lemma_push_pop_attr(f1, FontAttrib::Bold);
        }
    }
    term.flush_buff();
    draw_children(term, ws, wst, wgts, wgt, wnd_coord, fuel);
    // reset colors set by frame drawer
    let ghost f2 = term.font();
    term.pop_cl_bg();
    term.pop_cl_fg();
    proof {
        let f0 = old(term).font();
        if all_restore_font(wgts@) && faint_room(old(term).font(), fuel as int) && prp.bg_color != ColorBg::Inherit && prp.fg_color != ColorFg::Inherit {
            assert(f2 == pushed_fg(pushed_bg(f0, prp.bg_color), prp.fg_color));
            assert(popped_fg(popped_bg(f2, 1), 1) =~= f0);
        }
    }
    term.move_to(0, (wnd_coord.row as u16).wrapping_add(wgt.size.height as u16));
    proof {
        if all_restore_font(wgts@) {
            assert(sent_extends(s_area, term.sent@));
            assert(sent_extends(old(term).sent@ + area_drawn(wnd_coord, wgt.size, FrameStyle::Double, true, prp.is_popup, prp.fg_color, bg_txt, fg_txt), term.sent@));
        }
    }
}

fn draw_panel<P: Pal, W: WindowState>(term: &mut Term<P>, ws: &mut W, wst: &WidgetState, wgts: &'static [Widget], wgt: &'static Widget, prp: &prop::Panel, parent_coord: Coord, fuel: usize)
    ensures
        all_restore_font(wgts@) ==> sent_extends(old(term).sent@, final(term).sent@),
        all_restore_font(wgts@) && faint_room(old(term).font(), fuel as int) ==> final(term).font() == old(term).font(),
        all_restore_font(wgts@) ==> exists|bg_txt: Seq<char>, fg_txt: Seq<char>| {
            &&& area_codes(prp.bg_color, prp.fg_color, bg_txt, fg_txt)
            &&& sent_extends(
                old(term).sent@ + #[trigger] area_drawn(
                    Coord { col: sat_add_u8(parent_coord.col, wgt.coord.col), row: sat_add_u8(parent_coord.row, wgt.coord.row) },
                    wgt.size,
                    panel_frame(prp.no_frame),
                    true,
                    false,
                    prp.fg_color,
                    bg_txt,
                    fg_txt,
                ),
                final(term).sent@,
            )
        },
    decreases fuel, 2nat,
{
    let mut fm = FontMementoManual::from_term(term);
    proof {
        lemma_font_extends_refl(term.font());
    }
    let my_coord = parent_coord + wgt.coord;
    draw_area(
        term,
        my_coord,
        wgt.size,
        prp.bg_color,
        prp.fg_color,
        if prp.no_frame { FrameStyle::NoFrame } else { FrameStyle::Single },
        true,
        false,
    );
    let ghost s_area = term.sent@;
    let ghost style = panel_frame(prp.no_frame);
    let ghost (bg_txt, fg_txt) = choose|bg_txt: Seq<char>, fg_txt: Seq<char>| {
        &&& area_codes(prp.bg_color, prp.fg_color, bg_txt, fg_txt)
        &&& s_area == old(term).sent@ + area_drawn(my_coord, wgt.size, style, true, false, prp.fg_color, bg_txt, fg_txt)
    };
    // title
    if prp.title.unicode_len() > 0 {
        let title_width: u16 = prp.title.displayed_width() as u16;
        term.move_to(
            (my_coord.col as u16).wrapping_add((wgt.size.width as u16).wrapping_sub(title_width).wrapping_sub(2) / 2),
            my_coord.row as u16,
        );
        let ghost f1 = term.font();
        term.push_attr(FontAttrib::Bold);
        term.write_char(' ');
        term.write_str(prp.title);
        term.write_char(' ');
        term.pop_attr();
        proof {
            lemma_push_pop_attr(f1, FontAttrib::Bold);
        }
    }
    term.flush_buff();
    // draw childrens
    draw_children(term, ws, wst, wgts, wgt, my_coord, fuel);
    fm.restore(term);
    proof {
        if all_restore_font(wgts@) {
            assert(sent_extends(s_area, term.sent@));
            assert(sent_extends(old(term).sent@ + area_drawn(my_coord, wgt.size, style, true, false, prp.fg_color, bg_txt, fg_txt), term.sent@));
        }
    }
}

/// A label's line as drawn: fitted to the label's width, when it has one
pub open spec fn label_line(line: Seq<char>, width: u8) -> Seq<char> {
    if width > 0 { fit_width(line, displayed_width_of(line), width as i16) } else { line }
}

/// The first `n` lines of a label at `col`:`row` as drawn, each followed by the move to the next row
pub open spec fn label_rows(lines: Seq<Seq<char>>, width: u8, col: u16, row: u16, n: int) -> Seq<char>
    decreases n,
{
    if n <= 0 {
        Seq::empty()
    } else {
        label_rows(lines, width, col, row, n - 1) + label_line(lines[n - 1], width)
            + cursor_goto_seq(row.wrapping_add(1).wrapping_add((n - 1) as u16) as nat, col as nat)
    }
}

/// Number of lines a label shows of `count`: up to one more than its height, or than 50 when it
/// has no height
pub open spec fn label_shown(count: int, height: u8) -> int {
    let max_lines = if height > 0 { height as int } else { 50 };
    if count < max_lines + 1 { count } else { max_lines + 1 }
}

#[verifier::rlimit(40)]
fn draw_label<P: Pal, W: WindowState>(term: &mut Term<P>, ws: &mut W, wgts: &'static [Widget], wgt: &'static Widget, prp: &prop::Label, parent_coord: Coord)
    ensures
        sent_extends(old(term).sent@, final(term).sent@),
        final(term).logs_row == old(term).logs_row,
        final(term).font() == old(term).font(),
        exists|title: Seq<char>, pre: Seq<char>, tail: Seq<char>| {
            &&& prp.title@.len() > 0 ==> title == prp.title@
            &&& final(term).sent@ == old(term).sent@ + #[trigger] drawn_with(
                pre,
                cursor_goto_seq((parent_coord.row + wgt.coord.row) as nat, (parent_coord.col + wgt.coord.col) as nat),
                label_rows(lines_from(title, 0), wgt.size.width, (parent_coord.col + wgt.coord.col) as u16,
                    (parent_coord.row + wgt.coord.row) as u16,
                    label_shown(lines_from(title, 0).len() as int, wgt.size.height)),
                tail,
            )
        },
{
    // label text
    let mut title = String::new();
    if prp.title.unicode_len() > 0 {
        title.push_str(prp.title);
    } else {
        ws.get_label_text(wgt, &mut title);
    }
    assert(prp.title@.len() > 0 ==> title@ =~= prp.title@);
    let mut fm = FontMementoManual::from_term(term);
    proof {
        lemma_font_extends_refl(term.font());
    }
    let ghost s0 = term.sent@;
    // setup colors
    term.push_cl_fg(get_widget_fg_color(wgts, wgt));
    let ghost p1 = term.sent@;
    term.push_cl_bg(get_widget_bg_color(wgts, wgt));
    proof {
        lemma_sent_extends_trans(s0, p1, term.sent@);
    }
    let ghost s1 = term.sent@;
    // print all lines
    let (col, row) = abs_pos(parent_coord, wgt);
    term.move_to(col, row);
    let ghost base = term.sent@;
    let max_lines: u8 = if wgt.size.height > 0 { wgt.size.height } else { 50 };
    let line_width = wgt.size.width;
    let lines = text_lines(title.as_str());
    let ghost ls = lines@.map_values(|l: String| l@);
    let mut line: usize = 0;
    let ghost fl = term.font();
    while line < lines.len()
        invariant_except_break
            line <= max_lines,
            line <= lines@.len(),
            term.sent@ == base + label_rows(ls, line_width, col, row, line as int),
        invariant
            sent_extends(old(term).sent@, term.sent@),
            term.logs_row == old(term).logs_row,
            term.font() == fl,
            ls == lines@.map_values(|l: String| l@),
            ls.len() == lines@.len(),
            max_lines == (if wgt.size.height > 0 { wgt.size.height } else { 50u8 }),
            line_width == wgt.size.width,
        ensures
            term.sent@ == base + label_rows(ls, line_width, col, row, label_shown(ls.len() as int, wgt.size.height)),
        decreases lines@.len() - line,
    {
        let ghost before = term.sent@;
        let mut strbuff = String::new();
        strbuff.push_str(lines[line].as_str());
        if line_width > 0 {
            strbuff.set_displayed_width(line_width as i16);
        }
        assert(strbuff@ =~= label_line(ls[line as int], line_width));
        term.write_str(strbuff.as_str());
        term.move_to(col, row.wrapping_add(1).wrapping_add(line as u16));
        term.flush_buff();
        assert(term.sent@ =~= base + label_rows(ls, line_width, col, row, line + 1));
        if line as u8 == max_lines {
            break;
        }
        line = line + 1;
    }
    let ghost s3 = term.sent@;
    fm.restore(term);
    proof {
        lemma_sent_extends_split(s0, s1);
        lemma_sent_extends_split(s3, term.sent@);
        let pre = s1.skip(s0.len() as int);
        let tail = term.sent@.skip(s3.len() as int);
        assert(ls == lines_from(title@, 0));
        assert(col == (parent_coord.col + wgt.coord.col) as u16);
        assert(row == (parent_coord.row + wgt.coord.row) as u16);
        assert(cursor_goto_seq(row as nat, col as nat)
            == cursor_goto_seq((parent_coord.row + wgt.coord.row) as nat, (parent_coord.col + wgt.coord.col) as nat));
        assert(term.sent@ =~= s0 + drawn_with(pre, cursor_goto_seq(row as nat, col as nat),
            label_rows(ls, line_width, col, row, label_shown(ls.len() as int, wgt.size.height)), tail));
    }
}

/// Columns a text edit's text is scrolled by in edit mode, from `pos` on: `delta`, half the edit's
/// width, at a time while the cursor position `cur` does not fit in the edit's `max_w` columns
pub open spec fn edit_scroll(cur: int, max_w: int, delta: int, pos: int) -> int
    decreases cur + 128,
{
    if 0 < delta && delta <= 127 && cur >= -128 && max_w >= 0 && cur >= max_w - 1 {
        edit_scroll(cur - delta, max_w, delta, pos + delta)
    } else {
        pos
    }
}

/// Columns a text edit `width` wide scrolls its text by for the cursor at `cur`
pub open spec fn edit_scroll_for(cur: int, width: u8) -> int {
    let max_w = width - 3;
    if max_w >= 2 && cur >= -128 { edit_scroll(cur, max_w, max_w / 2, 0) } else { 0 }
}

/// Text a text edit `width` columns wide shows of `txt` scrolled by `scroll` columns: a mark
/// when scrolled, the text fitted to the width with a mark when more follows, then `[^]`
pub open spec fn edit_face(txt: Seq<char>, scroll: int, width: u8) -> Seq<char> {
    let max_w = width - 3;
    let s1 = if scroll > 0 { seq!['◁'] + tail_at(txt, scroll + 1) } else { txt };
    let s2 = if scroll + max_w <= displayed_width_of(txt) {
        fit_width(s1, displayed_width_of(s1), (width - 4) as i16) + seq!['▷']
    } else {
        fit_width(s1, displayed_width_of(s1), (width - 3) as i16)
    };
    s2 + seq!['[', '^', ']']
}

/// Computes `edit_scroll_for`
fn edit_scroll_of(cur: i16, width: u8) -> (r: i32)
    ensures
        r == edit_scroll_for(cur as int, width),
        0 <= r <= 32767 + 128,
{
    let max_w: i32 = width as i32 - 3;
    let mut display_pos: i32 = 0;
    let mut cursor_pos: i32 = cur as i32;
    let delta: i32 = if max_w >= 0 { max_w / 2 } else { 0 };
    if max_w >= 2 && cursor_pos >= -128 {
        while cursor_pos >= max_w - 1
            invariant
                2 <= max_w <= 252,
                delta == max_w / 2,
                1 <= delta <= 126,
                cursor_pos >= -128,
                display_pos >= 0,
                cursor_pos + display_pos == cur,
                edit_scroll(cursor_pos as int, max_w as int, delta as int, display_pos as int)
                    == edit_scroll_for(cur as int, width),
            decreases cursor_pos + 128,
        {
            cursor_pos = cursor_pos - delta;
            display_pos = display_pos + delta;
        }
    }
    display_pos
}

/// Text a text edit `width` columns wide shows of `txt` scrolled by `scroll` columns
pub fn text_edit_face(txt: &str, scroll: i32, width: u8) -> (r: String)
    requires
        0 <= scroll <= 32767 + 128,
    ensures
        r@ == edit_face(txt@, scroll as int, width),
{
    let mut strbuff = String::new();
    strbuff.push_str(txt);
    assert(strbuff@ =~= txt@);
    let max_w: i32 = width as i32 - 3;
    let txt_width: usize = txt.displayed_width();
    if scroll > 0 {
        let tail = strbuff.split_at_char_idx(scroll as usize + 1);
        let mut s = String::new();
        s.push_str("◁");
        s.push_str(tail);
        proof {
            reveal_strlit("◁");
        }
        strbuff = s;
        assert(strbuff@ =~= seq!['◁'] + tail_at(txt@, scroll + 1));
    }
    let ghost s1 = strbuff@;
    let shown_end: i64 = scroll as i64 + max_w as i64;
    if shown_end < 0 || (shown_end as usize) <= txt_width {
        strbuff.set_displayed_width(width as i16 - 3 - 1);
        strbuff.push_str("▷");
        proof {
            reveal_strlit("▷");
        }
    } else {
        strbuff.set_displayed_width(width as i16 - 3);
    }
    strbuff.push_str("[^]");
    proof {
        reveal_strlit("[^]");
    }
    assert(strbuff@ =~= edit_face(txt@, scroll as int, width));
    strbuff
}

fn draw_text_edit<P: Pal, W: WindowState>(term: &mut Term<P>, ws: &mut W, wst: &WidgetState, wgts: &'static [Widget], wgt: &'static Widget, prp: &prop::TextEdit, parent_coord: Coord)
    ensures
        sent_extends(old(term).sent@, final(term).sent@),
        final(term).logs_row == old(term).logs_row,
        final(term).font() == old(term).font(),
        exists|txt: Seq<char>, scroll: int, mid: Seq<char>, tail: Seq<char>| {
            &&& wgt.id == wst.text_edit_state.wgt_id ==> txt == wst.text_edit_state.txt@
                && scroll == edit_scroll_for(wst.text_edit_state.cursor_pos as int, wgt.size.width)
            &&& wgt.id != wst.text_edit_state.wgt_id ==> scroll == 0
            &&& final(term).sent@ == old(term).sent@ + #[trigger] drawn_with(
                cursor_goto_seq((parent_coord.row + wgt.coord.row) as nat, (parent_coord.col + wgt.coord.col) as nat),
                mid,
                edit_face(txt, scroll, wgt.size.width),
                tail,
            )
        },
{
    let mut display_pos: i32 = 0;
    let mut txt = String::new();
    let te_state = &wst.text_edit_state;
    if wgt.id == te_state.wgt_id {
        // in edit mode; similar calculation in set_cursor_at()
        txt.push_str(te_state.txt.as_str());
        display_pos = edit_scroll_of(te_state.cursor_pos, wgt.size.width);
    } else {
        ws.get_text_edit_text(wgt, &mut txt, false);
    }
    let strbuff = text_edit_face(txt.as_str(), display_pos, wgt.size.width);
    let focused = ws.is_focused(wgt);
    let clbg = term.intensify_bg_if(get_widget_bg_color(wgts, wgt), focused);
    let mut fm = FontMementoManual::from_term(term);
    proof {
        lemma_font_extends_refl(term.font());
    }
    let (col, row) = abs_pos(parent_coord, wgt);
    let ghost s0 = term.sent@;
    term.move_to(col, row);
    let ghost s1 = term.sent@;
    term.push_cl_bg(clbg);
    let ghost p1 = term.sent@;
    term.push_cl_fg(get_widget_fg_color(wgts, wgt));
    proof {
        lemma_sent_extends_trans(s1, p1, term.sent@);
    }
    let ghost s2 = term.sent@;
    term.write_str(strbuff.as_str());
    let ghost s3 = term.sent@;
    fm.restore(term);
    proof {
        let goto = cursor_goto_seq(row as nat, col as nat);
        assert(goto == cursor_goto_seq((parent_coord.row + wgt.coord.row) as nat, (parent_coord.col + wgt.coord.col) as nat));
        lemma_sent_extends_split(s1, s2);
        lemma_sent_extends_split(s3, term.sent@);
        let mid = s2.skip(s1.len() as int);
        let tail = term.sent@.skip(s3.len() as int);
        assert(wgt.id == wst.text_edit_state.wgt_id ==> txt@ =~= wst.text_edit_state.txt@);
        assert(term.sent@ =~= s0 + drawn_with(goto, mid, edit_face(txt@, display_pos as int, wgt.size.width), tail));
    }
}

fn draw_led<P: Pal, W: WindowState>(term: &mut Term<P>, ws: &mut W, wgts: &'static [Widget], wgt: &'static Widget, prp: &prop::Led, parent_coord: Coord)
    ensures
        sent_extends(old(term).sent@, final(term).sent@),
        final(term).logs_row == old(term).logs_row,
        final(term).font() == old(term).font(),
        exists|label: Seq<char>, mid: Seq<char>, tail: Seq<char>| {
            &&& prp.text@.len() > 0 ==> label == prp.text@
            &&& final(term).sent@ == old(term).sent@ + #[trigger] drawn_with(
                cursor_goto_seq((parent_coord.row + wgt.coord.row) as nat, (parent_coord.col + wgt.coord.col) as nat),
                mid,
                label,
                tail,
            )
        },
{
    let clbg = if ws.get_led_lit(wgt) { prp.bg_color_on } else { prp.bg_color_off };
    let mut strbuff = String::new();
    if prp.text.unicode_len() > 0 {
        strbuff.push_str(prp.text);
    } else {
        ws.get_led_text(wgt, &mut strbuff);
    }
    assert(prp.text@.len() > 0 ==> strbuff@ =~= prp.text@);
    // led text
    let mut fm = FontMementoManual::from_term(term);
    proof {
        lemma_font_extends_refl(term.font());
    }
    let (col, row) = abs_pos(parent_coord, wgt);
    let ghost s0 = term.sent@;
    term.move_to(col, row);
    let ghost s1 = term.sent@;
    term.push_cl_bg(clbg);
    let ghost p1 = term.sent@;
    term.push_cl_fg(get_widget_fg_color(wgts, wgt));
    proof {
        lemma_sent_extends_trans(s1, p1, term.sent@);
    }
    let ghost s2 = term.sent@;
    term.write_str(strbuff.as_str());
    let ghost s3 = term.sent@;
    fm.restore(term);
    proof {
        let goto = cursor_goto_seq(row as nat, col as nat);
        assert(goto == cursor_goto_seq((parent_coord.row + wgt.coord.row) as nat, (parent_coord.col + wgt.coord.col) as nat));
        lemma_sent_extends_split(s1, s2);
        lemma_sent_extends_split(s3, term.sent@);
        let mid = s2.skip(s1.len() as int);
        let tail = term.sent@.skip(s3.len() as int);
        assert(term.sent@ =~= s0 + drawn_with(goto, mid, strbuff@, tail));
    }
}

/// Text of a check box: its state mark, then its text
pub open spec fn checkbox_face(checked: bool, text: Seq<char>) -> Seq<char> {
    (if checked { seq!['[', '■', ']', ' '] } else { seq!['[', ' ', ']', ' '] }) + text
}

/// A check box's face shows the mark `■` exactly when the window answers that it is checked,
/// an empty mark otherwise, then its text
pub proof fn lemma_checkbox_face_marks_state(checked: bool, text: Seq<char>)
    ensures
        ({
            let f = checkbox_face(checked, text);
            &&& f.len() == text.len() + 4
            &&& f[0] == '[' && f[2] == ']' && f[3] == ' '
            &&& (f[1] == '■') == checked
            &&& (f[1] == ' ') == !checked
            &&& f.skip(4) == text
        }),
{
    let f = checkbox_face(checked, text);
    assert(f.skip(4) =~= text);
}

/// Draws a check box, marked when `checked`, what the window answers for it
fn draw_checkbox<P: Pal, W: WindowState>(term: &mut Term<P>, ws: &mut W, wgts: &'static [Widget], wgt: &'static Widget, prp: &prop::CheckBox, parent_coord: Coord, checked: bool)
    ensures
        sent_extends(old(term).sent@, final(term).sent@),
        final(term).logs_row == old(term).logs_row,
        final(term).font() == old(term).font(),
        exists|mid: Seq<char>, tail: Seq<char>|
            final(term).sent@ == old(term).sent@ + #[trigger] drawn_with(
                cursor_goto_seq((parent_coord.row + wgt.coord.row) as nat, (parent_coord.col + wgt.coord.col) as nat),
                mid,
                checkbox_face(checked, prp.text@),
                tail,
            ),
{
    let chk_state = if checked { "[■] " } else { "[ ] " };
    proof {
        reveal_strlit("[■] ");
        reveal_strlit("[ ] ");
    }
    let focused = ws.is_focused(wgt);
    let clfg = term.intensify_fg_if(get_widget_fg_color(wgts, wgt), focused);
    let mut fm = FontMementoManual::from_term(term);
    proof {
        lemma_font_extends_refl(term.font());
    }
    let (col, row) = abs_pos(parent_coord, wgt);
    let ghost s0 = term.sent@;
    term.move_to(col, row);
    let ghost s1 = term.sent@;
    if focused {
        term.push_attr(FontAttrib::Bold);
    }
    proof {
        lemma_sent_extends_refl(term.sent@);
    }
    let ghost p1 = term.sent@;
    term.push_cl_fg(clfg);
    proof {
        lemma_sent_extends_trans(s1, p1, term.sent@);
    }
    let ghost s2 = term.sent@;
    term.write_str(chk_state);
    term.write_str(prp.text);
    let ghost s3 = term.sent@;
    fm.restore(term);
    proof {
        let goto = cursor_goto_seq(row as nat, col as nat);
        assert(goto == cursor_goto_seq((parent_coord.row + wgt.coord.row) as nat, (parent_coord.col + wgt.coord.col) as nat));
        lemma_sent_extends_split(s1, s2);
        lemma_sent_extends_split(s3, term.sent@);
        let mid = s2.skip(s1.len() as int);
        let tail = term.sent@.skip(s3.len() as int);
        assert(chk_state@ + prp.text@ =~= checkbox_face(checked, prp.text@));
        assert(term.sent@ =~= s0 + drawn_with(goto, mid, checkbox_face(checked, prp.text@), tail));
    }
}

/// Text of a radio button: its state mark, then its text
pub open spec fn radio_face(selected: bool, text: Seq<char>) -> Seq<char> {
    (if selected { seq!['(', '●', ')', ' '] } else { seq!['(', ' ', ')', ' '] }) + text
}

/// A radio button's face shows the filled mark `●` exactly when the radio button's id is the
/// index the window gives for its group, an empty mark otherwise, then its text
pub proof fn lemma_radio_face_marks_selection(radio_id: i16, ridx: i16, text: Seq<char>)
    ensures
        ({
            let f = radio_face(radio_id == ridx, text);
            &&& f.len() == text.len() + 4
            &&& f[0] == '(' && f[2] == ')' && f[3] == ' '
            &&& (f[1] == '●') == (radio_id == ridx)
            &&& (f[1] == ' ') == (radio_id != ridx)
            &&& f.skip(4) == text
        }),
{
    let f = radio_face(radio_id == ridx, text);
    assert(f.skip(4) =~= text);
}

/// Draws a radio button, marked as selected when its id is `ridx`, the index the window gives
/// for its group
fn draw_radio<P: Pal, W: WindowState>(term: &mut Term<P>, ws: &mut W, wgts: &'static [Widget], wgt: &'static Widget, prp: &prop::Radio, parent_coord: Coord, ridx: i16)
    ensures
        sent_extends(old(term).sent@, final(term).sent@),
        final(term).logs_row == old(term).logs_row,
        final(term).font() == old(term).font(),
        ({
            let face = radio_face(prp.radio_id == ridx, prp.text@);
            exists|mid: Seq<char>, tail: Seq<char>|
                final(term).sent@ == old(term).sent@ + #[trigger] drawn_with(
                    cursor_goto_seq((parent_coord.row + wgt.coord.row) as nat, (parent_coord.col + wgt.coord.col) as nat),
                    mid,
                    face,
                    tail,
                )
        }),
{
    let selected = prp.radio_id == ridx;
    let radio_state = if selected { "(●) " } else { "( ) " };
    proof {
        reveal_strlit("(●) ");
        reveal_strlit("( ) ");
    }
    let focused = ws.is_focused(wgt);
    let clfg = term.intensify_fg_if(get_widget_fg_color(wgts, wgt), focused);
    let mut fm = FontMementoManual::from_term(term);
    proof {
        lemma_font_extends_refl(term.font());
    }
    let (col, row) = abs_pos(parent_coord, wgt);
    let ghost s0 = term.sent@;
    term.move_to(col, row);
    let ghost s1 = term.sent@;
    if focused {
        term.push_attr(FontAttrib::Bold);
    }
    proof {
        lemma_sent_extends_refl(term.sent@);
    }
    let ghost p1 = term.sent@;
    term.push_cl_fg(clfg);
    proof {
        lemma_sent_extends_trans(s1, p1, term.sent@);
    }
    let ghost s2 = term.sent@;
    term.write_str(radio_state);
    term.write_str(prp.text);
    let ghost s3 = term.sent@;
    fm.restore(term);
    proof {
        let goto = cursor_goto_seq(row as nat, col as nat);
        assert(goto == cursor_goto_seq((parent_coord.row + wgt.coord.row) as nat, (parent_coord.col + wgt.coord.col) as nat));
        lemma_sent_extends_split(s1, s2);
        lemma_sent_extends_split(s3, term.sent@);
        let mid = s2.skip(s1.len() as int);
        let tail = term.sent@.skip(s3.len() as int);
        assert(radio_state@ + prp.text@ =~= radio_face(selected, prp.text@));
        assert(term.sent@ =~= s0 + drawn_with(goto, mid, radio_face(selected, prp.text@), tail));
    }
}

/// Text of a button's face: its label between the style's borders
pub open spec fn button_face(style: ButtonStyle, label: Seq<char>) -> Seq<char> {
    match style {
        ButtonStyle::Simple => seq!['[', ' '] + label + seq![' ', ']'],
        _ => seq![' '] + label + seq![' '],
    }
}

/// Text `head`, then `mid`, then `face`, then `tail`
pub open spec fn drawn_with(head: Seq<char>, mid: Seq<char>, face: Seq<char>, tail: Seq<char>) -> Seq<char> {
    head + mid + face + tail
}

/// Text a button sends between putting the cursor at its place and its face: for the Simple
/// and Solid styles, bold when focused, inverse when pressed, then the background and foreground
/// codes `bt`, `ft`; for the Solid1p5 style, its upper half line `pre`, then the background and
/// foreground codes, inverse when pressed and bold when focused; bold is sent only where no faint
/// attribute is on (`faint`)
pub open spec fn button_mid(style: ButtonStyle, pre: Seq<char>, focused: bool, pressed: bool, faint: i8, bt: Seq<char>, ft: Seq<char>) -> Seq<char> {
    let bold = if focused { attr_on_text(FontAttrib::Bold, faint) } else { Seq::<char>::empty() };
    let inv = if pressed { esc::INVERSE_ON@ } else { Seq::<char>::empty() };
    match style {
        ButtonStyle::Solid1p5 => pre + bt + ft + inv + bold,
        _ => bold + inv + bt + ft,
    }
}

/// A pressed button is drawn inverse, and a focused one bold (unless faint is on): the text
/// sent before its face holds the inverse code, and the bold code
pub proof fn lemma_button_mid_marks(style: ButtonStyle, pre: Seq<char>, focused: bool, pressed: bool, faint: i8, bt: Seq<char>, ft: Seq<char>)
    ensures
        pressed ==> exists|x: Seq<char>, y: Seq<char>|
            #[trigger] button_mid(style, pre, focused, pressed, faint, bt, ft) == x + esc::INVERSE_ON@ + y,
        focused && faint == 0 ==> exists|x: Seq<char>, y: Seq<char>|
            #[trigger] button_mid(style, pre, focused, pressed, faint, bt, ft) == x + esc::BOLD@ + y,
{
    let bold = if focused { attr_on_text(FontAttrib::Bold, faint) } else { Seq::<char>::empty() };
    let inv = if pressed { esc::INVERSE_ON@ } else { Seq::<char>::empty() };
    let m = button_mid(style, pre, focused, pressed, faint, bt, ft);
    match style {
        ButtonStyle::Solid1p5 => {
            if pressed {
                assert(m =~= (pre + bt + ft) + esc::INVERSE_ON@ + bold);
            }
            if focused && faint == 0 {
                assert(m =~= (pre + bt + ft + inv) + esc::BOLD@ + Seq::<char>::empty());
            }
        },
        _ => {
            if pressed {
                assert(m =~= bold + esc::INVERSE_ON@ + (bt + ft));
            }
            if focused && faint == 0 {
                assert(m =~= Seq::<char>::empty() + esc::BOLD@ + (inv + bt + ft));
            }
        },
    }
}

/// The text sent from `a` to `b` by pushing the background color `clbg`, and from `b` to `c` by
/// pushing the foreground color `clfg`, are their codes
#[verifier::rlimit(50)]
proof fn lemma_push_codes(a: Seq<char>, b: Seq<char>, c: Seq<char>, clbg: ColorBg, clfg: ColorFg)
    requires
        sent_extends(a, b),
        sent_extends(b, c),
        !bg_is_theme(clbg) ==> b == a + bg_code(clbg)@,
        !fg_is_theme(clfg) ==> c == b + fg_code(clfg)@,
    ensures
        area_codes(clbg, clfg, b.skip(a.len() as int), c.skip(b.len() as int)),
{
    reveal_strlit("");
    lemma_sent_extends_split(a, b);
    lemma_sent_extends_split(b, c);
    if clbg == ColorBg::Inherit {
        assert(b.skip(a.len() as int) =~= Seq::<char>::empty());
    } else if !bg_is_theme(clbg) {
        assert(b.skip(a.len() as int) =~= bg_code(clbg)@);
    }
    if clfg == ColorFg::Inherit {
        assert(c.skip(b.len() as int) =~= Seq::<char>::empty());
    } else if !fg_is_theme(clfg) {
        assert(c.skip(b.len() as int) =~= fg_code(clfg)@);
    }
}

/// What a Simple or Solid button sends, step by step, is its place, `button_mid` and its face
#[verifier::rlimit(50)]
proof fn lemma_button_sent(
    s0: Seq<char>,
    s1: Seq<char>,
    pb: Seq<char>,
    pi: Seq<char>,
    pbg: Seq<char>,
    s2: Seq<char>,
    s3: Seq<char>,
    s4: Seq<char>,
    goto: Seq<char>,
    face: Seq<char>,
    style: ButtonStyle,
    focused: bool,
    pressed: bool,
    faint: i8,
    clbg: ColorBg,
    clfg: ColorFg,
)
    requires
        style != ButtonStyle::Solid1p5,
        s1 == s0 + goto,
        pb == s1 + (if focused { attr_on_text(FontAttrib::Bold, faint) } else { Seq::<char>::empty() }),
        pi == pb + (if pressed { attr_on_text(FontAttrib::Inverse, faint) } else { Seq::<char>::empty() }),
        sent_extends(pi, pbg),
        sent_extends(pbg, s2),
        !bg_is_theme(clbg) ==> pbg == pi + bg_code(clbg)@,
        !fg_is_theme(clfg) ==> s2 == pbg + fg_code(clfg)@,
        s3 == s2 + face,
        sent_extends(s3, s4),
    ensures
        exists|pre: Seq<char>, bt: Seq<char>, ft: Seq<char>, tail: Seq<char>| {
            &&& area_codes(clbg, clfg, bt, ft)
            &&& s4 == s0 + #[trigger] drawn_with(goto, button_mid(style, pre, focused, pressed, faint, bt, ft), face, tail)
        },
{
    let bt = pbg.skip(pi.len() as int);
    let ft = s2.skip(pbg.len() as int);
    lemma_push_codes(pi, pbg, s2, clbg, clfg);
    lemma_sent_extends_split(pi, pbg);
    lemma_sent_extends_split(pbg, s2);
    lemma_sent_extends_split(s3, s4);
    let tail = s4.skip(s3.len() as int);
    let mid = button_mid(style, Seq::<char>::empty(), focused, pressed, faint, bt, ft);
    assert(s2 =~= s1 + mid);
    assert(s4 =~= s0 + drawn_with(goto, mid, face, tail));
}

/// What a Solid1p5 button sends, step by step, is its place, `button_mid` and its face
#[verifier::rlimit(50)]
proof fn lemma_button_sent_1p5(
    s0: Seq<char>,
    s1: Seq<char>,
    p5: Seq<char>,
    p6: Seq<char>,
    p7: Seq<char>,
    p8: Seq<char>,
    s2: Seq<char>,
    s3: Seq<char>,
    s4: Seq<char>,
    goto: Seq<char>,
    face: Seq<char>,
    focused: bool,
    pressed: bool,
    faint: i8,
    clbg: ColorBg,
    clfg: ColorFg,
)
    requires
        s1 == s0 + goto,
        sent_extends(s1, p5),
        sent_extends(p5, p6),
        sent_extends(p6, p7),
        !bg_is_theme(clbg) ==> p6 == p5 + bg_code(clbg)@,
        !fg_is_theme(clfg) ==> p7 == p6 + fg_code(clfg)@,
        p8 == p7 + (if pressed { attr_on_text(FontAttrib::Inverse, faint) } else { Seq::<char>::empty() }),
        s2 == p8 + (if focused { attr_on_text(FontAttrib::Bold, faint) } else { Seq::<char>::empty() }),
        s3 == s2 + face,
        sent_extends(s3, s4),
    ensures
        exists|pre: Seq<char>, bt: Seq<char>, ft: Seq<char>, tail: Seq<char>| {
            &&& area_codes(clbg, clfg, bt, ft)
            &&& s4 == s0 + #[trigger] drawn_with(goto, button_mid(ButtonStyle::Solid1p5, pre, focused, pressed, faint, bt, ft), face, tail)
        },
{
    let pre = p5.skip(s1.len() as int);
    let bt = p6.skip(p5.len() as int);
    let ft = p7.skip(p6.len() as int);
    lemma_push_codes(p5, p6, p7, clbg, clfg);
    lemma_sent_extends_split(s1, p5);
    lemma_sent_extends_split(p5, p6);
    lemma_sent_extends_split(p6, p7);
    lemma_sent_extends_split(s3, s4);
    let tail = s4.skip(s3.len() as int);
    let mid = button_mid(ButtonStyle::Solid1p5, pre, focused, pressed, faint, bt, ft);
    assert(p5 =~= s1 + pre);
    assert(p6 =~= p5 + bt);
    assert(p7 =~= p6 + ft);
    assert(s2 =~= s1 + mid);
    assert(s4 =~= s0 + drawn_with(goto, mid, face, tail));
}

/// The button `wgt` is pressed: the mouse went down on it
pub open spec fn is_pressed(wgt: Widget, wst: WidgetState) -> bool {
    wgt.id == wst.mouse_down_wgt
}

/// Background color of a button's face: for the Simple style, the parent's unless pressed
pub open spec fn button_bg(style: ButtonStyle, pressed: bool, wgts: Seq<Widget>, wgt: Widget) -> ColorBg {
    match style {
        ButtonStyle::Simple => if pressed {
            inherited_bg(wgts, wgt, wgts.len())
        } else {
            inherited_bg(wgts, parent_of(wgts, wgt), wgts.len())
        },
        _ => inherited_bg(wgts, wgt, wgts.len()),
    }
}

/// Draws a button of the Simple style at `col`:`row` with the label `txt`
#[verifier::rlimit(40)]
fn draw_button_simple<P: Pal>(term: &mut Term<P>, wgts: &'static [Widget], wgt: &'static Widget, txt: &str, clfg: ColorFg, focused: bool, pressed: bool, col: u16, row: u16)
    ensures
        sent_extends(old(term).sent@, final(term).sent@),
        final(term).logs_row == old(term).logs_row,
        final(term).font() == old(term).font(),
        exists|pre: Seq<char>, bt: Seq<char>, ft: Seq<char>, tail: Seq<char>| {
            &&& area_codes(button_bg(ButtonStyle::Simple, pressed, wgts@, *wgt), clfg, bt, ft)
            &&& final(term).sent@ == old(term).sent@ + #[trigger] drawn_with(
                cursor_goto_seq(row as nat, col as nat),
                button_mid(ButtonStyle::Simple, pre, focused, pressed, old(term).attr_faint, bt, ft),
                button_face(ButtonStyle::Simple, txt@),
                tail,
            )
        },
{
    let ghost goto = cursor_goto_seq(row as nat, col as nat);
    let ghost s0 = term.sent@;
    let ghost mut s1 = s0;
    let ghost mut s2 = s0;
    let ghost mut s3 = s0;
    let mut strbuff = String::new();
    let mut fm = FontMementoManual::from_term(term);
    proof {
        lemma_font_extends_refl(term.font());
        reveal_strlit("[ ");
        reveal_strlit(" ]");
    }
    strbuff.push_str("[ ");
    strbuff.push_str(txt);
    strbuff.push_str(" ]");
    assert(strbuff@ =~= button_face(ButtonStyle::Simple, txt@));
    term.move_to(col, row);
    proof {
        s1 = term.sent@;
        lemma_sent_extends_refl(s1);
    }
    if focused {
        term.push_attr(FontAttrib::Bold);
    }
    proof {
        lemma_sent_extends_trans(s1, s1, term.sent@);
    }
    let ghost p1 = term.sent@;
    if pressed {
        term.push_attr(FontAttrib::Inverse);
    }
    proof {
        lemma_sent_extends_refl(term.sent@);
        lemma_sent_extends_trans(s1, p1, term.sent@);
    }
    let clbg = if pressed {
        get_widget_bg_color(wgts, wgt)
    } else {
        get_widget_bg_color(wgts, get_parent(wgts, wgt))
    };
    let ghost p2 = term.sent@;
    term.push_cl_bg(clbg);
    proof {
        lemma_sent_extends_refl(term.sent@);
        lemma_sent_extends_trans(s1, p2, term.sent@);
    }
    let ghost p3 = term.sent@;
    term.push_cl_fg(clfg);
    proof {
        lemma_sent_extends_trans(s1, p3, term.sent@);
        s2 = term.sent@;
    }
    term.write_str(strbuff.as_str());
    proof {
        s3 = term.sent@;
        lemma_sent_extends_refl(s3);
    }
    fm.restore(term);

    proof {
        assert(s1 =~= s0 + goto);
        assert(s3 =~= s2 + button_face(ButtonStyle::Simple, txt@));
        lemma_button_sent(s0, s1, p1, p2, p3, s2, s3, term.sent@, goto, button_face(ButtonStyle::Simple, txt@),
            ButtonStyle::Simple, focused, pressed, old(term).attr_faint, clbg, clfg);
    }
}

/// Draws a button of the Solid style at `col`:`row` with the label `txt`
fn draw_button_solid<P: Pal>(term: &mut Term<P>, wgts: &'static [Widget], wgt: &'static Widget, txt: &str, clfg: ColorFg, focused: bool, pressed: bool, col: u16, row: u16)
    ensures
        sent_extends(old(term).sent@, final(term).sent@),
        final(term).logs_row == old(term).logs_row,
        final(term).font() == old(term).font(),
        exists|pre: Seq<char>, bt: Seq<char>, ft: Seq<char>, tail: Seq<char>| {
            &&& area_codes(button_bg(ButtonStyle::Solid, pressed, wgts@, *wgt), clfg, bt, ft)
            &&& final(term).sent@ == old(term).sent@ + #[trigger] drawn_with(
                cursor_goto_seq(row as nat, col as nat),
                button_mid(ButtonStyle::Solid, pre, focused, pressed, old(term).attr_faint, bt, ft),
                button_face(ButtonStyle::Solid, txt@),
                tail,
            )
        },
{
    let ghost goto = cursor_goto_seq(row as nat, col as nat);
    let ghost s0 = term.sent@;
    let ghost mut s1 = s0;
    let ghost mut s2 = s0;
    let ghost mut s3 = s0;
    let ghost mut g1 = s0;
    let ghost mut g2 = s0;
    let ghost mut g3 = s0;
    let ghost mut gbg = ColorBg::Inherit;
    let mut strbuff = String::new();
    {
        let mut fm = FontMementoManual::from_term(term);
        proof {
            lemma_font_extends_refl(term.font());
        }
        strbuff.push(' ');
        strbuff.push_str(txt);
        strbuff.push(' ');
        assert(strbuff@ =~= button_face(ButtonStyle::Solid, txt@));
        term.move_to(col, row);
        proof {
            s1 = term.sent@;
            lemma_sent_extends_refl(s1);
        }
        if focused {
            term.push_attr(FontAttrib::Bold);
        }
        proof {
            lemma_sent_extends_trans(s1, s1, term.sent@);
        }
        let ghost p1 = term.sent@;
        if pressed {
            term.push_attr(FontAttrib::Inverse);
        }
        proof {
            lemma_sent_extends_refl(term.sent@);
            lemma_sent_extends_trans(s1, p1, term.sent@);
        }
        let clbg = get_widget_bg_color(wgts, wgt);
        let ghost p2 = term.sent@;
        term.push_cl_bg(clbg);
        proof {
            lemma_sent_extends_refl(term.sent@);
            lemma_sent_extends_trans(s1, p2, term.sent@);
        }
        let ghost p3 = term.sent@;
        term.push_cl_fg(clfg);
        proof {
            lemma_sent_extends_trans(s1, p3, term.sent@);
            s2 = term.sent@;
            g1 = p1;
            g2 = p2;
            g3 = p3;
            gbg = clbg;
        }
        term.write_str(strbuff.as_str());
        proof {
            s3 = term.sent@;
            lemma_sent_extends_refl(s3);
        }
        fm.restore(term);
    }
    let ghost q0 = term.sent@;
    proof {
        lemma_sent_extends_refl(q0);
        lemma_sent_extends_trans(s3, q0, q0);
    }
    let shadow_len: i16 = (txt.displayed_width() as i16).wrapping_add(2);
    if pressed {
        // erase trailing shadow
        term.push_cl_bg(get_widget_bg_color(wgts, get_parent(wgts, wgt)));
        proof {
            lemma_sent_extends_trans(s3, q0, term.sent@);
        }
        let ghost q1 = term.sent@;
        term.write_char(' ');
        proof {
            lemma_sent_extends_trans(s3, q1, term.sent@);
        }
        // erase shadow below
        let ghost q2 = term.sent@;
        term.move_to(col.wrapping_add(1), row.wrapping_add(1));
        proof {
            lemma_sent_extends_trans(s3, q2, term.sent@);
        }
        let ghost q3 = term.sent@;
        term.write_char_n(' ', shadow_len);
        proof {
            lemma_sent_extends_trans(s3, q3, term.sent@);
        }
        let ghost q4 = term.sent@;
        term.pop_cl_bg();
        proof {
            lemma_sent_extends_trans(s3, q4, term.sent@);
        }
    } else {
        let mut fm = FontMementoManual::from_term(term);
        proof {
            lemma_font_extends_refl(term.font());
        }
        // trailing shadow
        term.push_cl_bg(get_widget_bg_color(wgts, get_parent(wgts, wgt)));
        proof {
            lemma_sent_extends_trans(s3, q0, term.sent@);
        }
        let shadow_fg = esc::fg_color(233);
        let ghost q1 = term.sent@;
        term.write_str(shadow_fg.as_str());
        proof {
            lemma_sent_extends_trans(s3, q1, term.sent@);
        }
        let ghost q2 = term.sent@;
        term.write_char('▄');
        proof {
            lemma_sent_extends_trans(s3, q2, term.sent@);
        }
        // shadow below
        let ghost q3 = term.sent@;
        term.move_to(col.wrapping_add(1), row.wrapping_add(1));
        proof {
            lemma_sent_extends_trans(s3, q3, term.sent@);
        }
        let ghost q4 = term.sent@;
        term.write_char_n('▀', shadow_len);
        proof {
            lemma_sent_extends_trans(s3, q4, term.sent@);
        }
        let ghost q5 = term.sent@;
        fm.restore(term);
        proof {
            lemma_sent_extends_trans(s3, q5, term.sent@);
        }
    }
    proof {
        assert(s1 =~= s0 + goto);
        assert(s3 =~= s2 + button_face(ButtonStyle::Solid, txt@));
        lemma_button_sent(s0, s1, g1, g2, g3, s2, s3, term.sent@, goto, button_face(ButtonStyle::Solid, txt@),
            ButtonStyle::Solid, focused, pressed, old(term).attr_faint, gbg, clfg);
    }
}

/// Draws a button of the Solid1p5 style at `col`:`row` with the label `txt`
#[verifier::rlimit(30)]
fn draw_button_solid1p5<P: Pal>(term: &mut Term<P>, wgts: &'static [Widget], wgt: &'static Widget, txt: &str, clfg: ColorFg, focused: bool, pressed: bool, col: u16, row: u16)
    ensures
        sent_extends(old(term).sent@, final(term).sent@),
        final(term).logs_row == old(term).logs_row,
        final(term).font() == old(term).font(),
        exists|pre: Seq<char>, bt: Seq<char>, ft: Seq<char>, tail: Seq<char>| {
            &&& area_codes(button_bg(ButtonStyle::Solid1p5, pressed, wgts@, *wgt), clfg, bt, ft)
            &&& final(term).sent@ == old(term).sent@ + #[trigger] drawn_with(
                cursor_goto_seq(row as nat, col as nat),
                button_mid(ButtonStyle::Solid1p5, pre, focused, pressed, old(term).attr_faint, bt, ft),
                button_face(ButtonStyle::Solid1p5, txt@),
                tail,
            )
        },
{
    let ghost goto = cursor_goto_seq(row as nat, col as nat);
    let ghost s0 = term.sent@;
    let ghost mut s1 = s0;
    let ghost mut s2 = s0;
    let ghost mut s3 = s0;
    let mut strbuff = String::new();
    let mut fm = FontMementoManual::from_term(term);
    proof {
        lemma_font_extends_refl(term.font());
    }
    strbuff.push(' ');
    strbuff.push_str(txt);
    strbuff.push(' ');
    assert(strbuff@ =~= button_face(ButtonStyle::Solid1p5, txt@));
    let clbg = get_widget_bg_color(wgts, wgt);
    let clparbg = get_widget_bg_color(wgts, get_parent(wgts, wgt));
    let bnt_len: i16 = (txt.displayed_width() as i16).wrapping_add(2);
    let scl_shadow = esc::bg_color(233);
    let scl_bg2fg = clbg.transcode_2_fg();
    // upper half line
    term.move_to(col, row);
    proof {
        s1 = term.sent@;
        lemma_sent_extends_refl(s1);
    }
    let ghost p1 = term.sent@;
    term.push_cl_bg(clparbg);
    proof {
        lemma_sent_extends_refl(term.sent@);
        lemma_sent_extends_trans(s1, p1, term.sent@);
    }
    let ghost p2 = term.sent@;
    if pressed {
        term.push_cl_fg(clfg);
    } else {
        term.write_str(scl_bg2fg.as_str());
    }
    proof {
        lemma_sent_extends_refl(term.sent@);
        lemma_sent_extends_trans(s1, p2, term.sent@);
    }
    let ghost p3 = term.sent@;
    term.write_char_n('▄', bnt_len);
    proof {
        lemma_sent_extends_trans(s1, p3, term.sent@);
    }
    // middle line - text
    let ghost p4 = term.sent@;
    term.move_by(0i16.wrapping_sub(bnt_len), 1);
    proof {
        lemma_sent_extends_trans(s1, p4, term.sent@);
    }
    let ghost p5 = term.sent@;
    term.push_cl_bg(clbg);
    proof {
        lemma_sent_extends_trans(s1, p5, term.sent@);
    }
    let ghost p6 = term.sent@;
    term.push_cl_fg(clfg);
    proof {
        lemma_sent_extends_trans(s1, p6, term.sent@);
    }
    let ghost p7 = term.sent@;
    if pressed {
        term.push_attr(FontAttrib::Inverse);
    }
    proof {
        lemma_sent_extends_refl(term.sent@);
        lemma_sent_extends_trans(s1, p7, term.sent@);
    }
    let ghost p8 = term.sent@;
    if focused {
        term.push_attr(FontAttrib::Bold);
    }
    proof {
        lemma_sent_extends_refl(term.sent@);
        lemma_sent_extends_trans(s1, p8, term.sent@);
        s2 = term.sent@;
    }
    term.write_str(strbuff.as_str());
    proof {
        s3 = term.sent@;
        lemma_sent_extends_refl(s3);
    }
    let ghost r1 = term.sent@;
    if focused {
        term.pop_attr();
    }
    proof {
        lemma_sent_extends_refl(term.sent@);
        lemma_sent_extends_trans(s3, r1, term.sent@);
    }
    let ghost r2 = term.sent@;
    if pressed {
        term.pop_attr();
    }
    proof {
        lemma_sent_extends_refl(term.sent@);
        lemma_sent_extends_trans(s3, r2, term.sent@);
    }
    // middle-shadow
    let ghost r3 = term.sent@;
    if pressed {
        term.push_cl_bg(clparbg);
    } else {
        term.write_str(scl_shadow.as_str());
    }
    proof {
        lemma_sent_extends_trans(s3, r3, term.sent@);
    }
    let ghost r4 = term.sent@;
    term.write_char(' ');
    proof {
        lemma_sent_extends_trans(s3, r4, term.sent@);
    }
    // lower half-line
    let ghost r5 = term.sent@;
    term.move_by(0i16.wrapping_sub(bnt_len).wrapping_sub(1), 1);
    proof {
        lemma_sent_extends_trans(s3, r5, term.sent@);
    }
    let ghost r6 = term.sent@;
    if pressed {
        term.push_cl_fg(clfg);
        let ghost t1 = term.sent@;
        term.push_cl_bg(clparbg);
        proof {
            lemma_sent_extends_trans(r6, t1, term.sent@);
        }
        let ghost t2 = term.sent@;
        term.write_char('▀');
        proof {
            lemma_sent_extends_trans(r6, t2, term.sent@);
        }
        let ghost t3 = term.sent@;
        term.push_cl_bg(clparbg);
        proof {
            lemma_sent_extends_trans(r6, t3, term.sent@);
        }
    } else {
        term.write_str(scl_bg2fg.as_str());
        let ghost t1 = term.sent@;
        term.push_cl_bg(clparbg);
        proof {
            lemma_sent_extends_trans(r6, t1, term.sent@);
        }
        let ghost t2 = term.sent@;
        term.write_char('▀');
        proof {
            lemma_sent_extends_trans(r6, t2, term.sent@);
        }
        let ghost t3 = term.sent@;
        term.write_str(scl_shadow.as_str());
        proof {
            lemma_sent_extends_trans(r6, t3, term.sent@);
        }
    }
    proof {
        lemma_sent_extends_trans(s3, r6, term.sent@);
    }
    let ghost r7 = term.sent@;
    term.write_char_n('▀', bnt_len.wrapping_sub(1));
    proof {
        lemma_sent_extends_trans(s3, r7, term.sent@);
    }
    // trailing shadow
    let ghost r8 = term.sent@;
    term.write_char(' ');
    proof {
        lemma_sent_extends_trans(s3, r8, term.sent@);
    }
    let ghost r9 = term.sent@;
    fm.restore(term);
    proof {
        lemma_sent_extends_trans(s3, r9, term.sent@);
    }
    proof {
        assert(s1 =~= s0 + goto);
        assert(s3 =~= s2 + button_face(ButtonStyle::Solid1p5, txt@));
        lemma_button_sent_1p5(s0, s1, p5, p6, p7, p8, s2, s3, term.sent@, goto, button_face(ButtonStyle::Solid1p5, txt@),
            focused, pressed, old(term).attr_faint, clbg, clfg);
    }
}

fn draw_button<P: Pal, W: WindowState>(term: &mut Term<P>, ws: &mut W, wst: &WidgetState, wgts: &'static [Widget], wgt: &'static Widget, prp: &prop::Button, parent_coord: Coord)
    ensures
        sent_extends(old(term).sent@, final(term).sent@),
        final(term).logs_row == old(term).logs_row,
        final(term).font() == old(term).font(),
        exists|label: Seq<char>, pre: Seq<char>, bt: Seq<char>, ft: Seq<char>, tail: Seq<char>, clfg: ColorFg|
            #![trigger drawn_with(
                cursor_goto_seq((parent_coord.row + wgt.coord.row) as nat, (parent_coord.col + wgt.coord.col) as nat),
                button_mid(prp.style, pre, old(ws).focus_spec(*wgt), is_pressed(*wgt, *wst), old(term).attr_faint, bt, ft),
                button_face(prp.style, label),
                tail,
            ), area_codes(button_bg(prp.style, is_pressed(*wgt, *wst), wgts@, *wgt), clfg, bt, ft)]
        {
            &&& prp.text@.len() > 0 ==> label == prp.text@
            &&& prp.text@.len() == 0 ==> label == old(ws).button_text_spec(*wgt)
            &&& !old(ws).focus_spec(*wgt) ==> clfg == inherited_fg(wgts@, *wgt, wgts@.len())
            &&& old(ws).focus_spec(*wgt) && !(18 <= fg_rank(inherited_fg(wgts@, *wgt, wgts@.len())) < 48)
                ==> clfg == fg_intensified(inherited_fg(wgts@, *wgt, wgts@.len()))
            &&& area_codes(button_bg(prp.style, is_pressed(*wgt, *wst), wgts@, *wgt), clfg, bt, ft)
            &&& final(term).sent@ == old(term).sent@ + drawn_with(
                cursor_goto_seq((parent_coord.row + wgt.coord.row) as nat, (parent_coord.col + wgt.coord.col) as nat),
                button_mid(prp.style, pre, old(ws).focus_spec(*wgt), is_pressed(*wgt, *wst), old(term).attr_faint, bt, ft),
                button_face(prp.style, label),
                tail,
            )
        },
{
    let focused = ws.is_focused(wgt);
    let pressed = wgt.id == wst.mouse_down_wgt;
    let clfg = term.intensify_fg_if(get_widget_fg_color(wgts, wgt), focused);
    let mut txt = String::new();
    if prp.text.unicode_len() > 0 {
        txt.push_str(prp.text);
    } else {
        ws.get_button_text(wgt, &mut txt);
    }
    assert(prp.text@.len() > 0 ==> txt@ =~= prp.text@);
    let (col, row) = abs_pos(parent_coord, wgt);
    let ghost goto = cursor_goto_seq(row as nat, col as nat);
    assert(goto == cursor_goto_seq((parent_coord.row + wgt.coord.row) as nat, (parent_coord.col + wgt.coord.col) as nat));
    match prp.style {
        ButtonStyle::Simple => {
            draw_button_simple(term, wgts, wgt, txt.as_str(), clfg, focused, pressed, col, row);
            proof {
                let (pre, bt, ft, tail) = choose|pre: Seq<char>, bt: Seq<char>, ft: Seq<char>, tail: Seq<char>|
                    area_codes(button_bg(ButtonStyle::Simple, pressed, wgts@, *wgt), clfg, bt, ft)
                    && term.sent@ == old(term).sent@ + #[trigger] drawn_with(goto,
                        button_mid(ButtonStyle::Simple, pre, focused, pressed, old(term).attr_faint, bt, ft), button_face(ButtonStyle::Simple, txt@), tail);
                assert(area_codes(button_bg(prp.style, pressed, wgts@, *wgt), clfg, bt, ft));
                assert(term.sent@ =~= old(term).sent@ + drawn_with(goto,
                    button_mid(prp.style, pre, focused, pressed, old(term).attr_faint, bt, ft), button_face(prp.style, txt@), tail));
            }
        },
        ButtonStyle::Solid => {
            draw_button_solid(term, wgts, wgt, txt.as_str(), clfg, focused, pressed, col, row);
            proof {
                let (pre, bt, ft, tail) = choose|pre: Seq<char>, bt: Seq<char>, ft: Seq<char>, tail: Seq<char>|
                    area_codes(button_bg(ButtonStyle::Solid, pressed, wgts@, *wgt), clfg, bt, ft)
                    && term.sent@ == old(term).sent@ + #[trigger] drawn_with(goto,
                        button_mid(ButtonStyle::Solid, pre, focused, pressed, old(term).attr_faint, bt, ft), button_face(ButtonStyle::Solid, txt@), tail);
                assert(area_codes(button_bg(prp.style, pressed, wgts@, *wgt), clfg, bt, ft));
                assert(term.sent@ =~= old(term).sent@ + drawn_with(goto,
                    button_mid(prp.style, pre, focused, pressed, old(term).attr_faint, bt, ft), button_face(prp.style, txt@), tail));
            }
        },
        ButtonStyle::Solid1p5 => {
            draw_button_solid1p5(term, wgts, wgt, txt.as_str(), clfg, focused, pressed, col, row);
            proof {
                let (pre, bt, ft, tail) = choose|pre: Seq<char>, bt: Seq<char>, ft: Seq<char>, tail: Seq<char>|
                    area_codes(button_bg(ButtonStyle::Solid1p5, pressed, wgts@, *wgt), clfg, bt, ft)
                    && term.sent@ == old(term).sent@ + #[trigger] drawn_with(goto,
                        button_mid(ButtonStyle::Solid1p5, pre, focused, pressed, old(term).attr_faint, bt, ft), button_face(ButtonStyle::Solid1p5, txt@), tail);
                assert(area_codes(button_bg(prp.style, pressed, wgts@, *wgt), clfg, bt, ft));
                assert(term.sent@ =~= old(term).sent@ + drawn_with(goto,
                    button_mid(prp.style, pre, focused, pressed, old(term).attr_faint, bt, ft), button_face(prp.style, txt@), tail));
            }
        },
    }
}

/// Tab title of a page: a marker when the page is the one shown, then its title, fitted to the
/// tab width `w`
pub open spec fn tab_text(title: Seq<char>, shown: bool, w: i16) -> Seq<char> {
    let t = seq![if shown { '►' } else { ' ' }] + title;
    fit_width(t, displayed_width_of(t), w)
}

/// The text `s` holds `x` somewhere
pub open spec fn holds_text(s: Seq<char>, x: Seq<char>) -> bool {
    exists|i: int| 0 <= i && i + x.len() <= s.len() && #[trigger] s.subrange(i, i + x.len()) == x
}

/// The tab title of a page at position `k`, `cur` being the position of the page shown, as
/// `tab_text` gives it, is in the text `s`
pub open spec fn tab_drawn(s: Seq<char>, page: Widget, k: int, cur: int, w: i16) -> bool {
    page.prop matches Property::Page(p) ==> holds_text(s, tab_text(p.title@, k == cur, w))
}

/// The tab of the page at position `k` among the page control's pages fits above its lower border
pub open spec fn tab_fits(k: int, wgt: Widget, prp: prop::PageCtrl) -> bool {
    wgt.size.height - 1 - prp.vert_offs < 0 || k < wgt.size.height - 1 - prp.vert_offs
}

/// Text that holds `x` still does once more text follows
proof fn lemma_holds_text_extends(a: Seq<char>, b: Seq<char>, x: Seq<char>)
    requires
        holds_text(a, x),
        sent_extends(a, b),
    ensures
        holds_text(b, x),
{
    lemma_sent_extends_split(a, b);
    let i = choose|i: int| 0 <= i && i + x.len() <= a.len() && #[trigger] a.subrange(i, i + x.len()) == x;
    assert(b.subrange(i, i + x.len()) =~= a.subrange(i, i + x.len()));
}

fn draw_page_control<P: Pal, W: WindowState>(term: &mut Term<P>, ws: &mut W, wst: &WidgetState, wgts: &'static [Widget], wgt: &'static Widget, prp: &prop::PageCtrl, parent_coord: Coord, fuel: usize)
    ensures
        all_restore_font(wgts@) ==> sent_extends(old(term).sent@, final(term).sent@),
        all_restore_font(wgts@) && faint_room(old(term).font(), fuel as int) ==> final(term).font() == old(term).font(),
        all_restore_font(wgts@) ==> exists|pre: Seq<char>| #[trigger] sent_extends(
            old(term).sent@ + pre + area_drawn(
                Coord {
                    col: sat_add_u8(sat_add_u8(parent_coord.col, wgt.coord.col), prp.tab_width),
                    row: sat_add_u8(sat_add_u8(parent_coord.row, wgt.coord.row), 0),
                },
                Size { width: sat_sub_u8(wgt.size.width, prp.tab_width), height: sat_sub_u8(wgt.size.height, 0) },
                FrameStyle::PgControl,
                true,
                false,
                ColorFg::Inherit,
                Seq::<char>::empty(),
                Seq::<char>::empty(),
            ),
            final(term).sent@,
        ),
        all_restore_font(wgts@) ==> forall|k: int|
            0 <= k < children_range(wgts@, *wgt).1 - children_range(wgts@, *wgt).0 && tab_fits(k, *wgt, *prp)
                ==> #[trigger] tab_drawn(
                    final(term).sent@,
                    wgts@[children_range(wgts@, *wgt).0 + k],
                    k,
                    old(ws).page_index_spec(*wgt) as int,
                    prp.tab_width as i16,
                ),
    decreases fuel, 3nat,
{
    let mut fm = FontMementoManual::from_term(term);
    proof {
        lemma_font_extends_refl(term.font());
    }
    let my_coord = parent_coord + wgt.coord;
    term.push_cl_bg(get_widget_bg_color(wgts, wgt));
    term.push_cl_fg(get_widget_fg_color(wgts, wgt));
    let ghost s_pre = term.sent@;
    let area_coord = my_coord + Coord::new(prp.tab_width, 0);
    let area_size = wgt.size - Size::new(prp.tab_width, 0);
    draw_area(term, area_coord, area_size, ColorBg::Inherit, ColorFg::Inherit, FrameStyle::PgControl, true, false);
    let ghost s_area = term.sent@;
    let ghost pre = s_pre.skip(old(term).sent@.len() as int);
    proof {
        lemma_sent_extends_split(old(term).sent@, s_pre);
        let (b, f) = choose|b: Seq<char>, f: Seq<char>|
            area_codes(ColorBg::Inherit, ColorFg::Inherit, b, f)
                && term.sent@ == s_pre + #[trigger] area_drawn(area_coord, area_size, FrameStyle::PgControl, true, false, ColorFg::Inherit, b, f);
        assert(s_area == old(term).sent@ + pre + area_drawn(area_coord, area_size, FrameStyle::PgControl, true, false, ColorFg::Inherit, Seq::<char>::empty(), Seq::<char>::empty()));
    }
    term.flush_buff();
    // tabs title
    {
        let mut strbuff = String::new();
        strbuff.push_n(' ', (prp.tab_width as i16 - 8) / 2);
        strbuff.push_str("≡ MENU ≡");
        strbuff.set_displayed_width(prp.tab_width as i16);
        term.move_to(my_coord.col as u16, my_coord.row as u16 + prp.vert_offs as u16);
        term.push_attr(FontAttrib::Inverse);
        term.write_str(strbuff.as_str());
        term.pop_attr();
    }
    term.flush_buff();
    // draw tabs and pages
    let cur_pg_idx: i16 = ws.get_page_ctrl_page_index(wgt);
    let children: &'static [Widget] = children_of(wgts, wgt);
    let mut idx: usize = 0;
    let ghost fl = term.font();
    let ghost lo = children_range(wgts@, *wgt).0;
    while idx < children.len()
        invariant_except_break
            all_restore_font(wgts@) ==> forall|k: int| 0 <= k < idx && tab_fits(k, *wgt, *prp) ==> #[trigger] tab_drawn(
                term.sent@,
                wgts@[lo + k],
                k,
                old(ws).page_index_spec(*wgt) as int,
                prp.tab_width as i16,
            ),
        invariant
            all_restore_font(wgts@) ==> sent_extends(old(term).sent@, term.sent@),
            all_restore_font(wgts@) ==> sent_extends(s_area, term.sent@),
            children@.len() <= 65535,
            all_restore_font(wgts@) && faint_room(old(term).font(), fuel as int) ==> term.font() == fl,
            fl.faint == old(term).font().faint,
            0 <= lo <= children_range(wgts@, *wgt).1 <= wgts@.len(),
            children@ == wgts@.subrange(lo, children_range(wgts@, *wgt).1),
            cur_pg_idx == old(ws).page_index_spec(*wgt),
            idx <= children@.len(),
        ensures
            all_restore_font(wgts@) ==> forall|k: int| 0 <= k < children@.len() && tab_fits(k, *wgt, *prp) ==> #[trigger] tab_drawn(
                term.sent@,
                wgts@[lo + k],
                k,
                old(ws).page_index_spec(*wgt) as int,
                prp.tab_width as i16,
            ),
        decreases children@.len() - idx,
    {
        let ghost s_it = term.sent@;
        let page: &'static Widget = &children[idx];
        assert(*page == wgts@[lo + idx]);
        // check if page is below lower border
        if idx as i32 == wgt.size.height as i32 - 1 - prp.vert_offs as i32 {
            break;
        }
        match page.prop {
            Property::Page(page_prp) => {
                // draw tab title
                let is_cur = idx as i32 == cur_pg_idx as i32;
                let mut strbuff = String::new();
                strbuff.push(if is_cur { '►' } else { ' ' });
                strbuff.push_str(page_prp.title);
                assert(strbuff@ =~= seq![if is_cur { '►' } else { ' ' }] + page_prp.title@);
                strbuff.set_displayed_width(prp.tab_width as i16);
                assert(strbuff@ == tab_text(page_prp.title@, idx == old(ws).page_index_spec(*wgt), prp.tab_width as i16));
                // for Page we do not want inherit after it's title color
                let clfg = if page_prp.fg_color == ColorFg::Inherit {
                    get_widget_fg_color(wgts, page)
                } else {
                    page_prp.fg_color
                };
                term.move_to(
                    my_coord.col as u16,
                    (my_coord.row as u16 + prp.vert_offs as u16).wrapping_add(idx as u16).wrapping_add(1),
                );
                let ghost g0 = term.font();
                term.push_cl_fg(clfg);
                let ghost g1 = term.font();
                if is_cur {
                    term.push_attr(FontAttrib::Inverse);
                }
                let ghost s_w = term.sent@;
                term.write_str(strbuff.as_str());
                proof {
                    let x = strbuff@;
                    assert(term.sent@.subrange(s_w.len() as int, (s_w.len() + x.len()) as int) =~= x);
                    assert(holds_text(term.sent@, x));
                }
                let ghost s_t = term.sent@;
                if is_cur {
                    term.pop_attr();
                    proof {
                        lemma_push_pop_attr(g1, FontAttrib::Inverse);
                    }
                }
                term.pop_cl_fg();
                proof {
                    lemma_push_pop_fg(g0, clfg);
                }
                // when checking if page is visible, here we can call the window state directly
                if is_cur && ws.is_visible(page) {
                    term.flush_buff();
                    draw_page(term, ws, wst, wgts, page, &page_prp, my_coord, false, fuel);
                }
                proof {
                    if all_restore_font(wgts@) {
                        lemma_holds_text_extends(s_t, term.sent@, strbuff@);
                    }
                }
            },
            _ => {},
        }
        proof {
            if all_restore_font(wgts@) {
                assert forall|k: int| 0 <= k < idx + 1 && tab_fits(k, *wgt, *prp) implies #[trigger] tab_drawn(
                    term.sent@,
                    wgts@[lo + k],
                    k,
                    old(ws).page_index_spec(*wgt) as int,
                    prp.tab_width as i16,
                ) by {
                    if k < idx {
                        assert(tab_drawn(s_it, wgts@[lo + k], k, old(ws).page_index_spec(*wgt) as int, prp.tab_width as i16));
                        match wgts@[lo + k].prop {
                            Property::Page(p) => {
                                lemma_holds_text_extends(s_it, term.sent@, tab_text(p.title@, k == old(ws).page_index_spec(*wgt), prp.tab_width as i16));
                            },
                            _ => {},
                        }
                    }
                }
            }
        }
        idx = idx + 1;
    }
    let ghost s_loop = term.sent@;
    fm.restore(term);
    proof {
        if all_restore_font(wgts@) {
            assert forall|k: int|
                0 <= k < children_range(wgts@, *wgt).1 - children_range(wgts@, *wgt).0 && tab_fits(k, *wgt, *prp)
                    implies #[trigger] tab_drawn(
                        term.sent@,
                        wgts@[children_range(wgts@, *wgt).0 + k],
                        k,
                        old(ws).page_index_spec(*wgt) as int,
                        prp.tab_width as i16,
                    ) by {
                assert(tab_drawn(s_loop, wgts@[lo + k], k, old(ws).page_index_spec(*wgt) as int, prp.tab_width as i16));
                match wgts@[lo + k].prop {
                    Property::Page(p) => {
                        lemma_holds_text_extends(s_loop, term.sent@, tab_text(p.title@, k == old(ws).page_index_spec(*wgt), prp.tab_width as i16));
                    },
                    _ => {},
                }
            }
            assert(sent_extends(s_area, term.sent@));
            assert(sent_extends(old(term).sent@ + pre + area_drawn(area_coord, area_size, FrameStyle::PgControl, true, false, ColorFg::Inherit, Seq::<char>::empty(), Seq::<char>::empty()), term.sent@));
        }
    }
}

fn draw_page<P: Pal, W: WindowState>(term: &mut Term<P>, ws: &mut W, wst: &WidgetState, wgts: &'static [Widget], page: &'static Widget, prp: &prop::Page, parent_coord: Coord, erase_bg: bool, fuel: usize)
    ensures
        all_restore_font(wgts@) ==> sent_extends(old(term).sent@, final(term).sent@),
        all_restore_font(wgts@) && faint_room(old(term).font(), fuel as int) ==> final(term).font() == old(term).font(),
        all_restore_font(wgts@) && erase_bg && parent_of(wgts@, *page).prop is PageCtrl ==> sent_extends(
            old(term).sent@ + #[trigger] area_drawn(
                Coord {
                    col: sat_add_u8(parent_coord.col, page.coord.col).wrapping_add(parent_of(wgts@, *page).prop->PageCtrl_0.tab_width),
                    row: sat_add_u8(parent_coord.row, page.coord.row),
                },
                Size {
                    width: sat_sub_u8(parent_of(wgts@, *page).size.width, parent_of(wgts@, *page).prop->PageCtrl_0.tab_width),
                    height: sat_sub_u8(parent_of(wgts@, *page).size.height, 0),
                },
                FrameStyle::PgControl,
                true,
                false,
                ColorFg::Inherit,
                Seq::<char>::empty(),
                Seq::<char>::empty(),
            ),
            final(term).sent@,
        ),
    decreases fuel, 2nat,
{
    let pgctrl = get_parent(wgts, page);
    let mut my_coord = parent_coord + page.coord;
    let tab_width = match pgctrl.prop {
        Property::PageCtrl(p) => p.tab_width,
        _ => {
            return;
        },
    };
    my_coord.col = my_coord.col.wrapping_add(tab_width);
    if erase_bg {
        let my_size = pgctrl.size - Size::new(tab_width, 0);
        draw_area(term, my_coord, my_size, ColorBg::Inherit, ColorFg::Inherit, FrameStyle::PgControl, true, false);
        proof {
            let (b, f) = choose|b: Seq<char>, f: Seq<char>|
                area_codes(ColorBg::Inherit, ColorFg::Inherit, b, f)
                    && term.sent@ == old(term).sent@ + #[trigger] area_drawn(my_coord, my_size, FrameStyle::PgControl, true, false, ColorFg::Inherit, b, f);
            assert(term.sent@ == old(term).sent@ + area_drawn(my_coord, my_size, FrameStyle::PgControl, true, false, ColorFg::Inherit, Seq::<char>::empty(), Seq::<char>::empty()));
        }
    }
    let ghost s_area = term.sent@;
    // draw childrens
    draw_children(term, ws, wst, wgts, page, my_coord, fuel);
    proof {
        if all_restore_font(wgts@) && erase_bg {
            assert(sent_extends(s_area, term.sent@));
        }
    }
}

/// Text `t` between the codes `on`, that set its color, and `off`, that set the color back
pub open spec fn colored(on: Seq<char>, t: Seq<char>, off: Seq<char>) -> Seq<char> {
    on + t + off
}

/// Quotient of a division rounded toward zero, as Rust's `/` computes it
pub open spec fn trunc_div(a: int, b: int) -> int {
    if a >= 0 { a / b } else { -((-a) / b) }
}

/// `v` kept in the range of `i16`
pub open spec fn clamp_i16(v: int) -> int {
    if v < i16::MIN { i16::MIN as int } else if v > i16::MAX { i16::MAX as int } else { v }
}

/// The characters of a progress bar's filled and empty parts
pub open spec fn pgbar_chars(style: PgBarStyle) -> (char, char) {
    match style {
        PgBarStyle::Hash => ('#', '.'),
        PgBarStyle::Shade => ('█', '▒'),
        PgBarStyle::Rectangle => ('■', '□'),
    }
}

/// Length of the filled part of a progress bar `width` wide at `pos` of `max`: a `max` under 1
/// counts as 1, a `pos` over `max` as `max`
pub open spec fn pgbar_fill(width: int, pos: int, max: int) -> int {
    let m = if max <= 0 { 1 } else { max };
    let p = if pos > m { m } else { pos };
    clamp_i16(trunc_div(p * width, m))
}

/// Text of a progress bar: the filled part, then the empty part up to the width
pub open spec fn pgbar_text(style: PgBarStyle, width: u8, pos: i32, max: i32) -> Seq<char> {
    let fill = pgbar_fill(width as int, pos as int, max as int);
    let rest = width - fill;
    repeat_char(pgbar_chars(style).0, fill) + repeat_char(pgbar_chars(style).1, if rest > i16::MAX { i16::MAX as int } else { rest })
}

/// A progress bar at `pos` of `max` is `width` characters: the first `pos * width / max`
/// (rounded down) filled, the others empty; empty at 0, full at `max`
pub proof fn lemma_pgbar_law(style: PgBarStyle, width: u8, pos: i32, max: i32)
    requires
        0 <= pos <= max,
        0 < max,
    ensures
        ({
            let t = pgbar_text(style, width, pos, max);
            let f = (pos * width) / (max as int);
            &&& 0 <= f <= width
            &&& t.len() == width
            &&& forall|i: int| 0 <= i < f ==> #[trigger] t[i] == pgbar_chars(style).0
            &&& forall|i: int| f <= i < width ==> #[trigger] t[i] == pgbar_chars(style).1
            &&& pos == 0 ==> f == 0
            &&& pos == max ==> f == width
        }),
{
    let f = (pos * width) / (max as int);
    assert(0 <= pos * width <= max * width) by (nonlinear_arith)
        requires
            0 <= pos <= max,
            0 <= width,
    ;
    assert(0 <= f <= width) by (nonlinear_arith)
        requires
            0 <= pos * width <= max * width,
            0 < max,
            f == (pos * width) / (max as int),
    ;
    assert(pos == max ==> f == width) by (nonlinear_arith)
        requires
            f == (pos * width) / (max as int),
            0 < max,
    ;
    assert(pgbar_fill(width as int, pos as int, max as int) == f);
    let t = pgbar_text(style, width, pos, max);
    assert(t.len() == width);
}

/// Text of a progress bar `width` wide at `pos` of `max`
pub fn progress_bar_text(style: PgBarStyle, width: u8, pos: i32, max: i32) -> (r: String)
    ensures
        r@ == pgbar_text(style, width, pos, max),
{
    let max: i32 = if max <= 0 { 1 } else { max };
    let pos: i32 = if pos > max { max } else { pos };
    let (c_fill, c_empty) = match style {
        PgBarStyle::Hash => ('#', '.'),
        PgBarStyle::Shade => ('█', '▒'),
        PgBarStyle::Rectangle => ('■', '□'),
    };
    let w: i64 = width as i64;
    assert(-2147483648 * 255 <= pos as i64 * w <= 2147483647 * 255) by (nonlinear_arith)
        requires
            i32::MIN <= pos <= i32::MAX,
            0 <= w <= 255,
    ;
    let fill: i64 = (pos as i64 * w) / max as i64;
    let fill_len: i16 = if fill < -32768 { -32768 } else if fill > 32767 { 32767 } else { fill as i16 };
    let mut strbuff = String::new();
    strbuff.push_n(c_fill, fill_len);
    let rest: i32 = w as i32 - fill_len as i32;
    strbuff.push_n(c_empty, if rest > 32767 { 32767 } else { rest as i16 });
    strbuff
}

fn draw_progress_bar<P: Pal, W: WindowState>(term: &mut Term<P>, ws: &mut W, wgts: &'static [Widget], wgt: &'static Widget, prp: &prop::ProgressBar, parent_coord: Coord)
    ensures
        sent_extends(old(term).sent@, final(term).sent@),
        final(term).logs_row == old(term).logs_row,
        final(term).font() == old(term).font(),
        exists|pos: i32, max: i32, a: Seq<char>, b: Seq<char>| {
            &&& final(term).sent@ == old(term).sent@
                + cursor_goto_seq((parent_coord.row + wgt.coord.row) as nat, (parent_coord.col + wgt.coord.col) as nat)
                + #[trigger] colored(a, pgbar_text(prp.style, wgt.size.width, pos, max), b)
            &&& !fg_is_theme(inherited_fg(wgts@, *wgt, wgts@.len())) ==> a == fg_code(inherited_fg(wgts@, *wgt, wgts@.len()))@
            &&& !fg_is_theme(old(term).current_cl_fg) ==> b == fg_code(old(term).current_cl_fg)@
        },
{
    let mut pbs = PgbarState::default();
    ws.get_progress_bar_state(wgt, &mut pbs);
    let (col, row) = abs_pos(parent_coord, wgt);
    let ghost s0 = term.sent@;
    term.move_to(col, row);
    let strbuff = progress_bar_text(prp.style, wgt.size.width, pbs.pos, pbs.max);
    let ghost f0 = term.font();
    let clfg = get_widget_fg_color(wgts, wgt);
    let ghost s1 = term.sent@;
    term.push_cl_fg(clfg);
    let ghost s2 = term.sent@;
    term.write_str(strbuff.as_str());
    let ghost s3 = term.sent@;
    term.pop_cl_fg();
    proof {
        lemma_push_pop_fg(f0, clfg);
        let a = s2.skip(s1.len() as int);
        let b = term.sent@.skip(s3.len() as int);
        lemma_sent_extends_split(s1, s2);
        lemma_sent_extends_split(s3, term.sent@);
        assert(s2 =~= s1 + a);
        assert(term.sent@ =~= s3 + b);
        assert(term.sent@ =~= s0 + cursor_goto_seq(row as nat, col as nat) + colored(a, pgbar_text(prp.style, wgt.size.width, pbs.pos, pbs.max), b));
    }
}

fn draw_list_box<P: Pal, W: WindowState>(term: &mut Term<P>, ws: &mut W, wgt: &'static Widget, prp: &prop::ListBox, parent_coord: Coord)
    ensures
        sent_extends(old(term).sent@, final(term).sent@),
        final(term).logs_row == old(term).logs_row,
        wgt.size.height >= 3 ==> final(term).font() == old(term).font(),
        wgt.size.height < 3 ==> final(term).font() == area_font(old(term).font(), prp.bg_color, prp.fg_color),
{
    let mut fm = FontMementoManual::from_term(term);
    proof {
        lemma_font_extends_refl(term.font());
    }
    let my_coord = parent_coord + wgt.coord;
    draw_area(
        term,
        my_coord,
        wgt.size,
        prp.bg_color,
        prp.fg_color,
        if prp.no_frame { FrameStyle::NoFrame } else { FrameStyle::ListBox },
        false,
        false,
    );
    if wgt.size.height < 3 {
        return;
    }
    let mut lbs = LbxState::default();
    ws.get_list_box_state(wgt, &mut lbs);
    let frame_size: u8 = if prp.no_frame { 0 } else { 1 };
    let items_visible: i16 = wgt.size.height as i16 - (frame_size as i16 * 2);
    let top_item: i16 = page_top(lbs.sel_idx, items_visible);
    let dlp = DrawListParams {
        coord: my_coord,
        item_idx: lbs.item_idx,
        sel_idx: lbs.sel_idx,
        items_cnt: lbs.items_cnt,
        items_visible,
        top_item,
        focused: ws.is_focused(wgt),
        wgt_width: wgt.size.width,
        frame_size,
    };
    draw_list(term, ws, wgt, &dlp, false);
    fm.restore(term);
}

#[verifier::rlimit(40)]
fn draw_combo_box<P: Pal, W: WindowState>(term: &mut Term<P>, ws: &mut W, wgts: &'static [Widget], wgt: &'static Widget, prp: &prop::ComboBox, parent_coord: Coord)
    ensures
        sent_extends(old(term).sent@, final(term).sent@),
        final(term).logs_row == old(term).logs_row,
        final(term).font() == old(term).font(),
        exists|item: Seq<char>, mid: Seq<char>, tail: Seq<char>|
            final(term).sent@ == old(term).sent@ + #[trigger] drawn_with(
                cursor_goto_seq(sat_add_u8(parent_coord.row, wgt.coord.row) as nat, sat_add_u8(parent_coord.col, wgt.coord.col) as nat),
                mid,
                combo_face(item, wgt.size.width, old(ws).combo_state_spec(*wgt).drop_down),
                tail,
            ),
{
    let ghost mut s1 = term.sent@;
    let ghost mut s2 = term.sent@;
    let ghost mut s3 = term.sent@;
    let ghost mut dropped = false;
    let ghost mut item_g: Seq<char> = Seq::empty();
    let mut fm = FontMementoManual::from_term(term);
    proof {
        lemma_font_extends_refl(term.font());
    }
    let my_coord = parent_coord + wgt.coord;
    let focused = ws.is_focused(wgt);
    let mut cbs = CbbxState::default();
    ws.get_combo_box_state(wgt, &mut cbs);
    {
        let mut strbuff = String::new();
        strbuff.push(' ');
        ws.get_combo_box_item(wgt, cbs.item_idx, &mut strbuff);
        let ghost item = strbuff@;
        strbuff.set_displayed_width(wgt.size.width as i16 - 4);
        proof {
            reveal_strlit(" [▲]");
            reveal_strlit(" [▼]");
        }
        strbuff.push_str(if cbs.drop_down { " [▲]" } else { " [▼]" });
        assert(strbuff@ =~= combo_face(item, wgt.size.width, cbs.drop_down));
        term.move_to(my_coord.col as u16, my_coord.row as u16);
        proof {
            s1 = term.sent@;
        }
        term.push_cl_fg(get_widget_fg_color(wgts, wgt));
        term.push_cl_bg(get_widget_bg_color(wgts, wgt));
        if focused && !cbs.drop_down {
            term.push_attr(FontAttrib::Inverse);
        }
        if cbs.drop_down {
            term.push_attr(FontAttrib::Underline);
        }
        if focused {
            term.push_attr(FontAttrib::Bold);
        }
        proof {
            s2 = term.sent@;
            dropped = cbs.drop_down;
            item_g = item;
        }
        term.write_str(strbuff.as_str());
        proof {
            s3 = term.sent@;
        }
        if focused {
            term.pop_attr();
        }
        if cbs.drop_down {
            term.pop_attr();
        }
    }
    if cbs.drop_down {
        let items_visible: i16 = prp.drop_down_size as i16;
        let top_item: i16 = if items_visible > 0 { page_top(cbs.sel_idx, items_visible) } else { 0 };
        let dlp = DrawListParams {
            coord: Coord::new(my_coord.col, my_coord.row.wrapping_add(1)),
            item_idx: cbs.item_idx,
            sel_idx: cbs.sel_idx,
            items_cnt: cbs.items_cnt,
            items_visible,
            top_item,
            focused,
            wgt_width: wgt.size.width,
            frame_size: 0,
        };
        draw_list(term, ws, wgt, &dlp, true);
    }
    fm.restore(term);
    proof {
        lemma_sent_extends_split(s1, s2);
        lemma_sent_extends_split(s3, term.sent@);
        let mid = s2.skip(s1.len() as int);
        let tail = term.sent@.skip(s3.len() as int);
        let goto = cursor_goto_seq(sat_add_u8(parent_coord.row, wgt.coord.row) as nat, sat_add_u8(parent_coord.col, wgt.coord.col) as nat);
        assert(s1 == old(term).sent@ + goto);
        assert(term.sent@ =~= old(term).sent@ + drawn_with(goto, mid, combo_face(item_g, wgt.size.width, dropped), tail));
    }
}

/// Text of a combo box: the text of its item (after a space the window's text follows) fitted to
/// the width, then the drop-down mark
pub open spec fn combo_face(t: Seq<char>, w: u8, dropped: bool) -> Seq<char> {
    fit_width(t, displayed_width_of(t), (w - 4) as i16)
        + (if dropped { seq![' ', '[', '▲', ']'] } else { seq![' ', '[', '▼', ']'] })
}

/// A combo box's face ends with the up arrow `▲` exactly when its list is open, with the down
/// arrow `▼` otherwise
pub proof fn lemma_combo_face_arrow(t: Seq<char>, w: u8, dropped: bool)
    ensures
        ({
            let f = combo_face(t, w, dropped);
            &&& f.len() >= 4
            &&& f[f.len() - 4] == ' ' && f[f.len() - 3] == '[' && f[f.len() - 1] == ']'
            &&& (f[f.len() - 2] == '▲') == dropped
            &&& (f[f.len() - 2] == '▼') == !dropped
        }),
{
}

fn draw_custom_wgt<P: Pal, W: WindowState>(term: &mut Term<P>, ws: &mut W, wgt: &'static Widget) {
    ws.on_custom_widget_draw(wgt, term);
}

/// Text of row `k` of a text box placed at `coord` whose lines are `lines`, the first shown being
/// `top`: the cursor put at the row's start, inside the frame, then line `top + k` (nothing past
/// the last line) fitted to `w` columns
pub open spec fn text_box_row(lines: Seq<Seq<char>>, top: int, k: int, w: i16, coord: Coord) -> Seq<char> {
    let line = if 0 <= top + k < lines.len() { lines[top + k] } else { Seq::<char>::empty() };
    cursor_goto_seq((coord.row + k + 1) as nat, (coord.col + 1) as nat) + fit_width(line, displayed_width_of(line), w)
}

/// Text of the first `n` rows of a text box, as `text_box_row` gives each
pub open spec fn text_box_rows(lines: Seq<Seq<char>>, top: int, n: int, w: i16, coord: Coord) -> Seq<char>
    decreases n,
{
    if n <= 0 {
        Seq::empty()
    } else {
        text_box_rows(lines, top, n - 1, w, coord) + text_box_row(lines, top, n - 1, w, coord)
    }
}

#[verifier::rlimit(60)]
fn draw_text_box<P: Pal, W: WindowState>(term: &mut Term<P>, ws: &mut W, wgt: &'static Widget, prp: &prop::TextBox, parent_coord: Coord)
    ensures
        sent_extends(old(term).sent@, final(term).sent@),
        final(term).logs_row == old(term).logs_row,
        final(term).font() == old(term).font(),
        wgt.size.height >= 3 ==> exists|bg_txt: Seq<char>, fg_txt: Seq<char>, lines: Seq<Seq<char>>, top: int, mid: Seq<char>, tail: Seq<char>| {
            &&& area_codes(prp.bg_color, prp.fg_color, bg_txt, fg_txt)
            &&& top >= 0
            &&& final(term).sent@ == old(term).sent@ + #[trigger] drawn_with(
                area_drawn(
                    Coord { col: sat_add_u8(parent_coord.col, wgt.coord.col), row: sat_add_u8(parent_coord.row, wgt.coord.row) },
                    wgt.size,
                    FrameStyle::ListBox,
                    false,
                    false,
                    prp.fg_color,
                    bg_txt,
                    fg_txt,
                ),
                mid,
                text_box_rows(
                    lines,
                    top,
                    wgt.size.height - 2,
                    (wgt.size.width - 2) as i16,
                    Coord { col: sat_add_u8(parent_coord.col, wgt.coord.col), row: sat_add_u8(parent_coord.row, wgt.coord.row) },
                ),
                tail,
            )
        },
        exists|bg_txt: Seq<char>, fg_txt: Seq<char>| {
            &&& area_codes(prp.bg_color, prp.fg_color, bg_txt, fg_txt)
            &&& sent_extends(
                old(term).sent@ + #[trigger] area_drawn(
                    Coord { col: sat_add_u8(parent_coord.col, wgt.coord.col), row: sat_add_u8(parent_coord.row, wgt.coord.row) },
                    wgt.size,
                    FrameStyle::ListBox,
                    false,
                    false,
                    prp.fg_color,
                    bg_txt,
                    fg_txt,
                ),
                final(term).sent@,
            )
        },
{
    let mut fm = FontMementoManual::from_term(term);
    proof {
        lemma_font_extends_refl(term.font());
    }
    let my_coord = parent_coord + wgt.coord;
    draw_area(term, my_coord, wgt.size, prp.bg_color, prp.fg_color, FrameStyle::ListBox, false, false);
    let ghost s_area = term.sent@;
    let ghost (bg_txt, fg_txt) = choose|bg_txt: Seq<char>, fg_txt: Seq<char>|
        area_codes(prp.bg_color, prp.fg_color, bg_txt, fg_txt)
            && s_area == old(term).sent@ + #[trigger] area_drawn(my_coord, wgt.size, FrameStyle::ListBox, false, false, prp.fg_color, bg_txt, fg_txt);
    if wgt.size.height < 3 {
        fm.restore(term);
        assert(sent_extends(old(term).sent@ + area_drawn(my_coord, wgt.size, FrameStyle::ListBox, false, false, prp.fg_color, bg_txt, fg_txt), term.sent@));
        return;
    }
    let lines_visible: i16 = wgt.size.height as i16 - 2;
    let mut tbs = TxtbxState::default();
    ws.get_text_box_state(wgt, &mut tbs);
    let n_lines: i16 = if tbs.lines.len() <= 32767 { tbs.lines.len() as i16 } else { 32767 };
    if tbs.top_line > n_lines {
        tbs.top_line = n_lines - lines_visible;
        ws.on_text_box_scroll(wgt, tbs.top_line);
    }
    if tbs.top_line < 0 {
        ws.on_text_box_scroll(wgt, tbs.top_line);
        tbs.top_line = 0;
    }
    draw_list_scroll_bar_v(
        term,
        my_coord + Coord::new(wgt.size.width.wrapping_sub(1), 1),
        lines_visible,
        n_lines - lines_visible,
        tbs.top_line,
    );
    term.flush_buff();
    // scan invisible lines (because scrolled down) for ESC sequences: colors, font attributes
    let mut strbuff = String::new();
    let mut i: usize = 0;
    let ghost fl = term.font();
    while i < tbs.top_line as usize && i < tbs.lines.len()
        invariant
            sent_extends(old(term).sent@, term.sent@),
            sent_extends(s_area, term.sent@),
            term.logs_row == old(term).logs_row,
            term.font() == fl,
            tbs.top_line >= 0,
        decreases tbs.lines@.len() - i,
    {
        let cs = chars_of(tbs.lines[i].as_str());
        let mut j: usize = 0;
        while j < cs.len()
            decreases cs@.len() - j,
        {
            if cs[j] == '\x1B' {
                // get the sequence and push it to the output stream
                let esclen = esc_len_chars_in(&cs, j);
                let end = if esclen <= cs.len() - j { j + esclen } else { cs.len() };
                push_chars(&mut strbuff, &cs, j, end);
            }
            j = j + 1;
        }
        i = i + 1;
    }
    term.write_str(strbuff.as_str());
    // draw lines
    let ghost lines = tbs.lines@.map_values(|l: String| l@);
    let ghost s_rows = term.sent@;
    proof {
        lemma_sent_extends_split(s_area, s_rows);
    }
    let mut k: i16 = 0;
    while k < lines_visible
        invariant
            sent_extends(old(term).sent@, term.sent@),
            sent_extends(s_area, s_rows),
            term.logs_row == old(term).logs_row,
            term.font() == fl,
            tbs.top_line >= 0,
            0 <= k <= lines_visible,
            lines_visible == wgt.size.height - 2,
            my_coord.row < 256,
            lines == tbs.lines@.map_values(|l: String| l@),
            term.sent@ == s_rows + text_box_rows(lines, tbs.top_line as int, k as int, (wgt.size.width - 2) as i16, my_coord),
        decreases lines_visible - k,
    {
        let ghost s_k = term.sent@;
        assert(lines.len() == tbs.lines@.len());
        let mut line_buff = String::new();
        let li: usize = tbs.top_line as usize + k as usize;
        if li < tbs.lines.len() {
            line_buff.push_str(tbs.lines[li].as_str());
            assert(line_buff@ == lines[li as int]);
        } else {
            assert(line_buff@ =~= Seq::<char>::empty());
        }
        let ghost line = line_buff@;
        line_buff.set_displayed_width(wgt.size.width as i16 - 2);
        assert(line_buff@ == fit_width(line, displayed_width_of(line), (wgt.size.width - 2) as i16));
        let row: u16 = (my_coord.row as u16).wrapping_add(k as u16).wrapping_add(1);
        assert(row == my_coord.row + k + 1);
        term.move_to(my_coord.col as u16 + 1, row);
        assert(term.sent@ == s_k + cursor_goto_seq((my_coord.row + k + 1) as nat, (my_coord.col + 1) as nat));
        term.write_str(line_buff.as_str());
        assert(line == (if 0 <= tbs.top_line + k < lines.len() { lines[tbs.top_line + k] } else { Seq::<char>::empty() }));
        assert(term.sent@ =~= s_k + text_box_row(lines, tbs.top_line as int, k as int, (wgt.size.width - 2) as i16, my_coord));
        assert(text_box_rows(lines, tbs.top_line as int, k + 1, (wgt.size.width - 2) as i16, my_coord)
            == text_box_rows(lines, tbs.top_line as int, k as int, (wgt.size.width - 2) as i16, my_coord)
                + text_box_row(lines, tbs.top_line as int, k as int, (wgt.size.width - 2) as i16, my_coord));
        assert(term.sent@ =~= s_rows + text_box_rows(lines, tbs.top_line as int, k + 1, (wgt.size.width - 2) as i16, my_coord));
        k = k + 1;
    }
    let ghost s_end = term.sent@;
    term.flush_buff();
    fm.restore(term);
    proof {
        lemma_sent_extends_append(s_rows, text_box_rows(lines, tbs.top_line as int, lines_visible as int, (wgt.size.width - 2) as i16, my_coord));
        lemma_sent_extends_trans(s_area, s_rows, s_end);
        lemma_sent_extends_trans(s_area, s_end, term.sent@);
        lemma_sent_extends_split(s_end, term.sent@);
        let mid = s_rows.skip(s_area.len() as int);
        let tail = term.sent@.skip(s_end.len() as int);
        assert(term.sent@ =~= old(term).sent@ + drawn_with(area_drawn(my_coord, wgt.size, FrameStyle::ListBox, false, false, prp.fg_color, bg_txt, fg_txt),
            mid, text_box_rows(lines, tbs.top_line as int, lines_visible as int, (wgt.size.width - 2) as i16, my_coord), tail));
    }
    assert(sent_extends(old(term).sent@ + area_drawn(my_coord, wgt.size, FrameStyle::ListBox, false, false, prp.fg_color, bg_txt, fg_txt), term.sent@));
}

fn draw_layer<P: Pal, W: WindowState>(term: &mut Term<P>, ws: &mut W, wst: &WidgetState, wgts: &'static [Widget], wgt: &'static Widget, parent_coord: Coord, fuel: usize)
    ensures
        all_restore_font(wgts@) ==> sent_extends(old(term).sent@, final(term).sent@),
        all_restore_font(wgts@) && faint_room(old(term).font(), fuel as int) ==> final(term).font() == old(term).font(),
    decreases fuel, 2nat,
{
    // draw only childrens; to erase, redraw layer's parent
    draw_children(term, ws, wst, wgts, wgt, parent_coord, fuel);
}

} // verus!
