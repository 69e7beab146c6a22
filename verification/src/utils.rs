//! # RTWins Utils

use vstd::prelude::*;
use crate::esc;
use crate::input::InputEvent;
use crate::input::InputInfo;
use crate::input::Key;
use crate::input::KEY_MOD_CTRL;
use crate::input::KEY_MOD_SHIFT;
use crate::pal::Pal;
use crate::string_ext::chars_of;
use crate::string_ext::displayed_width_of;
use crate::string_ext::push_chars;
use crate::string_ext::StrExt;
use crate::terminal::Term;

verus! {

/// Number of bytes of the UTF-8 sequence that begins with the byte `b` (RFC 3629);
/// 0 when `b` cannot begin a sequence
pub open spec fn spec_utf8_char_width(b: u8) -> usize {
    if b <= 0x7F {
        1
    } else if b < 0xC2 {
        0
    } else if b <= 0xDF {
        2
    } else if b <= 0xEF {
        3
    } else if b <= 0xF4 {
        4
    } else {
        0
    }
}

/// Given a first byte, determines how many bytes are in this UTF-8 character.
pub fn utf8_char_width(b: u8) -> (r: usize)
    ensures
        r == spec_utf8_char_width(b),
        r <= 4,
{
    if b <= 0x7F {
        1
    } else if b < 0xC2 {
        0
    } else if b <= 0xDF {
        2
    } else if b <= 0xEF {
        3
    } else if b <= 0xF4 {
        4
    } else {
        0
    }
}

/// The decimal digit character for `d` (`'0'` to `'9'`)
pub open spec fn digit_char(d: nat) -> char {
    ((48 + d) as u8) as char
}

/// Decimal representation of a natural number, without leading zeros
pub open spec fn nat_to_dec(n: nat) -> Seq<char>
    decreases n,
{
    if n < 10 {
        seq![digit_char(n)]
    } else {
        nat_to_dec(n / 10).push(digit_char(n % 10))
    }
}

/// Decimal representation of an integer, with a leading `-` for negative values
pub open spec fn int_to_dec(i: int) -> Seq<char> {
    if i < 0 {
        seq!['-'] + nat_to_dec((-i) as nat)
    } else {
        nat_to_dec(i as nat)
    }
}

/// Appends the decimal representation of `n` to `s`
pub fn push_dec_u64(s: &mut String, n: u64)
    ensures
        final(s)@ == old(s)@ + nat_to_dec(n as nat),
    decreases n,
{
    if n >= 10 {
        push_dec_u64(s, n / 10);
    }
    let d: u8 = (n % 10) as u8;
    let c: char = (48u8 + d) as char;
    s.push(c);
    proof {
        if n >= 10 {
            assert(old(s)@ + nat_to_dec(n as nat) =~= old(s)@ + nat_to_dec((n / 10) as nat) + seq![c]);
        } else {
            assert(old(s)@ + nat_to_dec(n as nat) =~= old(s)@ + seq![c]);
        }
    }
}

/// Appends the decimal representation of `n` to `s`
pub fn push_dec_i64(s: &mut String, n: i64)
    ensures
        final(s)@ == old(s)@ + int_to_dec(n as int),
{
    if n < 0 {
        s.push('-');
        let m: u64 = if n == i64::MIN { 0x8000_0000_0000_0000u64 } else { (-n) as u64 };
        push_dec_u64(s, m);
        assert(final(s)@ =~= old(s)@ + int_to_dec(n as int));
    } else {
        push_dec_u64(s, n as u64);
    }
}

/// Decimal representation of `n` as a new string
pub fn dec_string(n: i64) -> (r: String)
    ensures
        r@ == int_to_dec(n as int),
{
    let mut s = String::new();
    push_dec_i64(&mut s, n);
    assert(s@ =~= int_to_dec(n as int));
    s
}

/// A decimal digit, `'0'` to `'9'`
pub open spec fn is_dec_digit(c: char) -> bool {
    '0' <= c && c <= '9'
}

/// Every character of `s` is a decimal digit
pub open spec fn all_dec_digits(s: Seq<char>) -> bool {
    forall|i: int| 0 <= i < s.len() ==> is_dec_digit(#[trigger] s[i])
}

/// The number written by the decimal digits `s`, most significant first
pub open spec fn dec_digits_value(s: Seq<char>) -> nat
    decreases s.len(),
{
    if s.len() == 0 {
        0
    } else {
        dec_digits_value(s.drop_last()) * 10 + ((s.last() as int - 48) as nat)
    }
}

/// The signed integer written in `s`: an optional `+` or `-`, then at least one
/// decimal digit; `None` for other text or for a value out of the `i64` range
pub open spec fn parsed_i64(s: Seq<char>) -> Option<i64> {
    let signed = s.len() > 0 && (s[0] == '-' || s[0] == '+');
    let digits = if signed { s.drop_first() } else { s };
    let v: int = if signed && s[0] == '-' {
        -(dec_digits_value(digits) as int)
    } else {
        dec_digits_value(digits) as int
    };
    if digits.len() == 0 || !all_dec_digits(digits) || v < i64::MIN || v > i64::MAX {
        None
    } else {
        Some(v as i64)
    }
}

/// Appending digits never makes the value smaller
proof fn lemma_dec_value_grows(s: Seq<char>, j: int, k: int)
    requires
        0 <= j <= k <= s.len(),
        all_dec_digits(s),
    ensures
        dec_digits_value(s.take(j)) <= dec_digits_value(s.take(k)),
    decreases k - j,
{
    if j < k {
        lemma_dec_value_grows(s, j, k - 1);
        assert(s.take(k).drop_last() =~= s.take(k - 1));
        assert(is_dec_digit(s[k - 1]));
    }
}

/// Parses a signed decimal integer the way `str::parse::<i64>` does
pub fn parse_i64(s: &str) -> (r: Option<i64>)
    ensures
        r == parsed_i64(s@),
{
    let cs = chars_of(s);
    let n = cs.len();
    let mut start: usize = 0;
    let mut neg = false;
    if n > 0 && (cs[0] == '-' || cs[0] == '+') {
        neg = cs[0] == '-';
        start = 1;
    }
    let ghost digits: Seq<char> = cs@.subrange(start as int, n as int);
    assert(digits =~= (if start == 1 { s@.drop_first() } else { s@ }));
    if start == n {
        return None;
    }
    let mut acc: u64 = 0;
    let mut j: usize = start;
    while j < n
        invariant
            start <= j <= n,
            n == cs@.len(),
            cs@ == s@,
            start == 1 <==> (s@.len() > 0 && (s@[0] == '-' || s@[0] == '+')),
            start == 0 || start == 1,
            neg == (start == 1 && s@[0] == '-'),
            digits == (if start == 1 { s@.drop_first() } else { s@ }),
            digits == cs@.subrange(start as int, n as int),
            all_dec_digits(digits.take(j - start)),
            acc == dec_digits_value(digits.take(j - start)),
        decreases n - j,
    {
        let c = cs[j];
        if c < '0' || c > '9' {
            assert(!is_dec_digit(digits[j - start]));
            return None;
        }
        let d: u64 = ((c as u32) - 48) as u64;
        assert(digits.take(j + 1 - start).drop_last() =~= digits.take(j - start));
        assert(all_dec_digits(digits.take(j + 1 - start)));
        match acc.checked_mul(10) {
            Some(a10) => match a10.checked_add(d) {
                Some(a) => {
                    acc = a;
                },
                None => {
                    proof {
                        if all_dec_digits(digits) {
                            lemma_dec_value_grows(digits, j + 1 - start, digits.len() as int);
                            assert(digits.take(digits.len() as int) =~= digits);
                        }
                    }
                    return None;
                },
            },
            None => {
                proof {
                    if all_dec_digits(digits) {
                        lemma_dec_value_grows(digits, j + 1 - start, digits.len() as int);
                        assert(digits.take(digits.len() as int) =~= digits);
                    }
                }
                return None;
            },
        }
        j = j + 1;
    }
    assert(digits.take(j - start) =~= digits);
    if neg {
        if acc == 0x8000_0000_0000_0000u64 {
            Some(i64::MIN)
        } else if acc < 0x8000_0000_0000_0000u64 {
            Some(-(acc as i64))
        } else {
            None
        }
    } else if acc <= 0x7FFF_FFFF_FFFF_FFFFu64 {
        Some(acc as i64)
    } else {
        None
    }
}

/// Ten to the power `k`
pub open spec fn pow10(k: nat) -> nat
    decreases k,
{
    if k == 0 {
        1
    } else {
        10 * pow10((k - 1) as nat)
    }
}

/// A number below `10^k` has at most `k` digits (and always at least one)
proof fn lemma_dec_len(n: nat, k: nat)
    requires
        n < pow10(k),
    ensures
        nat_to_dec(n).len() <= if k == 0 { 1 } else { k },
    decreases k,
{
    if n >= 10 {
        assert(k > 0);
        assert(pow10(k) == 10 * pow10((k - 1) as nat));
        assert(n / 10 < pow10((k - 1) as nat));
        lemma_dec_len(n / 10, (k - 1) as nat);
    }
}

/// The decimal text of an `i64` is at most 20 characters long
proof fn lemma_i64_dec_len(n: i64)
    ensures
        int_to_dec(n as int).len() <= 20,
{
    assert(pow10(19) == 10_000_000_000_000_000_000nat) by {
        reveal_with_fuel(pow10, 20);
    }
    if n < 0 {
        lemma_dec_len((-n) as nat, 19);
    } else {
        lemma_dec_len(n as nat, 19);
    }
}

/// What the number editor reads from the text: its value, or 0 where it holds no number
pub open spec fn parsed_or_zero(s: Seq<char>) -> int {
    match parsed_i64(s) {
        Some(v) => v as int,
        None => 0,
    }
}

/// A character that the number editor refuses: typed with no modifier, and either
/// not starting with a digit or arriving when the text already holds 19 bytes
pub open spec fn num_edit_rejects(ii: InputInfo, txt: Seq<char>) -> bool {
    ii.kmod.mask == 0 && match ii.evnt {
        InputEvent::Char(cb) => cb.utf8seq[0] < 48 || cb.utf8seq[0] > 57
            || vstd::utf8::encode_utf8(txt).len() as usize >= 19,
        _ => false,
    }
}

/// The step of an arrow key: 100 with Shift, else 10 with Ctrl, else 1; negative for Down
pub open spec fn num_edit_step(ii: InputInfo) -> int {
    let base: int = if ii.kmod.mask & KEY_MOD_SHIFT != 0 {
        100
    } else if ii.kmod.mask & KEY_MOD_CTRL != 0 {
        10
    } else {
        1
    };
    if ii.evnt == InputEvent::Key(Key::Down) {
        -base
    } else {
        base
    }
}

/// `n` limited to `lo..=hi`
pub open spec fn clamped(n: int, lo: int, hi: int) -> int {
    if n < lo {
        lo
    } else if n > hi {
        hi
    } else {
        n
    }
}

/// `n` moved by `step`; past a limit it stops there, or with `wrap` goes to the other one
pub open spec fn stepped(n: int, step: int, lo: int, hi: int, wrap: bool) -> int {
    let m = n + step;
    let m1 = if m < lo {
        if wrap {
            hi
        } else {
            lo
        }
    } else {
        m
    };
    if m1 > hi {
        if wrap {
            lo
        } else {
            hi
        }
    } else {
        m1
    }
}

/// Custom handler for text edit - edit integer value
///
/// Returns true if input event was handled and needs no more processing, false otherwise.
/// A refused character rings the terminal bell.
pub fn num_edit_input_evt<P: Pal>(
    term: &mut Term<P>,
    ii: &InputInfo,
    txt: &mut String,
    cursor_pos: &mut i16,
    limit_min: i64,
    limit_max: i64,
    wrap: bool,
) -> (r: bool)
    requires
        ii.evnt == InputEvent::Key(Key::Enter) ==> limit_min <= limit_max,
        ii.evnt == InputEvent::Key(Key::Up) || ii.evnt == InputEvent::Key(Key::Down)
            ==> i64::MIN <= parsed_or_zero(old(txt)@) + num_edit_step(*ii) <= i64::MAX,
    ensures
        final(term).font() == old(term).font(),
        final(term).logs_row == old(term).logs_row,
        num_edit_rejects(*ii, old(txt)@) ==> r && final(txt)@ == old(txt)@
            && *final(cursor_pos) == *old(cursor_pos),
        !num_edit_rejects(*ii, old(txt)@) ==> match ii.evnt {
            InputEvent::Key(Key::Tab) => r && final(txt)@ == old(txt)@
                && *final(cursor_pos) == *old(cursor_pos),
            InputEvent::Key(Key::Enter) => !r && final(txt)@ == int_to_dec(
                clamped(parsed_or_zero(old(txt)@), limit_min as int, limit_max as int),
            ) && *final(cursor_pos) == *old(cursor_pos),
            InputEvent::Key(Key::Up) | InputEvent::Key(Key::Down) => r && final(txt)@ == int_to_dec(
                stepped(
                    parsed_or_zero(old(txt)@),
                    num_edit_step(*ii),
                    limit_min as int,
                    limit_max as int,
                    wrap,
                ),
            ) && *final(cursor_pos) == final(txt)@.len(),
            _ => !r && final(txt)@ == old(txt)@ && *final(cursor_pos) == *old(cursor_pos),
        },
{
    if ii.kmod.is_empty() {
        // reject non-digits and avoid too long numbers
        if let InputEvent::Char(ch) = ii.evnt {
            if ch.utf8seq[0] < 48u8 || ch.utf8seq[0] > 57u8 || txt.as_str().len() >= 19 {
                term.write_str(esc::BELL);
                term.flush_buff();
                return true;
            }
        }
    }
    match ii.evnt {
        InputEvent::Key(Key::Tab) => true,
        InputEvent::Key(Key::Enter) => {
            let n: i64 = match parse_i64(txt.as_str()) {
                Some(v) => v,
                None => 0,
            };
            let n: i64 = if n < limit_min {
                limit_min
            } else if n > limit_max {
                limit_max
            } else {
                n
            };
            *txt = dec_string(n);
            false
        },
        InputEvent::Key(Key::Up) | InputEvent::Key(Key::Down) => {
            let n: i64 = match parse_i64(txt.as_str()) {
                Some(v) => v,
                None => 0,
            };
            let mut delta: i64 = if ii.kmod.has_shift() {
                100
            } else if ii.kmod.has_ctrl() {
                10
            } else {
                1
            };
            if let InputEvent::Key(Key::Down) = ii.evnt {
                delta = -delta;
            }
            let mut n: i64 = n + delta;
            if n < limit_min {
                n = if wrap { limit_max } else { limit_min };
            }
            if n > limit_max {
                n = if wrap { limit_min } else { limit_max };
            }
            *txt = dec_string(n);
            proof {
                lemma_i64_dec_len(n);
            }
            *cursor_pos = txt.as_str().unicode_len() as i16;
            true
        },
        _ => false,
    }
}

// ---------------------------------------------------------------------------------------------- //

/// Characters with the Unicode `White_Space` property
pub open spec fn is_white_space(c: char) -> bool {
    ('\u{9}' <= c && c <= '\u{D}') || c == ' ' || c == '\u{85}' || c == '\u{A0}' || c == '\u{1680}'
        || ('\u{2000}' <= c && c <= '\u{200A}') || c == '\u{2028}' || c == '\u{2029}'
        || c == '\u{202F}' || c == '\u{205F}' || c == '\u{3000}'
}

/// Tells whether `c` has the Unicode `White_Space` property
pub fn is_white_space_char(c: char) -> (r: bool)
    ensures
        r == is_white_space(c),
{
    ('\u{9}' <= c && c <= '\u{D}') || c == ' ' || c == '\u{85}' || c == '\u{A0}' || c == '\u{1680}'
        || ('\u{2000}' <= c && c <= '\u{200A}') || c == '\u{2028}' || c == '\u{2029}'
        || c == '\u{202F}' || c == '\u{205F}' || c == '\u{3000}'
}

/// End of the word that starts at `pos`: just past the first white space at or after `pos`,
/// or the end of the text
pub open spec fn word_end(cs: Seq<char>, pos: int) -> int
    decreases cs.len() - pos,
{
    if pos >= cs.len() {
        cs.len() as int
    } else if is_white_space(cs[pos]) {
        pos + 1
    } else {
        word_end(cs, pos + 1)
    }
}

/// A one-line list holding `line`, or no line at all when it is empty
pub open spec fn line_if_any(line: Seq<char>) -> Seq<Seq<char>> {
    if line.len() > 0 {
        seq![line]
    } else {
        Seq::empty()
    }
}

/// The lines that word wrapping gives from the word starting at `end` on, the current line
/// spanning `begin..end` and being `line_w` columns wide:
/// - a word that would make the line wider than `max_w` ends the line before it;
/// - a word ending with a new line ends the line after it (the `'\n'` itself is dropped);
/// - at the end of the text, what is left of the current line is the last line
pub open spec fn wrapped_lines(cs: Seq<char>, max_w: int, line_w: int, begin: int, end: int) -> Seq<Seq<char>>
    decreases cs.len() - end,
{
    if end < 0 || end > cs.len() {
        Seq::empty()
    } else if end == cs.len() {
        line_if_any(cs.subrange(begin, end))
    } else {
        let we = word_end(cs, end);
        let word = cs.subrange(end, we);
        let ww = displayed_width_of(word);
        if we <= end || we > cs.len() {
            Seq::empty()
        } else if line_w + ww > max_w {
            line_if_any(cs.subrange(begin, end)) + wrapped_lines(cs, max_w, ww, end, we)
        } else if word.last() == '\n' {
            line_if_any(cs.subrange(begin, we - 1)) + wrapped_lines(cs, max_w, 0, we, we)
        } else {
            wrapped_lines(cs, max_w, line_w + ww, begin, we)
        }
    }
}

/// Displayed widths of the words of `cs` from `pos` on, added up
pub open spec fn words_width_from(cs: Seq<char>, pos: int) -> int
    decreases cs.len() - pos,
{
    if pos < 0 || pos >= cs.len() {
        0
    } else {
        let we = word_end(cs, pos);
        if we <= pos || we > cs.len() {
            0
        } else {
            displayed_width_of(cs.subrange(pos, we)) + words_width_from(cs, we)
        }
    }
}

/// A word starting inside the text ends after its start and no later than the text
proof fn lemma_word_end_bounds(cs: Seq<char>, pos: int)
    requires
        0 <= pos < cs.len(),
    ensures
        pos < word_end(cs, pos) <= cs.len(),
    decreases cs.len() - pos,
{
    if !is_white_space(cs[pos]) {
        if pos + 1 < cs.len() {
            lemma_word_end_bounds(cs, pos + 1);
        } else {
            assert(word_end(cs, pos + 1) == cs.len());
        }
    }
}

/// Added-up word widths are never negative
proof fn lemma_words_width_nonneg(cs: Seq<char>, pos: int)
    ensures
        words_width_from(cs, pos) >= 0,
    decreases cs.len() - pos,
{
    if 0 <= pos < cs.len() {
        let we = word_end(cs, pos);
        if pos < we <= cs.len() {
            lemma_words_width_nonneg(cs, we);
        }
    }
}

/// The text without its final line break, if it has one
pub open spec fn without_final_break(cs: Seq<char>) -> Seq<char> {
    if cs.len() > 0 && cs.last() == '\n' { cs.drop_last() } else { cs }
}

proof fn lemma_wrap_rest_fits(cs: Seq<char>, max_w: int, line_w: int, end: int)
    requires
        0 <= end <= cs.len(),
        line_w + words_width_from(cs, end) <= max_w,
        forall|i: int| 0 <= i < cs.len() - 1 ==> cs[i] != '\n',
        end < cs.len() || cs.len() == 0 || cs.last() != '\n',
    ensures
        wrapped_lines(cs, max_w, line_w, 0, end) == line_if_any(without_final_break(cs)),
    decreases cs.len() - end,
{
    if end == cs.len() {
        assert(cs.subrange(0, end) =~= cs);
    } else {
        lemma_word_end_bounds(cs, end);
        let we = word_end(cs, end);
        let word = cs.subrange(end, we);
        lemma_words_width_nonneg(cs, we);
        let ww = displayed_width_of(word);
        assert(words_width_from(cs, end) == ww + words_width_from(cs, we));
        assert(line_w + ww <= max_w);
        assert(word.last() == cs[we - 1]);
        if word.last() == '\n' {
            assert(we == cs.len());
            assert(cs.last() == '\n');
            assert(without_final_break(cs) == cs.drop_last());
            assert(cs.subrange(0, we - 1) =~= cs.drop_last());
            assert(cs.subrange(we, we) =~= Seq::<char>::empty());
            assert(wrapped_lines(cs, max_w, 0, we, we) == line_if_any(cs.subrange(we, we)));
            assert(wrapped_lines(cs, max_w, 0, we, we) =~= Seq::<Seq<char>>::empty());
            assert(wrapped_lines(cs, max_w, line_w, 0, end) == line_if_any(cs.subrange(0, we - 1)) + wrapped_lines(cs, max_w, 0, we, we));
            assert(line_if_any(cs.subrange(0, we - 1)) + Seq::<Seq<char>>::empty() =~= line_if_any(cs.subrange(0, we - 1)));
        } else {
            assert(wrapped_lines(cs, max_w, line_w, 0, end) == wrapped_lines(cs, max_w, line_w + ww, 0, we));
            lemma_wrap_rest_fits(cs, max_w, line_w + ww, we);
        }
    }
}

/// A text with no line break before its last character, whose words together are no wider than
/// `max_w`, wraps to one line: the whole text, without its final line break (no line at all
/// when nothing is left)
pub proof fn lemma_wrap_fitting_text(cs: Seq<char>, max_w: int)
    requires
        forall|i: int| 0 <= i < cs.len() - 1 ==> cs[i] != '\n',
        words_width_from(cs, 0) <= max_w,
    ensures
        wrapped_lines(cs, max_w, 0, 0, 0) == line_if_any(without_final_break(cs)),
{
    lemma_wrap_rest_fits(cs, max_w, 0, 0);
}

/// Within a text cut just after a white space, words end where they end in the whole text
proof fn lemma_word_end_in_prefix(cs: Seq<char>, n: int, p: int)
    requires
        0 <= p < n <= cs.len(),
        is_white_space(cs[n - 1]),
    ensures
        word_end(cs, p) == word_end(cs.take(n), p),
    decreases n - p,
{
    let a = cs.take(n);
    assert(a[p] == cs[p]);
    if !is_white_space(cs[p]) {
        lemma_word_end_in_prefix(cs, n, p + 1);
    }
}

proof fn lemma_wrap_prefix_fits(cs: Seq<char>, n: int, max_w: int, line_w: int, end: int)
    requires
        0 <= end <= n < cs.len(),
        0 < n,
        forall|i: int| 0 <= i < n ==> cs[i] != '\n',
        is_white_space(cs[n - 1]),
        line_w + words_width_from(cs.take(n), end) <= max_w,
        line_w + words_width_from(cs.take(n), end) + displayed_width_of(cs.subrange(n, word_end(cs, n))) > max_w,
    ensures
        ({
            let w = wrapped_lines(cs, max_w, line_w, 0, end);
            w.len() >= 1 && w[0] == cs.take(n)
        }),
    decreases n - end,
{
    let a = cs.take(n);
    lemma_word_end_bounds(cs, n);
    let we2 = word_end(cs, n);
    let ww2 = displayed_width_of(cs.subrange(n, we2));
    if end == n {
        assert(words_width_from(a, end) == 0);
        assert(cs.subrange(0, n) =~= a);
        let rest = wrapped_lines(cs, max_w, ww2, end, we2);
        assert(wrapped_lines(cs, max_w, line_w, 0, end) == line_if_any(cs.subrange(0, end)) + rest);
        assert(a.len() > 0);
        assert(line_if_any(cs.subrange(0, end)) == seq![a]);
        assert((seq![a] + rest)[0] == a);
    } else {
        lemma_word_end_in_prefix(cs, n, end);
        lemma_word_end_bounds(a, end);
        let we = word_end(cs, end);
        let word = cs.subrange(end, we);
        assert(word =~= a.subrange(end, we));
        lemma_words_width_nonneg(a, we);
        let ww = displayed_width_of(word);
        assert(words_width_from(a, end) == ww + words_width_from(a, we));
        assert(word.last() == cs[we - 1]);
        assert(word.last() != '\n');
        assert(wrapped_lines(cs, max_w, line_w, 0, end) == wrapped_lines(cs, max_w, line_w + ww, 0, we));
        lemma_wrap_prefix_fits(cs, n, max_w, line_w + ww, we);
    }
}

/// A line ends before the first word that would make it wider than `max_w`: when the words of
/// `cs[..n]`, cut just after a white space and with no line break, fit in `max_w` and the next
/// word does not fit after them, the first line is exactly `cs[..n]`
pub proof fn lemma_wrap_breaks_before_word(cs: Seq<char>, n: int, max_w: int)
    requires
        0 < n < cs.len(),
        forall|i: int| 0 <= i < n ==> cs[i] != '\n',
        is_white_space(cs[n - 1]),
        words_width_from(cs.take(n), 0) <= max_w,
        words_width_from(cs.take(n), 0) + displayed_width_of(cs.subrange(n, word_end(cs, n))) > max_w,
    ensures
        wrapped_lines(cs, max_w, 0, 0, 0).len() >= 1,
        wrapped_lines(cs, max_w, 0, 0, 0)[0] == cs.take(n),
{
    lemma_wrap_prefix_fits(cs, n, max_w, 0, 0);
}

proof fn lemma_wrap_newline_fits(cs: Seq<char>, n: int, max_w: int, line_w: int, end: int)
    requires
        0 <= end <= n < cs.len(),
        0 < n,
        cs[n] == '\n',
        forall|i: int| 0 <= i < n ==> cs[i] != '\n',
        line_w + words_width_from(cs.take(n + 1), end) <= max_w,
    ensures
        ({
            let w = wrapped_lines(cs, max_w, line_w, 0, end);
            w.len() >= 1 && w[0] == cs.take(n)
        }),
    decreases n - end,
{
    let a = cs.take(n + 1);
    assert(is_white_space(cs[n]));
    lemma_word_end_in_prefix(cs, n + 1, end);
    lemma_word_end_bounds(a, end);
    lemma_word_end_bounds(cs, end);
    let we = word_end(cs, end);
    let word = cs.subrange(end, we);
    assert(word =~= a.subrange(end, we));
    lemma_words_width_nonneg(a, we);
    let ww = displayed_width_of(word);
    assert(words_width_from(a, end) == ww + words_width_from(a, we));
    assert(word.last() == cs[we - 1]);
    if we == n + 1 {
        let rest = wrapped_lines(cs, max_w, 0, we, we);
        assert(wrapped_lines(cs, max_w, line_w, 0, end) == line_if_any(cs.subrange(0, we - 1)) + rest);
        assert(cs.subrange(0, we - 1) =~= cs.take(n));
        assert(line_if_any(cs.subrange(0, we - 1)) == seq![cs.take(n)]);
        assert((seq![cs.take(n)] + rest)[0] == cs.take(n));
    } else {
        assert(word.last() != '\n');
        assert(wrapped_lines(cs, max_w, line_w, 0, end) == wrapped_lines(cs, max_w, line_w + ww, 0, we));
        lemma_wrap_newline_fits(cs, n, max_w, line_w + ww, we);
    }
}

/// A line break ends a line: when the text before the first line break fits in `max_w` (its
/// words, with the break, together no wider), that text, without the break, is the first line
pub proof fn lemma_wrap_breaks_at_newline(cs: Seq<char>, n: int, max_w: int)
    requires
        0 < n < cs.len(),
        cs[n] == '\n',
        forall|i: int| 0 <= i < n ==> cs[i] != '\n',
        words_width_from(cs.take(n + 1), 0) <= max_w,
    ensures
        wrapped_lines(cs, max_w, 0, 0, 0).len() >= 1,
        wrapped_lines(cs, max_w, 0, 0, 0)[0] == cs.take(n),
{
    lemma_wrap_newline_fits(cs, n, max_w, 0, 0);
}

/// Splits given string into lines so that each line is not wider than `max_disp_w`.
///
/// Display width is calculated using Unicode data to determine if character is single or double width.
/// Returns Vector of String's (not slices)
pub fn word_wrap(max_disp_w: usize, src: &str) -> (r: Vec<String>)
    ensures
        r@.map_values(|l: String| l@) == wrapped_lines(src@, max_disp_w as int, 0, 0, 0),
{
    let cs = chars_of(src);
    let n = cs.len();
    let mut out: Vec<String> = Vec::new();
    let mut line_w: usize = 0;
    let mut begin: usize = 0;
    let mut end: usize = 0;
    while end < n
        invariant
            n == cs@.len(),
            cs@ == src@,
            begin <= end <= n,
            out@.map_values(|l: String| l@) + wrapped_lines(cs@, max_disp_w as int, line_w as int, begin as int, end as int)
                == wrapped_lines(cs@, max_disp_w as int, 0, 0, 0),
        decreases n - end,
    {
        // find the end of the word
        let mut we = end;
        let mut found = false;
        while we < n && !found
            invariant
                end <= we <= n,
                n == cs@.len(),
                !found ==> word_end(cs@, end as int) == word_end(cs@, we as int),
                found ==> word_end(cs@, end as int) == we && we > end,
            decreases n - we,
        {
            let c = cs[we];
            we = we + 1;
            if is_white_space_char(c) {
                found = true;
            }
        }
        let ghost old_out = out@.map_values(|l: String| l@);
        let mut word = String::new();
        push_chars(&mut word, &cs, end, we);
        assert(word@ =~= cs@.subrange(end as int, we as int));
        let ww = word.as_str().displayed_width();
        let fits = match line_w.checked_add(ww) {
            Some(t) => t <= max_disp_w,
            None => false,
        };
        if !fits {
            if end > begin {
                let mut line = String::new();
                push_chars(&mut line, &cs, begin, end);
                out.push(line);
            }
            assert(out@.map_values(|l: String| l@) =~= old_out + line_if_any(cs@.subrange(begin as int, end as int)));
            line_w = ww;
            begin = end;
            end = we;
        } else if cs[we - 1] == '\n' {
            if we - 1 > begin {
                let mut line = String::new();
                push_chars(&mut line, &cs, begin, we - 1);
                out.push(line);
            }
            assert(out@.map_values(|l: String| l@) =~= old_out + line_if_any(cs@.subrange(begin as int, we - 1)));
            line_w = 0;
            begin = we;
            end = we;
        } else {
            line_w = line_w + ww;
            end = we;
        }
    }
    let ghost old_out = out@.map_values(|l: String| l@);
    if n > begin {
        let mut line = String::new();
        push_chars(&mut line, &cs, begin, n);
        out.push(line);
    }
    assert(out@.map_values(|l: String| l@) =~= old_out + line_if_any(cs@.subrange(begin as int, n as int)));
    out
}

// ---------------------------------------------------------------------------------------------- //

/// The decimal text of `n` is made of at least one digit and reads back as `n`
pub proof fn lemma_nat_to_dec_digits(n: nat)
    ensures
        nat_to_dec(n).len() >= 1,
        all_dec_digits(nat_to_dec(n)),
        dec_digits_value(nat_to_dec(n)) == n,
    decreases n,
{
    let d = nat_to_dec(n);
    assert(digit_char(n % 10) as int == 48 + n % 10);
    if n < 10 {
        assert(d.drop_last() =~= Seq::<char>::empty());
        assert(d.last() == digit_char(n % 10));
        assert(dec_digits_value(d) == dec_digits_value(d.drop_last()) * 10 + ((d.last() as int - 48) as nat));
    } else {
        lemma_nat_to_dec_digits(n / 10);
        assert(d.drop_last() =~= nat_to_dec(n / 10));
        assert(d.last() == digit_char(n % 10));
        assert((n / 10) * 10 + n % 10 == n);
        assert(dec_digits_value(d) == dec_digits_value(d.drop_last()) * 10 + ((d.last() as int - 48) as nat));
    }
}

/// Parsing the decimal text of a number gives the number back
pub proof fn lemma_parse_dec_round_trip(n: i64)
    ensures
        parsed_i64(int_to_dec(n as int)) == Some(n),
{
    if n < 0 {
        let m = (-n) as nat;
        lemma_nat_to_dec_digits(m);
        let s = int_to_dec(n as int);
        assert(s.drop_first() =~= nat_to_dec(m));
    } else {
        lemma_nat_to_dec_digits(n as nat);
        let s = int_to_dec(n as int);
        assert(is_dec_digit(s[0]));
    }
}

/// An arrow key that moves the number without reaching a limit is undone by the opposite one
pub proof fn lemma_step_undone(n: int, step: int, lo: int, hi: int, wrap: bool)
    requires
        lo <= n <= hi,
        lo <= n + step <= hi,
    ensures
        stepped(stepped(n, step, lo, hi, wrap), -step, lo, hi, wrap) == n,
{
}

/// Accepting the number with Enter always leaves it within the limits
pub proof fn lemma_enter_within_limits(n: int, lo: int, hi: int)
    requires
        lo <= hi,
    ensures
        lo <= clamped(n, lo, hi) <= hi,
        lo <= n <= hi ==> clamped(n, lo, hi) == n,
{
}

} // verus!
