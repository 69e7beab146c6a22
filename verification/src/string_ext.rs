//! # RTWins String extensions

use vstd::prelude::*;
use crate::utils::int_to_dec;
use crate::utils::push_dec_i64;
use vstd::string::StringSliceAdditionalSpecFns;
use vstd::utf8::encode_utf8;
use unicode_width::UnicodeWidthChar;
use unicode_width::UnicodeWidthStr;

verus! {

// ---------------------------------------------------------------------------------------------- //
// ---- DISPLAY WIDTH OF UNICODE TEXT ----------------------------------------------------------- //

/// Display width of a character as the Unicode width tables give it; `None` for control characters
pub uninterp spec fn unicode_char_width(c: char) -> Option<usize>;

/// `UnicodeWidthChar::width` of `unicode-width`: the number of columns the character takes,
/// `None` for a control character. Printable ASCII takes 1 column, NUL none, the other
/// C0 and C1 control codes are `None`; for the characters from U+00A0 on the result comes
/// from the Unicode tables, is named and not stated, except that it is at most 2
#[verifier::external_body]
fn char_width(c: char) -> (w: Option<usize>)
    ensures
        w == unicode_char_width(c),
        0x20 <= c as u32 && (c as u32) < 0x7F ==> w == Some(1usize),
        c == '\0' ==> w == Some(0usize),
        (0x01 <= c as u32 && (c as u32) < 0x20) || (0x7F <= c as u32 && (c as u32) < 0xA0) ==> w is None,
        w matches Some(x) ==> x <= 2,
{
    UnicodeWidthChar::width(c)
}

/// Columns a character adds to a line: its width, 0 for a control character
pub open spec fn char_cols(c: char) -> int {
    match unicode_char_width(c) {
        Some(w) => w as int,
        None => 0,
    }
}

/// Columns a text takes: the sum of the columns of its characters
pub open spec fn text_cols(s: Seq<char>) -> int
    decreases s.len(),
{
    if s.len() == 0 {
        0
    } else {
        text_cols(s.drop_last()) + char_cols(s.last())
    }
}

/// `UnicodeWidthStr::width` of `unicode-width`: the sum of the widths of the characters,
/// control characters counted as 0; a text of printable ASCII characters takes one column each
#[verifier::external_body]
fn str_width(s: &str) -> (w: usize)
    ensures
        w == text_cols(s@),
        (forall|i: int| 0 <= i < s@.len() ==> 0x20 <= #[trigger] s@[i] as u32 && (s@[i] as u32) < 0x7F) ==> w == s@.len(),
{
    UnicodeWidthStr::width(s)
}

// ---------------------------------------------------------------------------------------------- //
// ---- ESC SEQUENCES --------------------------------------------------------------------------- //

/// Longest ESC sequence the scanner looks at
pub const ESC_MAX_SEQ_LEN: usize = 20usize;

/// A byte that ends an ESC sequence: `@`, `^`, `~`, a lower case letter or an upper case letter but `O`
pub open spec fn is_seq_end(b: u8) -> bool {
    b == 0x40 || b == 0x5E || b == 0x7E || (0x41 <= b <= 0x5A && b != 0x4F) || (0x61 <= b <= 0x7A)
}

/// Scan of `b[i..end]` for the end of an ESC sequence starting at `start`;
/// the sequence length, or 0 when no end is found
pub open spec fn esc_scan(b: Seq<u8>, start: int, i: int, end: int) -> int
    decreases end - i,
{
    if i >= end {
        0
    } else if b[i] == 0x4D {
        // mouse report: ESC [ M b c r
        if end - start >= 6 { 6 } else { 0 }
    } else if is_seq_end(b[i]) {
        i + 1 - start
    } else {
        esc_scan(b, start, i + 1, end)
    }
}

/// Length of the ESC sequence beginning at `b[start]`; 0 when there is none
pub open spec fn esc_len_at(b: Seq<u8>, start: int) -> int {
    if 0 <= start < b.len() && b[start] == 0x1B {
        let rem = b.len() - start;
        esc_scan(b, start, start + 1, start + (if rem < 20 { rem } else { 20 }))
    } else {
        0
    }
}

proof fn lemma_esc_scan_bound(b: Seq<u8>, start: int, i: int, end: int)
    requires
        start < i,
        end - start <= 20,
    ensures
        0 <= esc_scan(b, start, i, end) <= 20,
        esc_scan(b, start, i, end) > 0 ==> esc_scan(b, start, i, end) <= end - start,
    decreases end - i,
{
    if i < end && b[i] != 0x4D && !is_seq_end(b[i]) {
        lemma_esc_scan_bound(b, start, i + 1, end);
    }
}

/// Length of the ESC sequence beginning at `b[start]`
fn esc_len_in(b: &[u8], start: usize) -> (r: usize)
    ensures
        r == esc_len_at(b@, start as int),
        r <= 20,
        r > 0 ==> start + r <= b@.len(),
{
    if start >= b.len() || b[start] != 0x1Bu8 {
        return 0;
    }
    let rem = b.len() - start;
    let end = start + if rem < ESC_MAX_SEQ_LEN { rem } else { ESC_MAX_SEQ_LEN };
    let mut i = start + 1;
    proof {
        lemma_esc_scan_bound(b@, start as int, i as int, end as int);
    }
    while i < end
        invariant
            start < i <= end <= b@.len(),
            end - start <= 20,
            end == start + (if b@.len() - start < 20 { b@.len() - start } else { 20 }),
            esc_len_at(b@, start as int) == esc_scan(b@, start as int, i as int, end as int),
        decreases end - i,
    {
        let c = b[i];
        if c == 0x4Du8 {
            return if end - start >= 6 { 6 } else { 0 };
        }
        if c == 0x40u8 || c == 0x5Eu8 || c == 0x7Eu8 || (0x41u8 <= c && c <= 0x5Au8 && c != 0x4Fu8)
            || (0x61u8 <= c && c <= 0x7Au8) {
            return i + 1 - start;
        }
        i = i + 1;
    }
    0
}

/// Columns that ESC sequences starting before `n` take away from the Unicode width of the text:
/// each sequence of length `l` counts `l - 1` (its ESC has no width of its own)
pub open spec fn esc_extra_upto(b: Seq<u8>, n: int) -> int
    decreases n,
{
    if n <= 0 {
        0
    } else {
        let l = esc_len_at(b, n - 1);
        esc_extra_upto(b, n - 1) + (if l > 0 { l - 1 } else { 0 })
    }
}

/// Displayed width of a text: its Unicode width without the ESC sequences, never below 0
pub open spec fn displayed_width_of(s: Seq<char>) -> int {
    let b = encode_utf8(s);
    let w = text_cols(s) - esc_extra_upto(b, b.len() as int);
    if w > 0 { w } else { 0 }
}

// ---------------------------------------------------------------------------------------------- //
// ---- CHARACTER LEVEL HELPERS ----------------------------------------------------------------- //

/// The characters of `s`, in order
pub fn chars_of(s: &str) -> (v: Vec<char>)
    ensures
        v@ == s@,
{
    broadcast use vstd::string::axiom_spec_iter;

    let mut v: Vec<char> = Vec::new();
    for c in it: s.chars()
        invariant
            v@ == it.seq().take(it.index() as int),
            it.seq() == s@,
    {
        v.push(c);
    }
    v
}

/// Appends `cs[from..to]` to `s`
pub(crate) fn push_chars(s: &mut String, cs: &Vec<char>, from: usize, to: usize)
    requires
        from <= to <= cs@.len(),
    ensures
        final(s)@ == old(s)@ + cs@.subrange(from as int, to as int),
{
    let mut i = from;
    while i < to
        invariant
            from <= i <= to <= cs@.len(),
            s@ == old(s)@ + cs@.subrange(from as int, i as int),
        decreases to - i,
    {
        s.push(cs[i]);
        assert(cs@.subrange(from as int, i + 1) =~= cs@.subrange(from as int, i as int).push(cs@[i as int]));
        i = i + 1;
    }
}

/// ESC sequence length on characters: the same scan as [`esc_len_at`], one character a unit
pub open spec fn esc_scan_chars(cs: Seq<char>, start: int, i: int, end: int) -> int
    decreases end - i,
{
    if i >= end {
        0
    } else if cs[i] == 'M' {
        if end - start >= 6 { 6 } else { 0 }
    } else if cs[i] == '@' || cs[i] == '^' || cs[i] == '~' || ('A' <= cs[i] <= 'Z' && cs[i] != 'O')
        || ('a' <= cs[i] <= 'z') {
        i + 1 - start
    } else {
        esc_scan_chars(cs, start, i + 1, end)
    }
}

/// Length in characters of the ESC sequence beginning at `cs[start]`; 0 when there is none
pub open spec fn esc_len_chars_at(cs: Seq<char>, start: int) -> int {
    if 0 <= start < cs.len() && cs[start] == '\x1B' {
        let rem = cs.len() - start;
        esc_scan_chars(cs, start, start + 1, start + (if rem < 20 { rem } else { 20 }))
    } else {
        0
    }
}

/// Length in characters of the ESC sequence beginning at `cs[start]`
pub(crate) fn esc_len_chars_in(cs: &Vec<char>, start: usize) -> (r: usize)
    ensures
        r == esc_len_chars_at(cs@, start as int),
{
    if start >= cs.len() || cs[start] != '\x1B' {
        return 0;
    }
    let rem = cs.len() - start;
    let end = start + if rem < ESC_MAX_SEQ_LEN { rem } else { ESC_MAX_SEQ_LEN };
    let mut i = start + 1;
    while i < end
        invariant
            start < i <= end <= cs@.len(),
            end - start <= 20,
            esc_len_chars_at(cs@, start as int) == esc_scan_chars(cs@, start as int, i as int, end as int),
        decreases end - i,
    {
        let c = cs[i];
        if c == 'M' {
            return if end - start >= 6 { 6 } else { 0 };
        }
        if c == '@' || c == '^' || c == '~' || ('A' <= c && c <= 'Z' && c != 'O') || ('a' <= c && c <= 'z') {
            return i + 1 - start;
        }
        i = i + 1;
    }
    0
}

/// Position at which the text reaches `thr` columns, skipping ESC sequences;
/// scanning from `i`, with ESC sequence characters ignored up to `skip_until`
/// and `sum` columns counted so far
pub open spec fn reach_pos(cs: Seq<char>, i: int, skip_until: int, sum: int, thr: int) -> Option<int>
    decreases cs.len() - i,
{
    if i >= cs.len() || i < 0 {
        None
    } else if i < skip_until {
        reach_pos(cs, i + 1, skip_until, sum, thr)
    } else if cs[i] == '\x1B' {
        reach_pos(cs, i + 1, i + esc_len_chars_at(cs, i), sum, thr)
    } else if sum + char_cols(cs[i]) >= thr {
        Some(i)
    } else {
        reach_pos(cs, i + 1, skip_until, sum + char_cols(cs[i]), thr)
    }
}

/// The column count at which a too wide text is cut, as an unsigned number
/// (a negative width wraps around and is never reached)
pub open spec fn cut_threshold(expected: i16) -> int {
    if expected >= 0 { expected as int } else { expected as int + usize::MAX + 1 }
}

/// Text padded with spaces or cut with an ellipsis to the expected display width
pub open spec fn fit_width(cs: Seq<char>, disp_w: int, expected: i16) -> Seq<char> {
    let missing = expected - disp_w;
    if missing > 0 {
        cs + Seq::new(missing as nat, |i: int| ' ')
    } else if missing < 0 {
        match reach_pos(cs, 0, 0, 0, cut_threshold(expected)) {
            Some(k) => if expected > 0 { cs.take(k).push('…') } else { cs.take(k) },
            None => cs,
        }
    } else {
        cs
    }
}

/// Cutting a text at a character and taking what follows that character gives the text back
pub proof fn lemma_trim_tail_concat(cs: Seq<char>, idx: int)
    requires
        0 <= idx,
    ensures
        trim_at(cs, idx) + tail_at(cs, idx) == cs,
{
    if idx < cs.len() {
        assert(cs.take(idx) + cs.skip(idx) =~= cs);
    } else {
        assert(cs + Seq::<char>::empty() =~= cs);
    }
}

/// Inserting the erased characters where they were restores the text
pub proof fn lemma_insert_undoes_erase(cs: Seq<char>, from: int, len: int)
    requires
        0 <= from < cs.len(),
        0 <= len,
    ensures
        insert_at(
            erase_range(cs, from, len),
            from,
            cs.subrange(from, if from + len < cs.len() { from + len } else { cs.len() as int }),
        ) == cs,
{
    let end = if from + len < cs.len() { from + len } else { cs.len() as int };
    let e = erase_range(cs, from, len);
    assert(e =~= cs.take(from) + cs.skip(end));
    if from < e.len() {
        assert(e.take(from) =~= cs.take(from));
        assert(e.skip(from) =~= cs.skip(end));
        assert(cs.take(from) + cs.subrange(from, end) + cs.skip(end) =~= cs);
    } else {
        assert(e =~= cs.take(from));
        assert(cs.take(from) + cs.subrange(from, end) =~= cs);
    }
}

/// Erasing the characters just inserted restores the text
pub proof fn lemma_erase_undoes_insert(cs: Seq<char>, idx: int, ins: Seq<char>)
    requires
        0 <= idx <= cs.len(),
    ensures
        erase_range(insert_at(cs, idx, ins), idx, ins.len() as int) == cs,
{
    let t = insert_at(cs, idx, ins);
    if idx < cs.len() {
        assert(t =~= cs.take(idx) + ins + cs.skip(idx));
        assert(t.take(idx) =~= cs.take(idx));
        assert(t.skip(idx + ins.len()) =~= cs.skip(idx));
        assert(cs.take(idx) + cs.skip(idx) =~= cs);
    } else {
        if ins.len() > 0 {
            assert(t.take(idx) =~= cs);
            assert(t.skip(idx + ins.len()) =~= Seq::<char>::empty());
        }
    }
}

/// Position of the first `{0}` in `cs` at or after `i`
pub open spec fn placeholder_at(cs: Seq<char>, i: int) -> Option<int>
    decreases cs.len() - i,
{
    if i < 0 || i + 3 > cs.len() {
        None
    } else if cs[i] == '{' && cs[i + 1] == '0' && cs[i + 2] == '}' {
        Some(i)
    } else {
        placeholder_at(cs, i + 1)
    }
}

proof fn lemma_placeholder_bound(cs: Seq<char>, i: int)
    ensures
        placeholder_at(cs, i) matches Some(k) ==> i <= k && k + 3 <= cs.len(),
    decreases cs.len() - i,
{
    if !(i < 0 || i + 3 > cs.len()) && !(cs[i] == '{' && cs[i + 1] == '0' && cs[i + 2] == '}') {
        lemma_placeholder_bound(cs, i + 1);
    }
}

/// ESC format with `{0}` replaced by the decimal `val`; unchanged when it holds no `{0}`
pub open spec fn esc_fmt(cs: Seq<char>, val: int) -> Seq<char> {
    match placeholder_at(cs, 0) {
        Some(k) => cs.take(k) + int_to_dec(val) + cs.skip(k + 3),
        None => cs,
    }
}

/// `n` copies of `c`; none for `n <= 0`
pub open spec fn repeat_char(c: char, n: int) -> Seq<char> {
    Seq::new(if n > 0 { n as nat } else { 0 }, |i: int| c)
}

/// Text with characters `from..from+len` removed; unchanged when `from` is past its end
pub open spec fn erase_range(cs: Seq<char>, from: int, len: int) -> Seq<char> {
    if from < cs.len() {
        let end = if from + len < cs.len() { from + len } else { cs.len() as int };
        cs.take(from) + cs.skip(end)
    } else {
        cs
    }
}

/// Text cut at character `idx`; unchanged when `idx` is past its end
pub open spec fn trim_at(cs: Seq<char>, idx: int) -> Seq<char> {
    if idx < cs.len() { cs.take(idx) } else { cs }
}

/// Text with `ins` inserted before character `idx`; appended when `idx` is at or past its end
pub open spec fn insert_at(cs: Seq<char>, idx: int, ins: Seq<char>) -> Seq<char> {
    if idx < cs.len() { cs.take(idx) + ins + cs.skip(idx) } else { cs + ins }
}

/// Text after character `idx`; empty when `idx` is past its end
pub open spec fn tail_at(cs: Seq<char>, idx: int) -> Seq<char> {
    if idx < cs.len() { cs.skip(idx) } else { Seq::empty() }
}

/// Position of the first `{0}` in `cs`
fn find_placeholder(cs: &Vec<char>) -> (r: Option<usize>)
    ensures
        match r {
            Some(k) => placeholder_at(cs@, 0) == Some(k as int),
            None => placeholder_at(cs@, 0) is None,
        },
{
    let n = cs.len();
    let mut i: usize = 0;
    while i < n && n - i >= 3
        invariant
            n == cs@.len(),
            placeholder_at(cs@, 0) == placeholder_at(cs@, i as int),
        decreases n - i,
    {
        if cs[i] == '{' && cs[i + 1] == '0' && cs[i + 2] == '}' {
            return Some(i);
        }
        i = i + 1;
    }
    None
}

proof fn lemma_esc_scan_chars_bound(cs: Seq<char>, start: int, i: int, end: int)
    requires
        start < i,
    ensures
        esc_scan_chars(cs, start, i, end) >= 0,
        esc_scan_chars(cs, start, i, end) > 0 ==> esc_scan_chars(cs, start, i, end) <= end - start,
    decreases end - i,
{
    if i < end && cs[i] != 'M' && !(cs[i] == '@' || cs[i] == '^' || cs[i] == '~' || ('A' <= cs[i] <= 'Z'
        && cs[i] != 'O') || ('a' <= cs[i] <= 'z')) {
        lemma_esc_scan_chars_bound(cs, start, i + 1, end);
    }
}

/// Position at which the characters reach `thr` columns, ESC sequences skipped
fn find_cut(cs: &Vec<char>, thr: usize) -> (r: Option<usize>)
    ensures
        match r {
            Some(k) => reach_pos(cs@, 0, 0, 0, thr as int) == Some(k as int) && k < cs@.len(),
            None => reach_pos(cs@, 0, 0, 0, thr as int) is None,
        },
{
    let n = cs.len();
    let mut i: usize = 0;
    let mut skip_until: usize = 0;
    let mut sum: usize = 0;
    while i < n
        invariant
            n == cs@.len(),
            sum <= thr,
            skip_until <= n,
            reach_pos(cs@, 0, 0, 0, thr as int) == reach_pos(
                cs@,
                i as int,
                skip_until as int,
                sum as int,
                thr as int,
            ),
        decreases n - i,
    {
        if i < skip_until {
            i = i + 1;
        } else if cs[i] == '\x1B' {
            // detect and skip ESC sequence
            let sl = esc_len_chars_in(&cs, i);
            proof {
                let rem = cs@.len() - i;
                lemma_esc_scan_chars_bound(cs@, i as int, i + 1, i + (if rem < 20 { rem } else { 20 }));
            }
            skip_until = i + sl;
            i = i + 1;
        } else {
            let cw: usize = match char_width(cs[i]) {
                Some(w) => w,
                None => 0,
            };
            if cw >= thr - sum {
                return Some(i);
            }
            sum = sum + cw;
            i = i + 1;
        }
    }
    None
}

// ---------------------------------------------------------------------------------------------- //
// ---- STRING EXTENSIONS ----------------------------------------------------------------------- //

/// Trait extending base `String` functionality
pub trait StringExt: View<V = Seq<char>> {
    /// Push ANSI escape sequence, replacing `{0}` with the `val`
    fn push_esc_fmt(&mut self, escfmt: &str, val: i16);

    /// Push `repeat` copies of `c`
    fn push_n(&mut self, c: char, n: i16);

    /// Set displayed width to `expected_disp_w` according to Unicode Standard
    fn set_displayed_width(&mut self, expected_disp_w: i16);

    /// Append and return mutable reference to itself
    fn append(&mut self, s: &str) -> (r: &mut Self)
        ensures
            r@ == old(self)@ + s@,
            final(self)@ == final(r)@,
    ;

    /// Returns stream operator wrapper
    fn stream(&mut self) -> StrStreamOp<'_>;

    /// Erase characters (not byte, like `remove()`) range; Never panics
    fn erase_char_range(&mut self, ch_idx: usize, len: usize);

    /// Remove trailing text, starting at given char (not byte) index
    fn trim_at_char_idx(&mut self, ch_idx: usize);

    /// Insert `s` before given char (not byte) index
    fn insert_str_at_char_idx(&mut self, ch_idx: usize, s: &str);

    /// Return string slice after given char (not byte) index
    fn split_at_char_idx(&self, ch_idx: usize) -> &str;
}

impl StringExt for String {
    fn push_esc_fmt(&mut self, escfmt: &str, val: i16)
        ensures
            final(self)@ == old(self)@ + esc_fmt(escfmt@, val as int),
    {
        let cs = chars_of(escfmt);
        let n = cs.len();
        proof {
            lemma_placeholder_bound(cs@, 0);
        }
        match find_placeholder(&cs) {
            Some(k) => {
                push_chars(self, &cs, 0, k);
                push_dec_i64(self, val as i64);
                push_chars(self, &cs, k + 3, n);
                assert(cs@.take(k as int) =~= cs@.subrange(0, k as int));
                assert(cs@.skip(k + 3) =~= cs@.subrange(k + 3, n as int));
            },
            None => {
                self.push_str(escfmt);
            },
        }
    }

    fn push_n(&mut self, c: char, repeat: i16)
        ensures
            final(self)@ == old(self)@ + repeat_char(c, repeat as int),
    {
        let mut i: i16 = 0;
        while i < repeat
            invariant
                0 <= i,
                i <= repeat || repeat <= 0,
                repeat <= 0 ==> i == 0,
                self@ == old(self)@ + repeat_char(c, i as int),
            decreases repeat - i,
        {
            self.push(c);
            assert(repeat_char(c, i + 1) =~= repeat_char(c, i as int).push(c));
            i = i + 1;
        }
        assert(repeat_char(c, i as int) =~= repeat_char(c, repeat as int));
    }

    fn set_displayed_width(&mut self, expected_disp_w: i16)
        ensures
            final(self)@ == fit_width(old(self)@, displayed_width_of(old(self)@), expected_disp_w),
    {
        let disp_width = self.as_str().displayed_width();
        if expected_disp_w > 0 && (expected_disp_w as usize) > disp_width {
            // too narrow -> append spaces
            let missing: i16 = (expected_disp_w as usize - disp_width) as i16;
            self.push_n(' ', missing);
            assert(repeat_char(' ', missing as int) =~= Seq::new(missing as nat, |i: int| ' '));
        } else if expected_disp_w < 0 || (expected_disp_w as usize) < disp_width {
            // too wide -> truncate + ellipsis
            let thr: usize = if expected_disp_w >= 0 {
                expected_disp_w as usize
            } else {
                usize::MAX - ((0i32 - expected_disp_w as i32) as usize - 1)
            };
            let cs = chars_of(self.as_str());
            match find_cut(&cs, thr) {
                Some(k) => {
                    let mut s = String::new();
                    push_chars(&mut s, &cs, 0, k);
                    if expected_disp_w > 0 {
                        s.push('…');
                    }
                    assert(cs@.subrange(0, k as int) =~= cs@.take(k as int));
                    *self = s;
                },
                None => {},
            }
        }
    }

    fn append(&mut self, s: &str) -> (r: &mut Self)
    {
        self.push_str(s);
        self
    }

    fn stream(&mut self) -> (r: StrStreamOp<'_>)
        ensures
            r.text() == old(self)@,
            final(self)@ == final(r.intern)@,
    {
        StrStreamOp::new(self)
    }

    fn erase_char_range(&mut self, ch_from: usize, len: usize)
        ensures
            final(self)@ == erase_range(old(self)@, ch_from as int, len as int),
    {
        let cs = chars_of(self.as_str());
        let n = cs.len();
        if ch_from < n {
            let end = if len < n - ch_from { ch_from + len } else { n };
            let mut s = String::new();
            push_chars(&mut s, &cs, 0, ch_from);
            push_chars(&mut s, &cs, end, n);
            assert(s@ =~= erase_range(old(self)@, ch_from as int, len as int));
            *self = s;
        }
    }

    fn trim_at_char_idx(&mut self, ch_idx: usize)
        ensures
            final(self)@ == trim_at(old(self)@, ch_idx as int),
    {
        let cs = chars_of(self.as_str());
        if ch_idx < cs.len() {
            let mut s = String::new();
            push_chars(&mut s, &cs, 0, ch_idx);
            assert(s@ =~= trim_at(old(self)@, ch_idx as int));
            *self = s;
        }
    }

    fn insert_str_at_char_idx(&mut self, ch_idx: usize, s: &str)
        ensures
            final(self)@ == insert_at(old(self)@, ch_idx as int, s@),
    {
        let cs = chars_of(self.as_str());
        let n = cs.len();
        if ch_idx < n {
            let mut out = String::new();
            push_chars(&mut out, &cs, 0, ch_idx);
            out.push_str(s);
            push_chars(&mut out, &cs, ch_idx, n);
            assert(out@ =~= insert_at(old(self)@, ch_idx as int, s@));
            *self = out;
        } else {
            self.push_str(s);
        }
    }

    fn split_at_char_idx(&self, ch_idx: usize) -> (r: &str)
        ensures
            r@ == tail_at(self@, ch_idx as int),
    {
        let n = self.as_str().unicode_len();
        if ch_idx < n {
            self.as_str().substring_char(ch_idx, n)
        } else {
            proof {
                reveal_strlit("");
            }
            ""
        }
    }
}

/// Trait extending base `str` functionality
pub trait StrExt {
    /// Returns ANSI escape sequence length, if begins with `\x1B`
    fn esc_seq_len(&self) -> usize;

    /// Calculate UTF-8 terminal text width, ignoring ESC sequences inside it
    fn displayed_width(&self) -> usize;
}

impl StrExt for str {
    fn esc_seq_len(&self) -> (r: usize)
        ensures
            r == esc_len_at(self.spec_bytes(), 0),
    {
        esc_len_in(self.as_bytes(), 0)
    }

    fn displayed_width(&self) -> (r: usize)
        ensures
            r == displayed_width_of(self@),
    {
        let w = str_width(self);
        let b = self.as_bytes();
        let n = b.len();
        let mut extra: u64 = 0;
        let mut i: usize = 0;
        while i < n
            invariant
                n == b@.len(),
                i <= n,
                extra as int == (if esc_extra_upto(b@, i as int) < u64::MAX { esc_extra_upto(
                    b@,
                    i as int,
                ) } else { u64::MAX as int }),
                esc_extra_upto(b@, i as int) >= 0,
            decreases n - i,
        {
            let l = esc_len_in(b, i);
            if l > 0 {
                extra = extra.saturating_add((l - 1) as u64);
            }
            i = i + 1;
        }
        if (w as u64) > extra {
            w - (extra as usize)
        } else {
            0
        }
    }
}

/// C++ like stream operator for `String` type.
/// Works on a reference, as a decorator, so there is no data moved in nor out
pub struct StrStreamOp<'a> {
    pub intern: &'a mut String,
}

impl<'a> StrStreamOp<'a> {
    /// Constructs a new decorator
    pub fn new(s: &'a mut String) -> (r: Self)
        ensures
            r.text() == old(s)@,
            final(s)@ == final(r.intern)@,
    {
        StrStreamOp { intern: s }
    }

    /// Returns nonmutable internal string
    pub fn as_string(&self) -> (r: &String)
        ensures
            r@ == self.text(),
    {
        &*self.intern
    }
}

/// The text written so far
impl<'a> StrStreamOp<'a> {
    /// The text of the decorated string
    pub closed spec fn text(&self) -> Seq<char> {
        (*self.intern)@
    }
}

impl<'a> core::ops::Shl<&str> for StrStreamOp<'a> {
    type Output = StrStreamOp<'a>;

    fn shl(self, rhs: &str) -> (r: Self::Output)
        ensures
            r.text() == self.text() + rhs@,
            final(r.intern)@ == final(self.intern)@,
    {
        self.intern.push_str(rhs);
        self
    }
}

impl<'a> vstd::std_specs::ops::ShlSpecImpl<&str> for StrStreamOp<'a> {
    open spec fn obeys_shl_spec() -> bool {
        false
    }

    open spec fn shl_req(self, rhs: &str) -> bool {
        true
    }

    open spec fn shl_spec(self, rhs: &str) -> Self::Output {
        self
    }
}

impl<'a> core::ops::Shl<char> for StrStreamOp<'a> {
    type Output = StrStreamOp<'a>;

    fn shl(self, rhs: char) -> (r: Self::Output)
        ensures
            r.text() == self.text().push(rhs),
            final(r.intern)@ == final(self.intern)@,
    {
        self.intern.push(rhs);
        self
    }
}

impl<'a> vstd::std_specs::ops::ShlSpecImpl<char> for StrStreamOp<'a> {
    open spec fn obeys_shl_spec() -> bool {
        false
    }

    open spec fn shl_req(self, rhs: char) -> bool {
        true
    }

    open spec fn shl_spec(self, rhs: char) -> Self::Output {
        self
    }
}

impl<'a> core::ops::Shl<(char, i16)> for StrStreamOp<'a> {
    type Output = StrStreamOp<'a>;

    fn shl(self, rhs: (char, i16)) -> (r: Self::Output)
        ensures
            r.text() == self.text() + repeat_char(rhs.0, rhs.1 as int),
            final(r.intern)@ == final(self.intern)@,
    {
        self.intern.push_n(rhs.0, rhs.1);
        self
    }
}

impl<'a> vstd::std_specs::ops::ShlSpecImpl<(char, i16)> for StrStreamOp<'a> {
    open spec fn obeys_shl_spec() -> bool {
        false
    }

    open spec fn shl_req(self, rhs: (char, i16)) -> bool {
        true
    }

    open spec fn shl_spec(self, rhs: (char, i16)) -> Self::Output {
        self
    }
}

/// Erasing `len` characters at `from` keeps the characters before `from` and shifts those
/// after the erased ones down by `len`
pub proof fn lemma_erase_range_chars(cs: Seq<char>, from: int, len: int)
    requires
        0 <= from,
        0 <= len,
        from + len <= cs.len(),
        from < cs.len(),
    ensures
        erase_range(cs, from, len).len() == cs.len() - len,
        forall|i: int| 0 <= i < from ==> #[trigger] erase_range(cs, from, len)[i] == cs[i],
        forall|i: int| from <= i < cs.len() - len ==> #[trigger] erase_range(cs, from, len)[i] == cs[i + len],
{
}

/// Inserting `ins` at `idx` keeps the characters before `idx`, puts `ins` at `idx` and shifts the
/// characters from `idx` on up by its length
pub proof fn lemma_insert_at_chars(cs: Seq<char>, idx: int, ins: Seq<char>)
    requires
        0 <= idx <= cs.len(),
    ensures
        insert_at(cs, idx, ins).len() == cs.len() + ins.len(),
        forall|i: int| 0 <= i < idx ==> #[trigger] insert_at(cs, idx, ins)[i] == cs[i],
        forall|j: int| 0 <= j < ins.len() ==> #[trigger] insert_at(cs, idx, ins)[idx + j] == ins[j],
        forall|i: int| idx <= i < cs.len() ==> #[trigger] insert_at(cs, idx, ins)[i + ins.len()] == cs[i],
{
    if idx == cs.len() {
        assert(cs.take(idx) + ins + cs.skip(idx) =~= cs + ins);
    }
}

/// Cutting a text at `idx` and taking what follows `idx` splits it: the cut part has `idx`
/// characters and the two parts make the text again
pub proof fn lemma_trim_tail_split(cs: Seq<char>, idx: int)
    requires
        0 <= idx <= cs.len(),
    ensures
        trim_at(cs, idx).len() == idx,
        trim_at(cs, idx) + tail_at(cs, idx) == cs,
{
    assert(trim_at(cs, idx) + tail_at(cs, idx) =~= cs);
}

} // verus!
