//! Debug trace logs: messages queued while the terminal is busy, written out on flush

use vstd::prelude::*;
use std::collections::VecDeque;
use crate::esc;
use crate::pal::Pal;
use crate::terminal::Term;
use crate::terminal::bg_is_theme;
use crate::terminal::log_text;
use crate::colors::bg_code;
use crate::utils::nat_to_dec;

verus! {

// ---------------------------------------------------------------------------------------------- //

/// Timestamp of the entries when nothing better is known
pub const DEFAULT_TIMESTR: &'static str = " 0:00:00.000 ";

/// Source of the timestamp that each trace entry gets when it is queued
pub trait TraceTimeSource {
    /// Timestamp string for a new trace entry
    fn timestr(&self) -> String;
}

/// Timestamp source that always gives [`TraceBuffer::timestr_default`]
pub struct DefaultTimeSource {}

impl TraceTimeSource for DefaultTimeSource {
    fn timestr(&self) -> (r: String)
        ensures
            r@ == DEFAULT_TIMESTR@,
    {
        let mut s = String::new();
        s.push_str(DEFAULT_TIMESTR);
        assert(s@ =~= DEFAULT_TIMESTR@);
        s
    }
}

/// One queued trace entry
struct TraceItem {
    fg_color: &'static str,
    time_str: String,
    prefix: &'static str,
    msg: String,
}

/// Buffer of trace messages waiting for the terminal
pub struct TraceBuffer<T: TraceTimeSource> {
    queue: VecDeque<TraceItem>,
    /// Prefix each message with the file name and line it comes from
    pub print_location: bool,
    /// Where the entries' timestamps come from
    pub trace_timestr: T,
}

/// The file name of a path: what follows its last `/`
pub open spec fn file_name_of(path: Seq<char>) -> Seq<char>
    decreases path.len(),
{
    if path.len() == 0 {
        path
    } else if path.last() == '/' {
        Seq::empty()
    } else {
        file_name_of(path.drop_last()).push(path.last())
    }
}

/// The text of a trace message, led by `file:line: ` when the location is printed
pub open spec fn trace_text(print_location: bool, path: Seq<char>, line: u32, msg: Seq<char>) -> Seq<char> {
    if print_location {
        file_name_of(path) + seq![':'] + nat_to_dec(line as nat) + seq![':', ' '] + msg
    } else {
        msg
    }
}

/// Text written for the trace entries `items` (each its color, prefix and message), given their
/// timestamps `times` and, for each, the background code `bgs[k]` sent after its line
pub open spec fn flushed_text(
    row: u16,
    items: Seq<(Seq<char>, Seq<char>, Seq<char>)>,
    times: Seq<Seq<char>>,
    bgs: Seq<Seq<char>>,
) -> Seq<char>
    decreases items.len(),
{
    if items.len() == 0 {
        Seq::empty()
    } else {
        let it = items.last();
        flushed_text(row, items.drop_last(), times.drop_last(), bgs.drop_last())
            + log_text(row, it.0, times.last(), it.1, it.2, bgs.last())
    }
}

/// `n` background codes sent back after log lines: those of `bg` itself unless it is a theme color
pub open spec fn flushed_ok(bgs: Seq<Seq<char>>, n: int, bg: crate::colors::ColorBg) -> bool {
    &&& bgs.len() == n
    &&& !bg_is_theme(bg) ==> forall|k: int| 0 <= k < n ==> #[trigger] bgs[k] == bg_code(bg)@
}

/// The file name of a path: what follows its last `/`
fn file_name(path: &str) -> (r: String)
    ensures
        r@ == file_name_of(path@),
{
    let cs = crate::string_ext::chars_of(path);
    let n = cs.len();
    let mut start: usize = n;
    assert(cs@.take(n as int) =~= cs@);
    assert(cs@.subrange(n as int, n as int) =~= Seq::<char>::empty());
    while start > 0 && cs[start - 1] != '/'
        invariant
            start <= n == cs@.len(),
            file_name_of(cs@) == file_name_of(cs@.take(start as int)) + cs@.subrange(start as int, n as int),
        decreases start,
    {
        assert(cs@.take(start as int).drop_last() =~= cs@.take(start - 1));
        assert(cs@.subrange(start - 1, n as int) =~= seq![cs@[start - 1]] + cs@.subrange(start as int, n as int));
        start = start - 1;
    }
    if start > 0 {
        assert(cs@.take(start as int).last() == '/');
    } else {
        assert(cs@.take(0) =~= Seq::<char>::empty());
    }
    let mut r = String::new();
    crate::string_ext::push_chars(&mut r, &cs, start, n);
    assert(cs@.take(n as int) =~= cs@);
    r
}

impl<T: TraceTimeSource> TraceBuffer<T> {
    /// Whether messages are prefixed with their location
    pub closed spec fn location_printed(&self) -> bool {
        self.print_location
    }

    /// The timestamp source
    pub closed spec fn time_source(&self) -> T {
        self.trace_timestr
    }

    /// The queued entries, oldest first: each its color, prefix and message text
    pub closed spec fn pending(&self) -> Seq<(Seq<char>, Seq<char>, Seq<char>)> {
        self.queue@.map_values(|it: TraceItem| (it.fg_color@, it.prefix@, it.msg@))
    }

    /// The timestamps of the queued entries, oldest first
    pub closed spec fn pending_times(&self) -> Seq<Seq<char>> {
        self.queue@.map_values(|it: TraceItem| it.time_str@)
    }

    /// An empty buffer that prints locations and takes the timestamps from `timestr`
    pub fn new(timestr: T) -> (r: Self)
        ensures
            r.pending() == Seq::<(Seq<char>, Seq<char>, Seq<char>)>::empty(),
            r.pending_times() == Seq::<Seq<char>>::empty(),
            r.location_printed(),
            r.time_source() == timestr,
    {
        let r = TraceBuffer { queue: VecDeque::new(), print_location: true, trace_timestr: timestr };
        assert(r.pending() =~= Seq::<(Seq<char>, Seq<char>, Seq<char>)>::empty());
        assert(r.pending_times() =~= Seq::<Seq<char>>::empty());
        r
    }

    /// Creates a new trace entry on the internal queue
    fn push(&mut self, filepath: &str, line: u32, fg_color: &'static str, prefix: &'static str, msg: &str)
        ensures
            final(self).pending() == old(self).pending().push(
                (fg_color@, prefix@, trace_text(old(self).location_printed(), filepath@, line, msg@)),
            ),
            exists|t: Seq<char>| final(self).pending_times() == #[trigger] old(self).pending_times().push(t),
            final(self).location_printed() == old(self).location_printed(),
            final(self).time_source() == old(self).time_source(),
    {
        let time_str = self.trace_timestr.timestr();
        let mut text = String::new();
        if self.print_location {
            text = file_name(filepath);
            text.push(':');
            crate::utils::push_dec_u64(&mut text, line as u64);
            text.push(':');
            text.push(' ');
        }
        text.push_str(msg);
        proof {
            if self.print_location {
                assert(text@ =~= trace_text(true, filepath@, line, msg@));
            } else {
                assert(text@ =~= msg@);
            }
        }
        self.queue.push_back(TraceItem { fg_color, time_str, prefix, msg: text });
        assert(self.pending() =~= old(self).pending().push(
            (fg_color@, prefix@, trace_text(old(self).location_printed(), filepath@, line, msg@)),
        ));
        assert(self.pending_times() =~= old(self).pending_times().push(time_str@));
    }

    /// Writes trace queue to the terminal
    fn flush<P: Pal>(&mut self, term: &mut Term<P>)
        ensures
            final(self).pending() == Seq::<(Seq<char>, Seq<char>, Seq<char>)>::empty(),
            final(self).pending_times() == Seq::<Seq<char>>::empty(),
            final(self).location_printed() == old(self).location_printed(),
            final(self).time_source() == old(self).time_source(),
            final(term).font() == old(term).font(),
            final(term).logs_row == old(term).logs_row,
            exists|bgs: Seq<Seq<char>>| #[trigger] flushed_ok(bgs, old(self).pending().len() as int, old(term).current_cl_bg)
                && final(term).sent@ == old(term).sent@ + flushed_text(
                    old(term).logs_row, old(self).pending(), old(self).pending_times(), bgs),
    {
        let mut i: usize = 0;
        let ghost mut bgs: Seq<Seq<char>> = Seq::empty();
        let ghost items = self.pending();
        let ghost times = self.pending_times();
        proof {
            assert(items.take(0) =~= Seq::<(Seq<char>, Seq<char>, Seq<char>)>::empty());
            assert(term.sent@ =~= old(term).sent@ + Seq::<char>::empty());
        }
        while i < self.queue.len()
            invariant
                i <= self.queue@.len(),
                self.pending() == items,
                self.pending_times() == times,
                items.len() == self.queue@.len(),
                times.len() == self.queue@.len(),
                self.print_location == old(self).print_location,
                self.trace_timestr == old(self).trace_timestr,
                term.font() == old(term).font(),
                term.logs_row == old(term).logs_row,
                bgs.len() == i,
                flushed_ok(bgs, i as int, old(term).current_cl_bg),
                term.sent@ == old(term).sent@ + flushed_text(old(term).logs_row, items.take(i as int), times.take(i as int), bgs),
            decreases self.queue@.len() - i,
        {
            let item = &self.queue[i];
            let ghost s0 = term.sent@;
            term.trace_message(item.fg_color, item.time_str.as_str(), item.prefix, item.msg.as_str());
            proof {
                let b = choose|b: Seq<char>|
                    #![trigger log_text(old(term).logs_row, item.fg_color@, item.time_str@, item.prefix@, item.msg@, b)]
                    term.sent@ == s0 + log_text(old(term).logs_row, item.fg_color@, item.time_str@, item.prefix@, item.msg@, b)
                    && (!bg_is_theme(old(term).current_cl_bg) ==> b == bg_code(old(term).current_cl_bg)@);
                assert(items[i as int] == (item.fg_color@, item.prefix@, item.msg@));
                assert(times[i as int] == item.time_str@);
                assert(items.take(i + 1).drop_last() =~= items.take(i as int));
                assert(times.take(i + 1).drop_last() =~= times.take(i as int));
                assert(bgs.push(b).drop_last() =~= bgs);
                bgs = bgs.push(b);
                assert(term.sent@ =~= old(term).sent@ + flushed_text(old(term).logs_row, items.take(i + 1), times.take(i + 1), bgs));
            }
            i = i + 1;
        }
        proof {
            assert(items.take(i as int) =~= items);
            assert(times.take(i as int) =~= times);
        }
        self.queue.clear();
        assert(self.pending() =~= Seq::<(Seq<char>, Seq<char>, Seq<char>)>::empty());
        assert(self.pending_times() =~= Seq::<Seq<char>>::empty());
    }

    /// Print Debug message
    pub fn trace_d(&mut self, filepath: &str, line: u32, msg: &str)
        ensures
            final(self).pending() == old(self).pending().push(
                (esc::FG_BLACK_INTENSE@, "-D- "@, trace_text(old(self).location_printed(), filepath@, line, msg@)),
            ),
            exists|t: Seq<char>| final(self).pending_times() == #[trigger] old(self).pending_times().push(t),
            final(self).location_printed() == old(self).location_printed(),
    {
        self.push(filepath, line, esc::FG_BLACK_INTENSE, "-D- ", msg);
    }

    /// Print Info message
    pub fn trace_i(&mut self, filepath: &str, line: u32, msg: &str)
        ensures
            final(self).pending() == old(self).pending().push(
                (esc::FG_WHITE@, "-I- "@, trace_text(old(self).location_printed(), filepath@, line, msg@)),
            ),
            exists|t: Seq<char>| final(self).pending_times() == #[trigger] old(self).pending_times().push(t),
            final(self).location_printed() == old(self).location_printed(),
    {
        self.push(filepath, line, esc::FG_WHITE, "-I- ", msg);
    }

    /// Print Warning message
    pub fn trace_w(&mut self, filepath: &str, line: u32, msg: &str)
        ensures
            final(self).pending() == old(self).pending().push(
                (esc::FG_YELLOW@, "-W- "@, trace_text(old(self).location_printed(), filepath@, line, msg@)),
            ),
            exists|t: Seq<char>| final(self).pending_times() == #[trigger] old(self).pending_times().push(t),
            final(self).location_printed() == old(self).location_printed(),
    {
        self.push(filepath, line, esc::FG_YELLOW, "-W- ", msg);
    }

    /// Print Error message
    pub fn trace_e(&mut self, filepath: &str, line: u32, msg: &str)
        ensures
            final(self).pending() == old(self).pending().push(
                (esc::FG_RED@, "-E- "@, trace_text(old(self).location_printed(), filepath@, line, msg@)),
            ),
            exists|t: Seq<char>| final(self).pending_times() == #[trigger] old(self).pending_times().push(t),
            final(self).location_printed() == old(self).location_printed(),
    {
        self.push(filepath, line, esc::FG_RED, "-E- ", msg);
    }

    /// Flush buffered messages
    pub fn trace_flush<P: Pal>(&mut self, term: &mut Term<P>)
        ensures
            final(self).pending() == Seq::<(Seq<char>, Seq<char>, Seq<char>)>::empty(),
            final(self).pending_times() == Seq::<Seq<char>>::empty(),
            final(self).location_printed() == old(self).location_printed(),
            final(term).font() == old(term).font(),
            final(term).logs_row == old(term).logs_row,
            exists|bgs: Seq<Seq<char>>| #[trigger] flushed_ok(bgs, old(self).pending().len() as int, old(term).current_cl_bg)
                && final(term).sent@ == old(term).sent@ + flushed_text(
                    old(term).logs_row, old(self).pending(), old(self).pending_times(), bgs),
    {
        self.flush(term);
    }

    /// Set user provided source of the traces timestamp string
    pub fn set_timestr_fn(&mut self, f: T)
        ensures
            final(self).time_source() == f,
            final(self).pending() == old(self).pending(),
            final(self).pending_times() == old(self).pending_times(),
            final(self).location_printed() == old(self).location_printed(),
    {
        self.trace_timestr = f;
    }

    /// Returns default timestamp string if system time or Pal is unavailable
    pub fn timestr_default() -> (r: &'static str)
        ensures
            r == DEFAULT_TIMESTR,
    {
        DEFAULT_TIMESTR
    }
}

impl Default for TraceBuffer<DefaultTimeSource> {
    fn default() -> (r: Self)
        ensures
            r.pending() == Seq::<(Seq<char>, Seq<char>, Seq<char>)>::empty(),
            r.pending_times() == Seq::<Seq<char>>::empty(),
            r.location_printed(),
    {
        Self::new(DefaultTimeSource {})
    }
}

} // verus!
