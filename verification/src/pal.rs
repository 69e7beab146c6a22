//! # RTWins Platform Abstraction Layer

use vstd::prelude::*;
use crate::colors::ColorBg;
use crate::colors::ColorFg;

verus! {

/// Platform Abstraction Layer for your project
#[allow(unused_variables)]
pub trait Pal {
    /// Write character multiple times
    fn write_char_n(&mut self, c: char, repeat: i16) {
    }

    /// Write single character
    fn write_char(&mut self, c: char) {
        self.write_char_n(c, 1);
    }

    /// Write string multiple times
    fn write_str_n(&mut self, s: &str, repeat: i16) {
    }

    /// Write single string
    fn write_str(&mut self, s: &str) {
        self.write_str_n(s, 1);
    }

    /// Flush buffer to the terminal (depends on implementation)
    fn flush_buff(&mut self) {
    }

    /// Tell the PAL that we are writing logs
    fn mark_logging(&mut self, active: bool) {
    }

    /// Sleep for `ms` milliseconds
    fn sleep(&self, ms: u16) {
    }

    /// Get current timestamp (since program start), in milliseconds
    fn get_timestamp_ms(&self) -> (r: u32)
        default_ensures
            r == 0,
    {
        0
    }

    /// Get difference between current and previous timestamp, in milliseconds
    fn get_timespan_ms(&self, prev_timestamp: u32) -> (r: u32)
        default_ensures
            r == 0,
    {
        0
    }

    /// Time stamp printed in front of log messages
    fn get_logs_timestr(&self) -> (r: String)
        default_ensures
            r@.len() == 0,
    {
        String::new()
    }

    /// ANSI escape code of an application theme foreground color
    fn encode_theme_fg(&self, cl: ColorFg) -> (r: &'static str)
        default_ensures
            r@.len() == 0,
    {
        proof {
            reveal_strlit("");
        }
        ""
    }

    /// ANSI escape code of an application theme background color
    fn encode_theme_bg(&self, cl: ColorBg) -> (r: &'static str)
        default_ensures
            r@.len() == 0,
    {
        proof {
            reveal_strlit("");
        }
        ""
    }

    /// Intense variant of an application theme foreground color
    fn intensify_theme_fg(&self, cl: ColorFg) -> (r: ColorFg)
        default_ensures
            r == cl,
    {
        cl
    }

    /// Intense variant of an application theme background color
    fn intensify_theme_bg(&self, cl: ColorBg) -> (r: ColorBg)
        default_ensures
            r == cl,
    {
        cl
    }
}

/// Empty PAL
pub struct PalStub {}

impl PalStub {
    /// Creates the empty PAL
    pub fn new() -> (p: Self) {
        PalStub {  }
    }
}

impl Pal for PalStub {

}

} // verus!
