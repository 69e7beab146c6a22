//! # RTWins TUI library
//!
//! `RTWins` is a library designed for easy creation of terminal applications,
//! targeting resource-constrained devices.
//!
//! It provides basic facilities required by interactive applications
//! such as screen and cursor management, keyboard input, keymaps, color codes.

pub mod colors;
pub mod common;
pub mod debug_trace;
pub mod esc;
pub mod input;
pub mod input_decoder;
pub mod key_codes;
pub mod pal;
pub mod std_ext;
pub mod string_ext;
pub mod terminal;
pub mod utils;
pub mod widget_def;
pub mod widget_draw;
pub mod widget_impl;
pub mod wnd_manager;
