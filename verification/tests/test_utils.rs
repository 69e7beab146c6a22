//! # RTWins utility tests

use rtwins::esc;
use rtwins::input::InputEvent;
use rtwins::input::InputInfo;
use rtwins::input::Key;
use rtwins::input::KEY_MOD_CTRL;
use rtwins::input::KEY_MOD_SHIFT;
use rtwins::input::KEY_MOD_SPECIAL;
use rtwins::pal::PalStub;
use rtwins::string_ext::StringExt;
use rtwins::terminal::Term;
use rtwins::utils;

#[test]
fn word_wrap() {
    let mut txt = String::new();
    let _ = txt.stream()
        << esc::BOLD
        << "🔶 Lorem ipsum \ndolor sit\n amet, consectetur adipiscing elit. \n"
        << esc::NORMAL
        << "▄";

    let lines = utils::word_wrap(10, &txt);

    assert_eq!(lines.get(0).unwrap(), String::new().append(esc::BOLD).append("🔶 Lorem "));
    assert_eq!(lines.get(1).unwrap(), "ipsum ");
    assert_eq!(lines.get(2).unwrap(), "dolor sit");
    assert_eq!(lines.get(3).unwrap(), " amet, ");
    assert_eq!(lines.get(4).unwrap(), "consectetur ");
    assert_eq!(lines.get(5).unwrap(), "adipiscing ");
    assert_eq!(lines.get(6).unwrap(), "elit. ");
    assert_eq!(lines.get(7).unwrap(), String::new().append(esc::NORMAL).append("▄"));
}

#[test]
fn num_edit() {
    let mut term = Term::new(PalStub::new());
    let mut ii = InputInfo::default();
    let mut txt = String::new();
    let mut cursor_pos = 0i16;

    // invalid key - handled as 'rejected'
    let handled = utils::num_edit_input_evt(&mut term, &ii, &mut txt, &mut cursor_pos, -100, 100, false);
    assert!(!handled);

    // too long number
    {
        txt.push_n('9', 20);
        let handled = utils::num_edit_input_evt(&mut term, &ii, &mut txt, &mut cursor_pos, -100, 100, false);
        assert!(!handled);
    }

    // out of range
    {
        // empty or under limit
        txt.clear();
        ii.evnt = InputEvent::Key(Key::Enter);
        ii.kmod.mask = KEY_MOD_SPECIAL;
        let handled = utils::num_edit_input_evt(&mut term, &ii, &mut txt, &mut cursor_pos, 33, 911, false);
        assert!(!handled);
        assert_eq!("33", txt);

        // over limit
        txt.clear();
        txt.append("912");
        ii.evnt = InputEvent::Key(Key::Enter);
        ii.kmod.mask = KEY_MOD_SPECIAL;
        let handled = utils::num_edit_input_evt(&mut term, &ii, &mut txt, &mut cursor_pos, 33, 911, false);
        assert!(!handled);
        assert_eq!("911", txt);
    }

    // edit accept - to be handled by caller
    {
        txt.clear();
        ii.evnt = InputEvent::Key(Key::Enter);
        ii.kmod.mask = KEY_MOD_SPECIAL;
        let handled = utils::num_edit_input_evt(&mut term, &ii, &mut txt, &mut cursor_pos, -100, 100, false);
        assert!(!handled);
    }

    // edit abort - to be handled by caller
    {
        ii.evnt = InputEvent::Key(Key::Esc);
        ii.kmod.mask = KEY_MOD_SPECIAL;
        let handled = utils::num_edit_input_evt(&mut term, &ii, &mut txt, &mut cursor_pos, -100, 100, false);
        assert!(!handled);
    }

    // UP arrow
    {
        txt.clear();
        ii.evnt = InputEvent::Key(Key::Up);
        ii.kmod.mask = KEY_MOD_SPECIAL;
        let handled = utils::num_edit_input_evt(&mut term, &ii, &mut txt, &mut cursor_pos, -100, 100, false);
        assert!(handled);
        assert_eq!("1", txt);

        // Ctrl+UP
        ii.evnt = InputEvent::Key(Key::Up);
        ii.kmod.mask = KEY_MOD_SPECIAL | KEY_MOD_CTRL;
        let handled = utils::num_edit_input_evt(&mut term, &ii, &mut txt, &mut cursor_pos, -1000, 1000, false);
        assert!(handled);
        assert_eq!("11", txt);

        // Shift+UP
        ii.evnt = InputEvent::Key(Key::Up);
        ii.kmod.mask = KEY_MOD_SPECIAL | KEY_MOD_SHIFT;
        let handled = utils::num_edit_input_evt(&mut term, &ii, &mut txt, &mut cursor_pos, -1000, 1000, false);
        assert!(handled);
        assert_eq!("111", txt);
    }

    // DOWN arrow
    {
        ii.evnt = InputEvent::Key(Key::Down);
        ii.kmod.mask = KEY_MOD_SPECIAL;
        let handled = utils::num_edit_input_evt(&mut term, &ii, &mut txt, &mut cursor_pos, -1000, 1000, false);
        assert!(handled);
        assert_eq!("110", txt);

        // Ctrl+Down
        ii.evnt = InputEvent::Key(Key::Down);
        ii.kmod.mask = KEY_MOD_SPECIAL | KEY_MOD_CTRL;
        let handled = utils::num_edit_input_evt(&mut term, &ii, &mut txt, &mut cursor_pos, -1000, 1000, false);
        assert!(handled);
        assert_eq!("100", txt);

        // Shift+Down
        ii.evnt = InputEvent::Key(Key::Down);
        ii.kmod.mask = KEY_MOD_SPECIAL | KEY_MOD_SHIFT;
        let handled = utils::num_edit_input_evt(&mut term, &ii, &mut txt, &mut cursor_pos, -1000, 1000, false);
        assert!(handled);
        assert_eq!("0", txt);
    }
}

#[test]
fn num_edit_limited() {
    let mut term = Term::new(PalStub::new());
    let mut ii = InputInfo::default();

    let mut txt;
    let mut cursor_pos = 0i16;

    // up, no wrap
    ii.evnt = InputEvent::Key(Key::Up);
    ii.kmod.mask = KEY_MOD_SPECIAL;

    {
        txt = "0".to_owned();

        let handled = utils::num_edit_input_evt(&mut term, &ii, &mut txt, &mut cursor_pos, -1, 1, false);
        assert!(handled);
        assert_eq!("1", txt);

        let handled = utils::num_edit_input_evt(&mut term, &ii, &mut txt, &mut cursor_pos, -1, 1, false);
        assert!(handled);
        assert_eq!("1", txt);
    }

    // up, wrap
    {
        txt = "1".to_owned();

        let handled = utils::num_edit_input_evt(&mut term, &ii, &mut txt, &mut cursor_pos, -1, 1, true);
        assert!(handled);
        assert_eq!("-1", txt);
    }

    // down, no wrap
    ii.evnt = InputEvent::Key(Key::Down);
    ii.kmod.mask = KEY_MOD_SPECIAL;

    {
        txt = "0".to_owned();

        let handled = utils::num_edit_input_evt(&mut term, &ii, &mut txt, &mut cursor_pos, -1, 1, false);
        assert!(handled);
        assert_eq!("-1", txt);

        let handled = utils::num_edit_input_evt(&mut term, &ii, &mut txt, &mut cursor_pos, -1, 1, false);
        assert!(handled);
        assert_eq!("-1", txt);
    }

    // down, wrap
    {
        txt = "-1".to_owned();
        let handled = utils::num_edit_input_evt(&mut term, &ii, &mut txt, &mut cursor_pos, -1, 1, true);
        assert!(handled);
        assert_eq!("1", txt);
    }
}

#[test]
fn num_edit_rejects_non_digit_and_rings() {
    let mut term = Term::new(PalStub::new());
    let mut ii = InputInfo::default();
    let mut txt = String::from("12");
    let mut cursor_pos = 2i16;
    let mut ch = rtwins::input::CharBuff { utf8seq: [b'x', 0, 0, 0], utf8sl: 1 };
    ii.evnt = InputEvent::Char(ch);
    assert!(utils::num_edit_input_evt(&mut term, &ii, &mut txt, &mut cursor_pos, 0, 100, false));
    assert_eq!("12", txt);
    assert_eq!(2, cursor_pos);

    // a digit passes through, unhandled
    ch.utf8seq[0] = b'5';
    ii.evnt = InputEvent::Char(ch);
    assert!(!utils::num_edit_input_evt(&mut term, &ii, &mut txt, &mut cursor_pos, 0, 100, false));

    // cursor goes to the end after an arrow key
    ii.evnt = InputEvent::Key(Key::Up);
    ii.kmod.mask = KEY_MOD_SPECIAL | KEY_MOD_SHIFT;
    txt = String::from("-150");
    assert!(utils::num_edit_input_evt(&mut term, &ii, &mut txt, &mut cursor_pos, -1000, 1000, false));
    assert_eq!("-50", txt);
    assert_eq!(3, cursor_pos);
}

#[test]
fn parse_i64_values() {
    assert_eq!(Some(0), utils::parse_i64("0"));
    assert_eq!(Some(-42), utils::parse_i64("-42"));
    assert_eq!(Some(7), utils::parse_i64("+7"));
    assert_eq!(Some(i64::MAX), utils::parse_i64("9223372036854775807"));
    assert_eq!(Some(i64::MIN), utils::parse_i64("-9223372036854775808"));
    assert_eq!(None, utils::parse_i64("9223372036854775808"));
    assert_eq!(None, utils::parse_i64(""));
    assert_eq!(None, utils::parse_i64("-"));
    assert_eq!(None, utils::parse_i64("1a"));
    assert_eq!(None, utils::parse_i64("99999999999999999999999"));
}

#[test]
fn word_wrap_ends_with_last_line() {
    // what is left of the current line at the end of the text is the last line
    let lines = utils::word_wrap(20, "ab cd");
    assert_eq!(vec!["ab cd".to_string()], lines);
    // a word wider than the line is a line of its own
    let lines = utils::word_wrap(3, "abcdef gh");
    assert_eq!(vec!["abcdef ".to_string(), "gh".to_string()], lines);
}

#[test]
fn utf8_width() {
    assert_eq!(1, utils::utf8_char_width(b'a'));
    assert_eq!(0, utils::utf8_char_width(0x80));
    assert_eq!(2, utils::utf8_char_width(0xC5));
    assert_eq!(3, utils::utf8_char_width(0xE2));
    assert_eq!(4, utils::utf8_char_width(0xF0));
    assert_eq!(0, utils::utf8_char_width(0xF5));
}
