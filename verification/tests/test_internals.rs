//! # RTWins tests of the key map and widget id helpers

use rtwins::input::Key;
use rtwins::input::KEY_MOD_CTRL;
use rtwins::input::KEY_MOD_SHIFT;
use rtwins::input::KEY_MOD_SPECIAL;
use rtwins::input_decoder::esc_keys_map_sorted;
use rtwins::input_decoder::seq_binary_search;
use rtwins::input_decoder::seqmap_cmp;
use rtwins::input_decoder::SeqMap;
use rtwins::widget_def::generate_ids;
use std::cmp::Ordering;

#[test]
fn test_seq_cmp() {
    {
        // same length, equal
        let l = SeqMap { seq: "AAA", ..SeqMap::cdeflt() };
        let r = SeqMap { seq: "AAA", ..SeqMap::cdeflt() };
        assert_eq!(Ordering::Equal, seqmap_cmp(&l, &r));
    }

    {
        // same length, inequal
        let l = SeqMap { seq: "AAA", ..SeqMap::cdeflt() };
        let r = SeqMap { seq: "AAB", ..SeqMap::cdeflt() };
        assert_eq!(Ordering::Less, seqmap_cmp(&l, &r));
        assert_eq!(Ordering::Greater, seqmap_cmp(&r, &l));
    }

    {
        // similar, diferent lenght
        let l = SeqMap { seq: "AAA", ..SeqMap::cdeflt() };
        let r = SeqMap { seq: "AAAA", ..SeqMap::cdeflt() };
        assert_eq!(Ordering::Less, seqmap_cmp(&l, &r));
        assert_eq!(Ordering::Greater, seqmap_cmp(&r, &l));
    }

    {
        // different content and length
        let l = SeqMap { seq: "AAB", ..SeqMap::cdeflt() };
        let r = SeqMap { seq: "AAAA", ..SeqMap::cdeflt() };
        assert_eq!(Ordering::Greater, seqmap_cmp(&l, &r));
        assert_eq!(Ordering::Less, seqmap_cmp(&r, &l));
    }
}

#[test]
fn test_seq_binary_search() {
    let map = esc_keys_map_sorted();

    {
        // empy input
        let opt = seq_binary_search(b"", &map);
        assert!(opt.is_none());
    }

    {
        // input too short
        let opt = seq_binary_search(b"[", &map);
        assert!(opt.is_none());
    }

    {
        // input unknown
        let opt = seq_binary_search(b"[abc", &map);
        assert!(opt.is_none());
    }

    {
        // input followed by "BC"
        let opt = seq_binary_search(b"[ABC", &map);
        assert!(opt.is_some());
        if let Some(km) = opt {
            assert_eq!(Key::Up, km.key);
        }
    }

    {
        // valid input
        let opt = seq_binary_search(b"[H", &map);
        assert!(opt.is_some());
        if let Some(km) = opt {
            assert_eq!(Key::Home, km.key);
        }
    }

    {
        // valid input
        let opt = seq_binary_search(b"[24;5~", &map);
        assert!(opt.is_some());
        if let Some(km) = opt {
            assert_eq!(Key::F12, km.key);
        }
    }

    {
        // valid input
        let opt = seq_binary_search(b"[24;6~", &map);
        assert!(opt.is_some());
        if let Some(km) = opt {
            assert_eq!(Key::F12, km.key);
            assert_eq!(KEY_MOD_CTRL | KEY_MOD_SHIFT | KEY_MOD_SPECIAL, km.kmod);
        }
    }
}

#[test]
fn check_widget_ids_generator() {
    let ids = generate_ids(1);
    let popup_empty = ids[0];
    assert_eq!(1, popup_empty);

    let ids = generate_ids(2);
    let (popup_warn, btn_ok) = (ids[0], ids[1]);
    assert_eq!(1, popup_warn);
    assert_eq!(2, btn_ok);

    let ids = generate_ids(6);
    let lbl_message = ids[5];
    assert_eq!(6, lbl_message);
}
