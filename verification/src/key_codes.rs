//! Key codes that terminals send, as the VT and xterm conventions (and rxvt, for a few) assign
//! them, and the law that the decoder's key map follows them

use vstd::prelude::*;
use crate::input::Key;
use crate::input::KEY_MOD_ALT;
use crate::input::KEY_MOD_CTRL;
use crate::input::KEY_MOD_SHIFT;
use crate::input::KEY_MOD_SPECIAL;
use crate::input::ESC_CODE;
use crate::input_decoder::decode_spec;
use crate::input_decoder::esc_keys_table;
use crate::input_decoder::is_prefix_free;
use crate::input_decoder::lemma_decode_known_key;
use crate::input_decoder::seq_bytes;
use crate::input_decoder::Decoded;
use crate::input_decoder::DecodedEvent;
use crate::input_decoder::DecoderState;
use crate::input_decoder::SeqMap;
use crate::utils::all_dec_digits;
use crate::utils::dec_digits_value;

verus! {

/// Key of a cursor or editing key sent as `CSI <c>` or `CSI 1;<m> <c>`
pub open spec fn csi_letter_key(c: char) -> Option<Key> {
    if c == 'A' {
        Some(Key::Up)
    } else if c == 'B' {
        Some(Key::Down)
    } else if c == 'C' {
        Some(Key::Right)
    } else if c == 'D' {
        Some(Key::Left)
    } else if c == 'F' {
        Some(Key::End)
    } else if c == 'H' {
        Some(Key::Home)
    } else {
        None
    }
}

/// Function key F1 to F4 sent as `SS3 <c>` or `CSI 1;<m> <c>`
pub open spec fn pf_key(c: char) -> Option<Key> {
    if c == 'P' {
        Some(Key::F1)
    } else if c == 'Q' {
        Some(Key::F2)
    } else if c == 'R' {
        Some(Key::F3)
    } else if c == 'S' {
        Some(Key::F4)
    } else {
        None
    }
}

/// Key of the VT code `n` in `CSI <n>~`
pub open spec fn vt_code_key(n: nat) -> Option<Key> {
    if n == 1 || n == 7 {
        Some(Key::Home)
    } else if n == 2 {
        Some(Key::Insert)
    } else if n == 3 {
        Some(Key::Delete)
    } else if n == 4 || n == 8 {
        Some(Key::End)
    } else if n == 5 {
        Some(Key::PgUp)
    } else if n == 6 {
        Some(Key::PgDown)
    } else if n == 11 {
        Some(Key::F1)
    } else if n == 12 {
        Some(Key::F2)
    } else if n == 13 {
        Some(Key::F3)
    } else if n == 14 {
        Some(Key::F4)
    } else if n == 15 {
        Some(Key::F5)
    } else if n == 17 {
        Some(Key::F6)
    } else if n == 18 {
        Some(Key::F7)
    } else if n == 19 {
        Some(Key::F8)
    } else if n == 20 {
        Some(Key::F9)
    } else if n == 21 {
        Some(Key::F10)
    } else if n == 23 {
        Some(Key::F11)
    } else if n == 24 {
        Some(Key::F12)
    } else {
        None
    }
}

/// Function key whose Shift variant rxvt sends as code `n` (Shift+F1 is F11, code 23, and so on)
pub open spec fn rxvt_shifted_key(n: nat) -> Option<Key> {
    if n == 23 {
        Some(Key::F1)
    } else if n == 24 {
        Some(Key::F2)
    } else if n == 25 {
        Some(Key::F3)
    } else if n == 26 {
        Some(Key::F4)
    } else if n == 28 {
        Some(Key::F5)
    } else if n == 29 {
        Some(Key::F6)
    } else if n == 31 {
        Some(Key::F7)
    } else if n == 32 {
        Some(Key::F8)
    } else if n == 33 {
        Some(Key::F9)
    } else if n == 34 {
        Some(Key::F10)
    } else {
        None
    }
}

/// Modifiers of the xterm parameter `m`: 1 plus Shift (1), Alt (2) and Ctrl (4)
pub open spec fn xterm_mods(m: nat) -> Option<u8> {
    if m == 1 {
        Some(KEY_MOD_SPECIAL)
    } else if m == 2 {
        Some(KEY_MOD_SPECIAL | KEY_MOD_SHIFT)
    } else if m == 3 {
        Some(KEY_MOD_SPECIAL | KEY_MOD_ALT)
    } else if m == 4 {
        Some(KEY_MOD_SPECIAL | KEY_MOD_SHIFT | KEY_MOD_ALT)
    } else if m == 5 {
        Some(KEY_MOD_SPECIAL | KEY_MOD_CTRL)
    } else if m == 6 {
        Some(KEY_MOD_SPECIAL | KEY_MOD_SHIFT | KEY_MOD_CTRL)
    } else if m == 7 {
        Some(KEY_MOD_SPECIAL | KEY_MOD_CTRL | KEY_MOD_ALT)
    } else if m == 8 {
        Some(KEY_MOD_SPECIAL | KEY_MOD_SHIFT | KEY_MOD_CTRL | KEY_MOD_ALT)
    } else {
        None
    }
}

/// A key with its modifiers, when both are known
pub open spec fn key_with_mods(k: Option<Key>, m: Option<u8>) -> Option<(Key, u8)> {
    match (k, m) {
        (Some(k), Some(m)) => Some((k, m)),
        _ => None,
    }
}

/// A run of at least one decimal digit
pub open spec fn is_number(s: Seq<char>) -> bool {
    s.len() > 0 && all_dec_digits(s)
}

/// Key and modifiers that a terminal means by the ESC sequence `ESC <s>`:
/// - `SS3 P` to `SS3 S`: F1 to F4;
/// - `CSI A`, `B`, `C`, `D`, `F`, `H`: the arrows, End and Home; `CSI Z`: Shift+Tab;
/// - `CSI <n>~` and `CSI <n>;<m>~`: the VT key of code `n`, with the xterm modifiers of `m`;
/// - `CSI 1;<m> <c>`: the arrow, End, Home or F1 to F4 key of `c`, with the modifiers of `m`;
/// - rxvt: `CSI <n>^` is Ctrl with the Shift variant of code `n`, `CSI <n>@` Ctrl+Shift with code `n`
pub open spec fn terminal_key_of(s: Seq<char>) -> Option<(Key, u8)> {
    if s.len() == 2 && s[0] == 'O' {
        key_with_mods(pf_key(s[1]), Some(KEY_MOD_SPECIAL))
    } else if s.len() >= 2 && s[0] == '[' {
        let fin = s.last();
        let body = s.subrange(1, s.len() - 1);
        let with_m = body.len() >= 3 && body[body.len() - 2] == ';';
        let np = if with_m { body.take(body.len() - 2) } else { body };
        let mp = if with_m { body.skip(body.len() - 1) } else { seq!['1'] };
        if body.len() == 0 {
            if fin == 'Z' {
                Some((Key::Tab, KEY_MOD_SPECIAL | KEY_MOD_SHIFT))
            } else {
                key_with_mods(csi_letter_key(fin), Some(KEY_MOD_SPECIAL))
            }
        } else if !is_number(np) || !is_number(mp) {
            None
        } else {
            let n = dec_digits_value(np);
            let m = dec_digits_value(mp);
            if fin == '~' {
                key_with_mods(vt_code_key(n), xterm_mods(m))
            } else if fin == '^' && !with_m {
                key_with_mods(rxvt_shifted_key(n), Some(KEY_MOD_SPECIAL | KEY_MOD_SHIFT | KEY_MOD_CTRL))
            } else if fin == '@' && !with_m {
                key_with_mods(vt_code_key(n), Some(KEY_MOD_SPECIAL | KEY_MOD_SHIFT | KEY_MOD_CTRL))
            } else if n == 1 && with_m {
                key_with_mods(
                    if csi_letter_key(fin) is Some { csi_letter_key(fin) } else { pf_key(fin) },
                    xterm_mods(m),
                )
            } else {
                None
            }
        }
    } else {
        None
    }
}

/// The name of a key in the key map, after its modifiers
pub open spec fn key_base_name(k: Key) -> Seq<char> {
    match k {
        Key::Up => seq!['U', 'p'],
        Key::Down => seq!['D', 'o', 'w', 'n'],
        Key::Right => seq!['R', 'i', 'g', 'h', 't'],
        Key::Left => seq!['L', 'e', 'f', 't'],
        Key::End => seq!['E', 'n', 'd'],
        Key::Home => seq!['H', 'o', 'm', 'e'],
        Key::Insert => seq!['I', 'n', 's'],
        Key::Delete => seq!['D', 'e', 'l'],
        Key::PgUp => seq!['P', 'g', 'U', 'p'],
        Key::Tab => seq!['T', 'a', 'b'],
        Key::F1 => seq!['F', '1'],
        Key::F2 => seq!['F', '2'],
        Key::F3 => seq!['F', '3'],
        Key::F4 => seq!['F', '4'],
        Key::F5 => seq!['F', '5'],
        Key::F6 => seq!['F', '6'],
        Key::F7 => seq!['F', '7'],
        Key::F8 => seq!['F', '8'],
        Key::F9 => seq!['F', '9'],
        Key::F10 => seq!['F', '1', '0'],
        Key::F11 => seq!['F', '1', '1'],
        Key::F12 => seq!['F', '1', '2'],
        Key::PgDown => seq!['P', 'g', 'D', 'o', 'w', 'n'],
        _ => Seq::empty(),
    }
}

/// The prefix of a key name that tells its modifiers (with the special-key bit 8: Ctrl 1, Alt
/// 2, Shift 4): `S-` Shift, `M-` Alt, `C-` Ctrl
pub open spec fn mods_name_prefix(kmod: u8) -> Seq<char> {
    if kmod == 12 {
        seq!['S', '-']
    } else if kmod == 10 {
        seq!['M', '-']
    } else if kmod == 9 {
        seq!['C', '-']
    } else if kmod == 13 {
        seq!['S', '-', 'C', '-']
    } else if kmod == 11 {
        seq!['C', '-', 'M', '-']
    } else {
        Seq::empty()
    }
}

/// The values of the modifier sets the key map uses
proof fn lemma_mod_values()
    ensures
        KEY_MOD_SPECIAL == 8,
        KEY_MOD_SPECIAL | KEY_MOD_SHIFT == 12,
        KEY_MOD_SPECIAL | KEY_MOD_ALT == 10,
        KEY_MOD_SPECIAL | KEY_MOD_CTRL == 9,
        KEY_MOD_SPECIAL | KEY_MOD_SHIFT | KEY_MOD_CTRL == 13,
        KEY_MOD_SPECIAL | KEY_MOD_CTRL | KEY_MOD_ALT == 11,
{
    assert(8u8 | 4u8 == 12u8) by (bit_vector);
    assert(8u8 | 2u8 == 10u8) by (bit_vector);
    assert(8u8 | 1u8 == 9u8) by (bit_vector);
    assert(8u8 | 4u8 | 1u8 == 13u8) by (bit_vector);
    assert(8u8 | 1u8 | 2u8 == 11u8) by (bit_vector);
}

/// The entry's name is its modifiers' prefix and its key's name (a modified Page Down is also
/// spelled `PdDown`)
pub open spec fn named_by_convention(e: SeqMap) -> bool {
    ||| e.name@ =~= mods_name_prefix(e.kmod) + key_base_name(e.key)
    ||| e.key == Key::PgDown && e.kmod != 8 && e.name@ =~= mods_name_prefix(e.kmod) + seq!['P', 'd', 'D', 'o', 'w', 'n']
}

/// The entry `e` of a key map sends its sequence to the key and modifiers the terminal means,
/// under the name of that key with those modifiers
pub open spec fn follows_terminal(e: SeqMap) -> bool {
    terminal_key_of(e.seq@) == Some((e.key, e.kmod)) && named_by_convention(e)
}

proof fn lemma_key_table_0_20()
    ensures
        forall|i: int| 0 <= i < 20 ==> follows_terminal(#[trigger] esc_keys_table()[i]),
{
    reveal_with_fuel(dec_digits_value, 3);
    lemma_mod_values();
    assert forall|i: int| 0 <= i < 20 implies follows_terminal(#[trigger] esc_keys_table()[i]) by {
        if i == 0 {
            reveal_strlit("[A");
            reveal_strlit("Up");
        } else if i == 1 {
            reveal_strlit("[B");
            reveal_strlit("Down");
        } else if i == 2 {
            reveal_strlit("[C");
            reveal_strlit("Right");
        } else if i == 3 {
            reveal_strlit("[D");
            reveal_strlit("Left");
        } else if i == 4 {
            reveal_strlit("[F");
            reveal_strlit("End");
        } else if i == 5 {
            reveal_strlit("[H");
            reveal_strlit("Home");
        } else if i == 6 {
            reveal_strlit("[1~");
            reveal_strlit("Home");
        } else if i == 7 {
            reveal_strlit("[2~");
            reveal_strlit("Ins");
        } else if i == 8 {
            reveal_strlit("[3~");
            reveal_strlit("Del");
        } else if i == 9 {
            reveal_strlit("[4~");
            reveal_strlit("End");
        } else if i == 10 {
            reveal_strlit("[5~");
            reveal_strlit("PgUp");
        } else if i == 11 {
            reveal_strlit("[6~");
            reveal_strlit("PgDown");
        } else if i == 12 {
            reveal_strlit("[7~");
            reveal_strlit("Home");
        } else if i == 13 {
            reveal_strlit("[8~");
            reveal_strlit("End");
        } else if i == 14 {
            reveal_strlit("OP");
            reveal_strlit("F1");
        } else if i == 15 {
            reveal_strlit("OQ");
            reveal_strlit("F2");
        } else if i == 16 {
            reveal_strlit("OR");
            reveal_strlit("F3");
        } else if i == 17 {
            reveal_strlit("OS");
            reveal_strlit("F4");
        } else if i == 18 {
            reveal_strlit("[11~");
            reveal_strlit("F1");
        } else if i == 19 {
            reveal_strlit("[12~");
            reveal_strlit("F2");
        }
    }
}

proof fn lemma_key_table_20_40()
    ensures
        forall|i: int| 20 <= i < 40 ==> follows_terminal(#[trigger] esc_keys_table()[i]),
{
    reveal_with_fuel(dec_digits_value, 3);
    lemma_mod_values();
    assert forall|i: int| 20 <= i < 40 implies follows_terminal(#[trigger] esc_keys_table()[i]) by {
        if i == 20 {
            reveal_strlit("[13~");
            reveal_strlit("F3");
        } else if i == 21 {
            reveal_strlit("[14~");
            reveal_strlit("F4");
        } else if i == 22 {
            reveal_strlit("[15~");
            reveal_strlit("F5");
        } else if i == 23 {
            reveal_strlit("[17~");
            reveal_strlit("F6");
        } else if i == 24 {
            reveal_strlit("[18~");
            reveal_strlit("F7");
        } else if i == 25 {
            reveal_strlit("[19~");
            reveal_strlit("F8");
        } else if i == 26 {
            reveal_strlit("[20~");
            reveal_strlit("F9");
        } else if i == 27 {
            reveal_strlit("[21~");
            reveal_strlit("F10");
        } else if i == 28 {
            reveal_strlit("[23~");
            reveal_strlit("F11");
        } else if i == 29 {
            reveal_strlit("[24~");
            reveal_strlit("F12");
        } else if i == 30 {
            reveal_strlit("[1;2A");
            reveal_strlit("S-Up");
        } else if i == 31 {
            reveal_strlit("[1;2B");
            reveal_strlit("S-Down");
        } else if i == 32 {
            reveal_strlit("[1;2C");
            reveal_strlit("S-Right");
        } else if i == 33 {
            reveal_strlit("[1;2D");
            reveal_strlit("S-Left");
        } else if i == 34 {
            reveal_strlit("[1;2F");
            reveal_strlit("S-End");
        } else if i == 35 {
            reveal_strlit("[1;2H");
            reveal_strlit("S-Home");
        } else if i == 36 {
            reveal_strlit("[1;2~");
            reveal_strlit("S-Home");
        } else if i == 37 {
            reveal_strlit("[2;2~");
            reveal_strlit("S-Ins");
        } else if i == 38 {
            reveal_strlit("[3;2~");
            reveal_strlit("S-Del");
        } else if i == 39 {
            reveal_strlit("[4;2~");
            reveal_strlit("S-End");
        }
    }
}

proof fn lemma_key_table_40_60()
    ensures
        forall|i: int| 40 <= i < 60 ==> follows_terminal(#[trigger] esc_keys_table()[i]),
{
    reveal_with_fuel(dec_digits_value, 3);
    lemma_mod_values();
    assert forall|i: int| 40 <= i < 60 implies follows_terminal(#[trigger] esc_keys_table()[i]) by {
        if i == 40 {
            reveal_strlit("[5;2~");
            reveal_strlit("S-PgUp");
        } else if i == 41 {
            reveal_strlit("[6;2~");
            reveal_strlit("S-PdDown");
        } else if i == 42 {
            reveal_strlit("[1;2P");
            reveal_strlit("S-F1");
        } else if i == 43 {
            reveal_strlit("[1;2Q");
            reveal_strlit("S-F2");
        } else if i == 44 {
            reveal_strlit("[1;2R");
            reveal_strlit("S-F3");
        } else if i == 45 {
            reveal_strlit("[1;2S");
            reveal_strlit("S-F4");
        } else if i == 46 {
            reveal_strlit("[15;2~");
            reveal_strlit("S-F5");
        } else if i == 47 {
            reveal_strlit("[17;2~");
            reveal_strlit("S-F6");
        } else if i == 48 {
            reveal_strlit("[18;2~");
            reveal_strlit("S-F7");
        } else if i == 49 {
            reveal_strlit("[19;2~");
            reveal_strlit("S-F8");
        } else if i == 50 {
            reveal_strlit("[20;2~");
            reveal_strlit("S-F9");
        } else if i == 51 {
            reveal_strlit("[21;2~");
            reveal_strlit("S-F10");
        } else if i == 52 {
            reveal_strlit("[23;2~");
            reveal_strlit("S-F11");
        } else if i == 53 {
            reveal_strlit("[24;2~");
            reveal_strlit("S-F12");
        } else if i == 54 {
            reveal_strlit("[Z");
            reveal_strlit("S-Tab");
        } else if i == 55 {
            reveal_strlit("[1;3A");
            reveal_strlit("M-Up");
        } else if i == 56 {
            reveal_strlit("[1;3B");
            reveal_strlit("M-Down");
        } else if i == 57 {
            reveal_strlit("[1;3C");
            reveal_strlit("M-Right");
        } else if i == 58 {
            reveal_strlit("[1;3D");
            reveal_strlit("M-Left");
        } else if i == 59 {
            reveal_strlit("[1;3F");
            reveal_strlit("M-End");
        }
    }
}

proof fn lemma_key_table_60_80()
    ensures
        forall|i: int| 60 <= i < 80 ==> follows_terminal(#[trigger] esc_keys_table()[i]),
{
    reveal_with_fuel(dec_digits_value, 3);
    lemma_mod_values();
    assert forall|i: int| 60 <= i < 80 implies follows_terminal(#[trigger] esc_keys_table()[i]) by {
        if i == 60 {
            reveal_strlit("[1;3H");
            reveal_strlit("M-Home");
        } else if i == 61 {
            reveal_strlit("[2;3~");
            reveal_strlit("M-Ins");
        } else if i == 62 {
            reveal_strlit("[3;3~");
            reveal_strlit("M-Del");
        } else if i == 63 {
            reveal_strlit("[5;3~");
            reveal_strlit("M-PgUp");
        } else if i == 64 {
            reveal_strlit("[6;3~");
            reveal_strlit("M-PdDown");
        } else if i == 65 {
            reveal_strlit("[1;3P");
            reveal_strlit("M-F1");
        } else if i == 66 {
            reveal_strlit("[1;3Q");
            reveal_strlit("M-F2");
        } else if i == 67 {
            reveal_strlit("[1;3R");
            reveal_strlit("M-F3");
        } else if i == 68 {
            reveal_strlit("[1;3S");
            reveal_strlit("M-F4");
        } else if i == 69 {
            reveal_strlit("[15;3~");
            reveal_strlit("M-F5");
        } else if i == 70 {
            reveal_strlit("[17;3~");
            reveal_strlit("M-F6");
        } else if i == 71 {
            reveal_strlit("[18;3~");
            reveal_strlit("M-F7");
        } else if i == 72 {
            reveal_strlit("[19;3~");
            reveal_strlit("M-F8");
        } else if i == 73 {
            reveal_strlit("[20;3~");
            reveal_strlit("M-F9");
        } else if i == 74 {
            reveal_strlit("[21;3~");
            reveal_strlit("M-F10");
        } else if i == 75 {
            reveal_strlit("[23;3~");
            reveal_strlit("M-F11");
        } else if i == 76 {
            reveal_strlit("[24;3~");
            reveal_strlit("M-F12");
        } else if i == 77 {
            reveal_strlit("[1;5A");
            reveal_strlit("C-Up");
        } else if i == 78 {
            reveal_strlit("[1;5B");
            reveal_strlit("C-Down");
        } else if i == 79 {
            reveal_strlit("[1;5C");
            reveal_strlit("C-Right");
        }
    }
}

proof fn lemma_key_table_80_100()
    ensures
        forall|i: int| 80 <= i < 100 ==> follows_terminal(#[trigger] esc_keys_table()[i]),
{
    reveal_with_fuel(dec_digits_value, 3);
    lemma_mod_values();
    assert forall|i: int| 80 <= i < 100 implies follows_terminal(#[trigger] esc_keys_table()[i]) by {
        if i == 80 {
            reveal_strlit("[1;5D");
            reveal_strlit("C-Left");
        } else if i == 81 {
            reveal_strlit("[1;5F");
            reveal_strlit("C-End");
        } else if i == 82 {
            reveal_strlit("[1;5H");
            reveal_strlit("C-Home");
        } else if i == 83 {
            reveal_strlit("[2;5~");
            reveal_strlit("C-Ins");
        } else if i == 84 {
            reveal_strlit("[3;5~");
            reveal_strlit("C-Del");
        } else if i == 85 {
            reveal_strlit("[5;5~");
            reveal_strlit("C-PgUp");
        } else if i == 86 {
            reveal_strlit("[6;5~");
            reveal_strlit("C-PdDown");
        } else if i == 87 {
            reveal_strlit("[1;5P");
            reveal_strlit("C-F1");
        } else if i == 88 {
            reveal_strlit("[1;5Q");
            reveal_strlit("C-F2");
        } else if i == 89 {
            reveal_strlit("[1;5R");
            reveal_strlit("C-F3");
        } else if i == 90 {
            reveal_strlit("[1;5S");
            reveal_strlit("C-F4");
        } else if i == 91 {
            reveal_strlit("[15;5~");
            reveal_strlit("C-F5");
        } else if i == 92 {
            reveal_strlit("[17;5~");
            reveal_strlit("C-F6");
        } else if i == 93 {
            reveal_strlit("[18;5~");
            reveal_strlit("C-F7");
        } else if i == 94 {
            reveal_strlit("[19;5~");
            reveal_strlit("C-F8");
        } else if i == 95 {
            reveal_strlit("[20;5~");
            reveal_strlit("C-F9");
        } else if i == 96 {
            reveal_strlit("[21;5~");
            reveal_strlit("C-F10");
        } else if i == 97 {
            reveal_strlit("[23;5~");
            reveal_strlit("C-F11");
        } else if i == 98 {
            reveal_strlit("[24;5~");
            reveal_strlit("C-F12");
        } else if i == 99 {
            reveal_strlit("[1;6A");
            reveal_strlit("S-C-Up");
        }
    }
}

proof fn lemma_key_table_100_120()
    ensures
        forall|i: int| 100 <= i < 120 ==> follows_terminal(#[trigger] esc_keys_table()[i]),
{
    reveal_with_fuel(dec_digits_value, 3);
    lemma_mod_values();
    assert forall|i: int| 100 <= i < 120 implies follows_terminal(#[trigger] esc_keys_table()[i]) by {
        if i == 100 {
            reveal_strlit("[1;6B");
            reveal_strlit("S-C-Down");
        } else if i == 101 {
            reveal_strlit("[1;6C");
            reveal_strlit("S-C-Right");
        } else if i == 102 {
            reveal_strlit("[1;6D");
            reveal_strlit("S-C-Left");
        } else if i == 103 {
            reveal_strlit("[1;6F");
            reveal_strlit("S-C-End");
        } else if i == 104 {
            reveal_strlit("[1;6H");
            reveal_strlit("S-C-Home");
        } else if i == 105 {
            reveal_strlit("[2;6~");
            reveal_strlit("S-C-Ins");
        } else if i == 106 {
            reveal_strlit("[3;6~");
            reveal_strlit("S-C-Del");
        } else if i == 107 {
            reveal_strlit("[5;6~");
            reveal_strlit("S-C-PgUp");
        } else if i == 108 {
            reveal_strlit("[6;6~");
            reveal_strlit("S-C-PdDown");
        } else if i == 109 {
            reveal_strlit("[1;6P");
            reveal_strlit("S-C-F1");
        } else if i == 110 {
            reveal_strlit("[1;6Q");
            reveal_strlit("S-C-F2");
        } else if i == 111 {
            reveal_strlit("[1;6R");
            reveal_strlit("S-C-F3");
        } else if i == 112 {
            reveal_strlit("[1;6S");
            reveal_strlit("S-C-F4");
        } else if i == 113 {
            reveal_strlit("[15;6~");
            reveal_strlit("S-C-F5");
        } else if i == 114 {
            reveal_strlit("[17;6~");
            reveal_strlit("S-C-F6");
        } else if i == 115 {
            reveal_strlit("[18;6~");
            reveal_strlit("S-C-F7");
        } else if i == 116 {
            reveal_strlit("[19;6~");
            reveal_strlit("S-C-F8");
        } else if i == 117 {
            reveal_strlit("[20;6~");
            reveal_strlit("S-C-F9");
        } else if i == 118 {
            reveal_strlit("[21;6~");
            reveal_strlit("S-C-F10");
        } else if i == 119 {
            reveal_strlit("[23;6~");
            reveal_strlit("S-C-F11");
        }
    }
}

proof fn lemma_key_table_120_140()
    ensures
        forall|i: int| 120 <= i < 140 ==> follows_terminal(#[trigger] esc_keys_table()[i]),
{
    reveal_with_fuel(dec_digits_value, 3);
    lemma_mod_values();
    assert forall|i: int| 120 <= i < 140 implies follows_terminal(#[trigger] esc_keys_table()[i]) by {
        if i == 120 {
            reveal_strlit("[24;6~");
            reveal_strlit("S-C-F12");
        } else if i == 121 {
            reveal_strlit("[23^");
            reveal_strlit("S-C-F1");
        } else if i == 122 {
            reveal_strlit("[24^");
            reveal_strlit("S-C-F2");
        } else if i == 123 {
            reveal_strlit("[25^");
            reveal_strlit("S-C-F3");
        } else if i == 124 {
            reveal_strlit("[26^");
            reveal_strlit("S-C-F4");
        } else if i == 125 {
            reveal_strlit("[28^");
            reveal_strlit("S-C-F5");
        } else if i == 126 {
            reveal_strlit("[29^");
            reveal_strlit("S-C-F6");
        } else if i == 127 {
            reveal_strlit("[31^");
            reveal_strlit("S-C-F7");
        } else if i == 128 {
            reveal_strlit("[32^");
            reveal_strlit("S-C-F8");
        } else if i == 129 {
            reveal_strlit("[33^");
            reveal_strlit("S-C-F9");
        } else if i == 130 {
            reveal_strlit("[34^");
            reveal_strlit("S-C-F10");
        } else if i == 131 {
            reveal_strlit("[23@");
            reveal_strlit("S-C-F11");
        } else if i == 132 {
            reveal_strlit("[24@");
            reveal_strlit("S-C-F12");
        } else if i == 133 {
            reveal_strlit("[1;7A");
            reveal_strlit("C-M-Up");
        } else if i == 134 {
            reveal_strlit("[1;7B");
            reveal_strlit("C-M-Down");
        } else if i == 135 {
            reveal_strlit("[1;7C");
            reveal_strlit("C-M-Right");
        } else if i == 136 {
            reveal_strlit("[1;7D");
            reveal_strlit("C-M-Left");
        } else if i == 137 {
            reveal_strlit("[1;7F");
            reveal_strlit("C-M-End");
        } else if i == 138 {
            reveal_strlit("[1;7H");
            reveal_strlit("C-M-Home");
        } else if i == 139 {
            reveal_strlit("[2;7~");
            reveal_strlit("C-M-Ins");
        }
    }
}

proof fn lemma_key_table_140_155()
    ensures
        forall|i: int| 140 <= i < 155 ==> follows_terminal(#[trigger] esc_keys_table()[i]),
{
    reveal_with_fuel(dec_digits_value, 3);
    lemma_mod_values();
    assert forall|i: int| 140 <= i < 155 implies follows_terminal(#[trigger] esc_keys_table()[i]) by {
        if i == 140 {
            reveal_strlit("[3;7~");
            reveal_strlit("C-M-Del");
        } else if i == 141 {
            reveal_strlit("[5;7~");
            reveal_strlit("C-M-PgUp");
        } else if i == 142 {
            reveal_strlit("[6;7~");
            reveal_strlit("C-M-PdDown");
        } else if i == 143 {
            reveal_strlit("[1;7P");
            reveal_strlit("C-M-F1");
        } else if i == 144 {
            reveal_strlit("[1;7Q");
            reveal_strlit("C-M-F2");
        } else if i == 145 {
            reveal_strlit("[1;7R");
            reveal_strlit("C-M-F3");
        } else if i == 146 {
            reveal_strlit("[1;7S");
            reveal_strlit("C-M-F4");
        } else if i == 147 {
            reveal_strlit("[15;7~");
            reveal_strlit("C-M-F5");
        } else if i == 148 {
            reveal_strlit("[17;7~");
            reveal_strlit("C-M-F6");
        } else if i == 149 {
            reveal_strlit("[18;7~");
            reveal_strlit("C-M-F7");
        } else if i == 150 {
            reveal_strlit("[19;7~");
            reveal_strlit("C-M-F8");
        } else if i == 151 {
            reveal_strlit("[20;7~");
            reveal_strlit("C-M-F9");
        } else if i == 152 {
            reveal_strlit("[21;7~");
            reveal_strlit("C-M-F10");
        } else if i == 153 {
            reveal_strlit("[23;7~");
            reveal_strlit("C-M-F11");
        } else if i == 154 {
            reveal_strlit("[24;7~");
            reveal_strlit("C-M-F12");
        }
    }
}

/// Every entry of the ESC sequence key map sends its sequence to the key and modifiers that the
/// terminal conventions assign it (so `ESC [5~` is Page Up and `ESC [6~` Page Down)
pub proof fn lemma_key_table_follows_terminal()
    ensures
        forall|i: int| 0 <= i < esc_keys_table().len() ==> follows_terminal(#[trigger] esc_keys_table()[i]),
{
    assert(esc_keys_table().len() == 155);
    lemma_key_table_0_20();
    lemma_key_table_20_40();
    lemma_key_table_40_60();
    lemma_key_table_60_80();
    lemma_key_table_80_100();
    lemma_key_table_100_120();
    lemma_key_table_120_140();
    lemma_key_table_140_155();
}

/// A decoder whose key map holds the entries of the built-in map, with no sequence a prefix of
/// another, decodes `ESC <s>` for each of them as the key and modifiers the terminal conventions
/// give for `s`, named after them, and leaves the bytes that follow
pub proof fn lemma_decoder_sends_terminal_keys(keys: Seq<SeqMap>, st: DecoderState, k: int, rest: Seq<u8>)
    requires
        is_prefix_free(keys),
        keys.to_multiset() == esc_keys_table().to_multiset(),
        0 <= k < keys.len(),
        2 <= seq_bytes(keys[k]).len() <= 6,
        seq_bytes(keys[k])[0] != ESC_CODE,
        seq_bytes(keys[k])[0] != 0,
        !(seq_bytes(keys[k])[0] == 0x5B && seq_bytes(keys[k])[1] == 0x4D),
    ensures
        terminal_key_of(keys[k].seq@) matches Some((key, kmod)) && decode_spec(keys, st, seq![ESC_CODE] + seq_bytes(keys[k]) + rest).2
            == (Decoded { evt: DecodedEvent::Key(key), mask: kmod, name: keys[k].name }),
        decode_spec(keys, st, seq![ESC_CODE] + seq_bytes(keys[k]) + rest).1 == rest,
        named_by_convention(keys[k]),
{
    broadcast use vstd::seq_lib::group_to_multiset_ensures;
    lemma_decode_known_key(keys, st, k, rest);
    let e = keys[k];
    assert(keys.contains(e));
    assert(keys.to_multiset().count(e) > 0);
    assert(esc_keys_table().to_multiset().count(e) > 0);
    assert(esc_keys_table().contains(e));
    let i = choose|i: int| 0 <= i < esc_keys_table().len() && esc_keys_table()[i] == e;
    lemma_key_table_follows_terminal();
    assert(follows_terminal(esc_keys_table()[i]));
}

/// A control byte 0x01 to 0x1A that is no special key is Ctrl with the letter it stands for
/// (the byte plus 64, `A` to `Z`), named `C-` and the letter; no other byte is
pub proof fn lemma_ctrl_letters(c: u8)
    ensures
        (1 <= c <= 26) == (crate::input_decoder::ctrl_key(c) is Some),
        crate::input_decoder::ctrl_key(c) matches Some((l, n)) ==> l == c + 64 && n@ == seq!['C', '-', ((c + 64) as u8) as char],
{
    if c == 1 {
        reveal_strlit("C-A");
    } else if c == 2 {
        reveal_strlit("C-B");
    } else if c == 3 {
        reveal_strlit("C-C");
    } else if c == 4 {
        reveal_strlit("C-D");
    } else if c == 5 {
        reveal_strlit("C-E");
    } else if c == 6 {
        reveal_strlit("C-F");
    } else if c == 7 {
        reveal_strlit("C-G");
    } else if c == 8 {
        reveal_strlit("C-H");
    } else if c == 9 {
        reveal_strlit("C-I");
    } else if c == 10 {
        reveal_strlit("C-J");
    } else if c == 11 {
        reveal_strlit("C-K");
    } else if c == 12 {
        reveal_strlit("C-L");
    } else if c == 13 {
        reveal_strlit("C-M");
    } else if c == 14 {
        reveal_strlit("C-N");
    } else if c == 15 {
        reveal_strlit("C-O");
    } else if c == 16 {
        reveal_strlit("C-P");
    } else if c == 17 {
        reveal_strlit("C-Q");
    } else if c == 18 {
        reveal_strlit("C-R");
    } else if c == 19 {
        reveal_strlit("C-S");
    } else if c == 20 {
        reveal_strlit("C-T");
    } else if c == 21 {
        reveal_strlit("C-U");
    } else if c == 22 {
        reveal_strlit("C-V");
    } else if c == 23 {
        reveal_strlit("C-W");
    } else if c == 24 {
        reveal_strlit("C-X");
    } else if c == 25 {
        reveal_strlit("C-Y");
    } else if c == 26 {
        reveal_strlit("C-Z");
    }
}

} // verus!
