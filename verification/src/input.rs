//! # RTWins terminal input constants and structures

use vstd::prelude::*;
use vstd::string::StringSliceAdditionalSpecFns;

verus! {

/// ANSI control codes
#[derive(PartialEq, Eq, Structural, Clone, Copy, Debug)]
pub enum AnsiCodes {
    /// Null
    NUL,
    /// Start of Header
    SOH,
    /// Start of Text
    STX,
    /// End of Text
    ETX,
    /// End of Transmission
    EOT,
    /// Enquiry
    ENQ,
    /// Acknowledgment
    ACK,
    /// Bell
    BEL,
    /// Backspace
    BS,
    /// Horizontal Tab
    HT,
    /// Line Feed
    LF,
    /// Vertical Tab
    VT,
    /// Form Feed
    FF,
    /// Carriage Return
    CR,
    /// Shift Out
    SO,
    /// Shift In
    SI,
    /// Data Link Escape
    DLE,
    /// XON Device Control 1
    DC1,
    /// Device Control 2
    DC2,
    /// XOFF Device Control 3
    DC3,
    /// Device Control 4
    DC4,
    /// Negative Ack.
    NAK,
    /// Synchronous Idle
    SYN,
    /// End of Trans. Block
    ETB,
    /// Cancel
    CAN,
    /// End of Medium
    EM,
    /// Substitute
    SUB,
    /// Escape
    ESC,
    /// File Separator
    FS,
    /// Group Separator
    GS,
    /// Record Separator
    RS,
    /// Unit Separator
    US,
    /// Delete
    DEL,
}

/// The byte value of an ANSI control code
pub open spec fn ansi_code_value(c: AnsiCodes) -> u8 {
    match c {
        AnsiCodes::NUL => 0x00,
        AnsiCodes::SOH => 0x01,
        AnsiCodes::STX => 0x02,
        AnsiCodes::ETX => 0x03,
        AnsiCodes::EOT => 0x04,
        AnsiCodes::ENQ => 0x05,
        AnsiCodes::ACK => 0x06,
        AnsiCodes::BEL => 0x07,
        AnsiCodes::BS => 0x08,
        AnsiCodes::HT => 0x09,
        AnsiCodes::LF => 0x0A,
        AnsiCodes::VT => 0x0B,
        AnsiCodes::FF => 0x0C,
        AnsiCodes::CR => 0x0D,
        AnsiCodes::SO => 0x0E,
        AnsiCodes::SI => 0x0F,
        AnsiCodes::DLE => 0x10,
        AnsiCodes::DC1 => 0x11,
        AnsiCodes::DC2 => 0x12,
        AnsiCodes::DC3 => 0x13,
        AnsiCodes::DC4 => 0x14,
        AnsiCodes::NAK => 0x15,
        AnsiCodes::SYN => 0x16,
        AnsiCodes::ETB => 0x17,
        AnsiCodes::CAN => 0x18,
        AnsiCodes::EM => 0x19,
        AnsiCodes::SUB => 0x1A,
        AnsiCodes::ESC => 0x1B,
        AnsiCodes::FS => 0x1C,
        AnsiCodes::GS => 0x1D,
        AnsiCodes::RS => 0x1E,
        AnsiCodes::US => 0x1F,
        AnsiCodes::DEL => 0x7F,
    }
}

impl AnsiCodes {
    /// Returns the byte value of the control code
    pub fn code(self) -> (r: u8)
        ensures
            r == ansi_code_value(self),
    {
        match self {
            AnsiCodes::NUL => 0x00,
            AnsiCodes::SOH => 0x01,
            AnsiCodes::STX => 0x02,
            AnsiCodes::ETX => 0x03,
            AnsiCodes::EOT => 0x04,
            AnsiCodes::ENQ => 0x05,
            AnsiCodes::ACK => 0x06,
            AnsiCodes::BEL => 0x07,
            AnsiCodes::BS => 0x08,
            AnsiCodes::HT => 0x09,
            AnsiCodes::LF => 0x0A,
            AnsiCodes::VT => 0x0B,
            AnsiCodes::FF => 0x0C,
            AnsiCodes::CR => 0x0D,
            AnsiCodes::SO => 0x0E,
            AnsiCodes::SI => 0x0F,
            AnsiCodes::DLE => 0x10,
            AnsiCodes::DC1 => 0x11,
            AnsiCodes::DC2 => 0x12,
            AnsiCodes::DC3 => 0x13,
            AnsiCodes::DC4 => 0x14,
            AnsiCodes::NAK => 0x15,
            AnsiCodes::SYN => 0x16,
            AnsiCodes::ETB => 0x17,
            AnsiCodes::CAN => 0x18,
            AnsiCodes::EM => 0x19,
            AnsiCodes::SUB => 0x1A,
            AnsiCodes::ESC => 0x1B,
            AnsiCodes::FS => 0x1C,
            AnsiCodes::GS => 0x1D,
            AnsiCodes::RS => 0x1E,
            AnsiCodes::US => 0x1F,
            AnsiCodes::DEL => 0x7F,
        }
    }
}

/// Escape control code
pub const ESC_CODE: u8 = 0x1B;
/// Horizontal tab control code
pub const HT_CODE: u8 = 0x09;
/// Line feed control code
pub const LF_CODE: u8 = 0x0A;
/// Carriage return control code
pub const CR_CODE: u8 = 0x0D;
/// Group separator control code
pub const GS_CODE: u8 = 0x1D;
/// Record separator control code
pub const RS_CODE: u8 = 0x1E;
/// Unit separator control code
pub const US_CODE: u8 = 0x1F;
/// Delete control code
pub const DEL_CODE: u8 = 0x7F;

/// Special keyboard keys
#[derive(PartialEq, Eq, Structural, Copy, Clone, Debug)]
pub enum Key {
    /// No key
    NoKey,
    Esc,
    Tab,
    Enter,
    Backspace,
    Pause,
    //
    Up,
    Down,
    Left,
    Right,
    //
    Insert,
    Delete,
    Home,
    End,
    PgUp,
    PgDown,
    //
    F1,
    F2,
    F3,
    F4,
    F5,
    F6,
    F7,
    F8,
    F9,
    F10,
    F11,
    F12,
}

impl Default for Key {
    fn default() -> (r: Self)
        ensures
            r == Key::NoKey,
    {
        Key::NoKey
    }
}

/// Mouse button click events
#[derive(PartialEq, Eq, Structural, PartialOrd, Debug, Clone, Copy)]
pub enum MouseEvent {
    /// No mouse event
    NoEvent,
    ButtonLeft,
    ButtonMid,
    ButtonRight,
    ButtonGoBack,
    ButtonGoForward,
    ButtonReleased,
    WheelUp,
    WheelDown,
}

impl Default for MouseEvent {
    fn default() -> (r: Self)
        ensures
            r == MouseEvent::NoEvent,
    {
        MouseEvent::NoEvent
    }
}

/// Position of a mouse event in the declaration order of `MouseEvent`
pub open spec fn mouse_event_rank(e: MouseEvent) -> int {
    match e {
        MouseEvent::NoEvent => 0,
        MouseEvent::ButtonLeft => 1,
        MouseEvent::ButtonMid => 2,
        MouseEvent::ButtonRight => 3,
        MouseEvent::ButtonGoBack => 4,
        MouseEvent::ButtonGoForward => 5,
        MouseEvent::ButtonReleased => 6,
        MouseEvent::WheelUp => 7,
        MouseEvent::WheelDown => 8,
    }
}

impl MouseEvent {
    /// Position of the event in the declaration order; the derived ordering follows it
    pub fn rank(self) -> (r: u8)
        ensures
            r == mouse_event_rank(self),
    {
        match self {
            MouseEvent::NoEvent => 0,
            MouseEvent::ButtonLeft => 1,
            MouseEvent::ButtonMid => 2,
            MouseEvent::ButtonRight => 3,
            MouseEvent::ButtonGoBack => 4,
            MouseEvent::ButtonGoForward => 5,
            MouseEvent::ButtonReleased => 6,
            MouseEvent::WheelUp => 7,
            MouseEvent::WheelDown => 8,
        }
    }
}

/// Mouse event representation
#[derive(Debug, Clone, Copy, PartialEq, Eq, Structural)]
pub struct MouseInfo {
    /// button or wheel event
    pub evt: MouseEvent,
    /// 1:1 based terminal column of the event
    pub col: u8,
    /// 1:1 based terminal row of the event
    pub row: u8,
}

impl Default for MouseInfo {
    fn default() -> (r: Self)
        ensures
            r.evt == MouseEvent::NoEvent && r.col == 0 && r.row == 0,
    {
        Self { evt: MouseEvent::NoEvent, col: 0, row: 0 }
    }
}

/// Key modifiers
pub const KEY_MOD_NONE: u8 = 0b0000;
pub const KEY_MOD_CTRL: u8 = 0b0001;
pub const KEY_MOD_ALT: u8 = 0b0010;
pub const KEY_MOD_SHIFT: u8 = 0b0100;
pub const KEY_MOD_SPECIAL: u8 = 0b1000;

/// Representation of key modifiers coded on bits
#[derive(Debug, Copy, Clone, PartialEq, Eq, Structural)]
pub struct KeyMod {
    pub mask: u8,
}

impl Default for KeyMod {
    fn default() -> (r: Self)
        ensures
            r.mask == 0,
    {
        KeyMod { mask: 0 }
    }
}

impl KeyMod {
    /// No modifier set
    pub fn is_empty(&self) -> (r: bool)
        ensures
            r == (self.mask == 0),
    {
        self.mask == 0
    }

    /// Ctrl bit set
    pub fn has_ctrl(&self) -> (r: bool)
        ensures
            r == (self.mask & KEY_MOD_CTRL != 0),
    {
        self.mask & KEY_MOD_CTRL != 0
    }

    /// Alt bit set
    pub fn has_alt(&self) -> (r: bool)
        ensures
            r == (self.mask & KEY_MOD_ALT != 0),
    {
        self.mask & KEY_MOD_ALT != 0
    }

    /// Shift bit set
    pub fn has_shift(&self) -> (r: bool)
        ensures
            r == (self.mask & KEY_MOD_SHIFT != 0),
    {
        self.mask & KEY_MOD_SHIFT != 0
    }

    /// Special-key bit set
    pub fn has_special(&self) -> (r: bool)
        ensures
            r == (self.mask & KEY_MOD_SPECIAL != 0),
    {
        self.mask & KEY_MOD_SPECIAL != 0
    }

    /// Sets the Ctrl bit
    pub fn set_ctrl(&mut self)
        ensures
            final(self).mask == old(self).mask | KEY_MOD_CTRL,
    {
        self.mask = self.mask | KEY_MOD_CTRL;
    }

    /// Sets the Alt bit
    pub fn set_alt(&mut self)
        ensures
            final(self).mask == old(self).mask | KEY_MOD_ALT,
    {
        self.mask = self.mask | KEY_MOD_ALT;
    }

    /// Sets the Shift bit
    pub fn set_shift(&mut self)
        ensures
            final(self).mask == old(self).mask | KEY_MOD_SHIFT,
    {
        self.mask = self.mask | KEY_MOD_SHIFT;
    }
}

/// A modifier bit once set is reported as set, and setting one keeps the others
pub proof fn lemma_key_mod_set_then_has(mask: u8, other: u8)
    requires
        other == KEY_MOD_CTRL || other == KEY_MOD_ALT || other == KEY_MOD_SHIFT || other == KEY_MOD_SPECIAL,
    ensures
        (mask | KEY_MOD_CTRL) & KEY_MOD_CTRL != 0,
        (mask | KEY_MOD_ALT) & KEY_MOD_ALT != 0,
        (mask | KEY_MOD_SHIFT) & KEY_MOD_SHIFT != 0,
        mask & other != 0 ==> (mask | KEY_MOD_CTRL) & other != 0 && (mask | KEY_MOD_ALT) & other != 0
            && (mask | KEY_MOD_SHIFT) & other != 0,
        (mask | KEY_MOD_CTRL) != 0,
{
    assert((mask | 1u8) & 1u8 != 0) by (bit_vector);
    assert((mask | 2u8) & 2u8 != 0) by (bit_vector);
    assert((mask | 4u8) & 4u8 != 0) by (bit_vector);
    assert((mask | 1u8) != 0) by (bit_vector);
    assert(forall|o: u8| mask & o != 0 ==> (mask | 1u8) & o != 0 && (mask | 2u8) & o != 0 && (mask | 4u8) & o != 0)
        by (bit_vector);
}

/// Result of decoding the bytes as UTF-8 text, if they are valid UTF-8
#[verifier::external_body]
fn str_from_utf8(bytes: &[u8]) -> (r: Option<&str>)
    ensures
        r is Some <==> vstd::utf8::valid_utf8(bytes@),
        r matches Some(s) ==> s.spec_bytes() == bytes@,
{
    std::str::from_utf8(bytes).ok()
}

/// Buffer for UTF-8 sequence
#[derive(Debug, Clone, Copy)]
pub struct CharBuff {
    /// UTF-8 code: 'a', '4', 'Ł'
    pub utf8seq: [u8; 4],
    /// length of utf8seq seq
    pub utf8sl: u8,
}

/// The leading `utf8sl` bytes of the buffer (all four when `utf8sl` is larger)
pub open spec fn charbuff_bytes(cb: CharBuff) -> Seq<u8> {
    if cb.utf8sl <= 4 { cb.utf8seq@.take(cb.utf8sl as int) } else { cb.utf8seq@ }
}

/// The text held in the buffer: its leading bytes decoded, or empty when they are not UTF-8
pub open spec fn charbuff_text(cb: CharBuff) -> Seq<char> {
    if vstd::utf8::valid_utf8(charbuff_bytes(cb)) {
        vstd::utf8::decode_utf8(charbuff_bytes(cb))
    } else {
        Seq::empty()
    }
}

impl Default for CharBuff {
    fn default() -> (r: Self)
        ensures
            r.utf8seq@ == seq![0u8, 0u8, 0u8, 0u8],
            r.utf8sl == 0,
    {
        let r = CharBuff { utf8seq: [0u8; 4], utf8sl: 0 };
        assert(r.utf8seq@ =~= seq![0u8, 0u8, 0u8, 0u8]);
        r
    }
}

impl CharBuff {
    /// Reset all fields to initial state
    pub fn reset(&mut self)
        ensures
            final(self).utf8seq@ == seq![0u8, 0u8, 0u8, 0u8],
            final(self).utf8sl == 0,
    {
        self.utf8seq = [0u8; 4];
        self.utf8sl = 0;
    }

    /// Returns proper UTF-8 slice from self.utf8seq or empty slice in case of invalid sequence
    pub fn utf8str(&self) -> (r: &str)
        ensures
            r@ == charbuff_text(*self),
    {
        let n: usize = if self.utf8sl <= 4 { self.utf8sl as usize } else { 4 };
        let leading = slice_take(&self.utf8seq, n);
        assert(self.utf8seq@.take(4) =~= self.utf8seq@);
        assert(leading@ == charbuff_bytes(*self));
        match str_from_utf8(leading) {
            Some(s) => {
                proof {
                    vstd::utf8::encode_utf8_decode_utf8(s@);
                }
                s
            },
            None => {
                proof {
                    reveal_strlit("");
                }
                ""
            },
        }
    }

    /// Same as `utf8str()`
    pub fn as_str(&self) -> (r: &str)
        ensures
            r@ == charbuff_text(*self),
    {
        self.utf8str()
    }

    /// Returns the first character of the buffer text, or NUL when the text is empty
    pub fn as_char(&self) -> (r: char)
        ensures
            charbuff_text(*self).len() > 0 ==> r == charbuff_text(*self)[0],
            charbuff_text(*self).len() == 0 ==> r == '\0',
    {
        let s = self.utf8str();
        if s.unicode_len() > 0 {
            s.get_char(0)
        } else {
            '\0'
        }
    }
}

/// First `n` elements of the slice
fn slice_take(s: &[u8; 4], n: usize) -> (r: &[u8])
    requires
        n <= 4,
    ensures
        r@ == s@.take(n as int),
{
    vstd::slice::slice_subrange(s.as_slice(), 0, n)
}

/// Decoded input type
#[derive(Debug, Clone, Copy)]
pub enum InputEvent {
    /// No event decoded
    NoInput,
    /// Single UTF-8 character
    Char(CharBuff),
    /// Special key, like F1, Home
    Key(Key),
    /// Mouse event
    Mouse(MouseInfo),
}

impl Default for InputEvent {
    fn default() -> (r: Self)
        ensures
            r == InputEvent::NoInput,
    {
        InputEvent::NoInput
    }
}

/// Describes decoded input
#[derive(Debug, Clone, Copy)]
pub struct InputInfo {
    /// Input type with details
    pub evnt: InputEvent,
    /// Ctrl/Alt/Shift
    pub kmod: KeyMod,
    /// Human readable event description
    pub name: &'static str,
}

impl InputInfo {
    /// Reset input to None
    pub fn reset(&mut self)
        ensures
            final(self).evnt == InputEvent::NoInput,
            final(self).kmod.mask == 0,
            final(self).name == "",
            final(self).name@ == Seq::<char>::empty(),
    {
        self.evnt = InputEvent::NoInput;
        self.kmod.mask = 0;
        self.name = "";
        proof {
            reveal_strlit("");
        }
    }
}

impl Default for InputInfo {
    fn default() -> (r: Self)
        ensures
            r.evnt == InputEvent::NoInput,
            r.kmod.mask == 0,
            r.name == "",
            r.name@ == Seq::<char>::empty(),
    {
        proof {
            reveal_strlit("");
        }
        Self { evnt: InputEvent::NoInput, kmod: KeyMod { mask: 0 }, name: "" }
    }
}

} // verus!
