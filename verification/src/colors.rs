//! Color definitions

use vstd::prelude::*;
use crate::esc::BG_BLACK;
use crate::esc::BG_BLACK_INTENSE;
use crate::esc::BG_BLUE;
use crate::esc::BG_BLUE_INTENSE;
use crate::esc::BG_CYAN;
use crate::esc::BG_CYAN_INTENSE;
use crate::esc::BG_DEFAULT;
use crate::esc::BG_GREEN;
use crate::esc::BG_GREEN_INTENSE;
use crate::esc::BG_MAGENTA;
use crate::esc::BG_MAGENTA_INTENSE;
use crate::esc::BG_RED;
use crate::esc::BG_RED_INTENSE;
use crate::esc::BG_WHITE;
use crate::esc::BG_WHITE_INTENSE;
use crate::esc::BG_YELLOW;
use crate::esc::BG_YELLOW_INTENSE;
use crate::esc::FG_BLACK;
use crate::esc::FG_BLACK_INTENSE;
use crate::esc::FG_BLUE;
use crate::esc::FG_BLUE_INTENSE;
use crate::esc::FG_CYAN;
use crate::esc::FG_CYAN_INTENSE;
use crate::esc::FG_DEFAULT;
use crate::esc::FG_GREEN;
use crate::esc::FG_GREEN_INTENSE;
use crate::esc::FG_MAGENTA;
use crate::esc::FG_MAGENTA_INTENSE;
use crate::esc::FG_RED;
use crate::esc::FG_RED_INTENSE;
use crate::esc::FG_WHITE;
use crate::esc::FG_WHITE_INTENSE;
use crate::esc::FG_YELLOW;
use crate::esc::FG_YELLOW_INTENSE;
use crate::string_ext::chars_of;
use crate::string_ext::push_chars;

verus! {

/// Foreground colors
#[derive(Copy, Clone, Debug, PartialEq, Eq, Structural)]
pub enum ColorFg {
    Inherit,
    /// Reset to terminal default
    Default,
    Black,
    BlackIntense,
    Red,
    RedIntense,
    Green,
    GreenIntense,
    Yellow,
    YellowIntense,
    Blue,
    BlueIntense,
    Magenta,
    MagentaIntense,
    Cyan,
    CyanIntense,
    White,
    WhiteIntense,
    /// Colors of the application theme
    Theme00,
    Theme01,
    Theme02,
    Theme03,
    Theme04,
    Theme05,
    Theme06,
    Theme07,
    Theme08,
    Theme09,
    Theme10,
    Theme11,
    Theme12,
    Theme13,
    Theme14,
    Theme15,
    Theme16,
    Theme17,
    Theme18,
    Theme19,
    Theme20,
    Theme21,
    Theme22,
    Theme23,
    Theme24,
    Theme25,
    Theme26,
    Theme27,
    Theme28,
    Theme29,
    ThemeEnd,
}

/// Background colors
#[derive(Copy, Clone, Debug, PartialEq, Eq, Structural)]
pub enum ColorBg {
    Inherit,
    /// Reset to terminal default
    Default,
    Black,
    BlackIntense,
    Red,
    RedIntense,
    Green,
    GreenIntense,
    Yellow,
    YellowIntense,
    Blue,
    BlueIntense,
    Magenta,
    MagentaIntense,
    Cyan,
    CyanIntense,
    White,
    WhiteIntense,
    /// Colors of the application theme
    Theme00,
    Theme01,
    Theme02,
    Theme03,
    Theme04,
    Theme05,
    Theme06,
    Theme07,
    Theme08,
    Theme09,
    Theme10,
    Theme11,
    Theme12,
    Theme13,
    Theme14,
    Theme15,
    Theme16,
    Theme17,
    Theme18,
    Theme19,
    Theme20,
    Theme21,
    Theme22,
    Theme23,
    Theme24,
    Theme25,
    Theme26,
    Theme27,
    Theme28,
    Theme29,
    ThemeEnd,
}

/// Position of the color in the declaration order
pub open spec fn fg_rank(c: ColorFg) -> u8 {
    match c {
        ColorFg::Inherit => 0u8,
        ColorFg::Default => 1u8,
        ColorFg::Black => 2u8,
        ColorFg::BlackIntense => 3u8,
        ColorFg::Red => 4u8,
        ColorFg::RedIntense => 5u8,
        ColorFg::Green => 6u8,
        ColorFg::GreenIntense => 7u8,
        ColorFg::Yellow => 8u8,
        ColorFg::YellowIntense => 9u8,
        ColorFg::Blue => 10u8,
        ColorFg::BlueIntense => 11u8,
        ColorFg::Magenta => 12u8,
        ColorFg::MagentaIntense => 13u8,
        ColorFg::Cyan => 14u8,
        ColorFg::CyanIntense => 15u8,
        ColorFg::White => 16u8,
        ColorFg::WhiteIntense => 17u8,
        ColorFg::Theme00 => 18u8,
        ColorFg::Theme01 => 19u8,
        ColorFg::Theme02 => 20u8,
        ColorFg::Theme03 => 21u8,
        ColorFg::Theme04 => 22u8,
        ColorFg::Theme05 => 23u8,
        ColorFg::Theme06 => 24u8,
        ColorFg::Theme07 => 25u8,
        ColorFg::Theme08 => 26u8,
        ColorFg::Theme09 => 27u8,
        ColorFg::Theme10 => 28u8,
        ColorFg::Theme11 => 29u8,
        ColorFg::Theme12 => 30u8,
        ColorFg::Theme13 => 31u8,
        ColorFg::Theme14 => 32u8,
        ColorFg::Theme15 => 33u8,
        ColorFg::Theme16 => 34u8,
        ColorFg::Theme17 => 35u8,
        ColorFg::Theme18 => 36u8,
        ColorFg::Theme19 => 37u8,
        ColorFg::Theme20 => 38u8,
        ColorFg::Theme21 => 39u8,
        ColorFg::Theme22 => 40u8,
        ColorFg::Theme23 => 41u8,
        ColorFg::Theme24 => 42u8,
        ColorFg::Theme25 => 43u8,
        ColorFg::Theme26 => 44u8,
        ColorFg::Theme27 => 45u8,
        ColorFg::Theme28 => 46u8,
        ColorFg::Theme29 => 47u8,
        ColorFg::ThemeEnd => 48u8,
    }
}

/// Position of the color in the declaration order
pub open spec fn bg_rank(c: ColorBg) -> u8 {
    match c {
        ColorBg::Inherit => 0u8,
        ColorBg::Default => 1u8,
        ColorBg::Black => 2u8,
        ColorBg::BlackIntense => 3u8,
        ColorBg::Red => 4u8,
        ColorBg::RedIntense => 5u8,
        ColorBg::Green => 6u8,
        ColorBg::GreenIntense => 7u8,
        ColorBg::Yellow => 8u8,
        ColorBg::YellowIntense => 9u8,
        ColorBg::Blue => 10u8,
        ColorBg::BlueIntense => 11u8,
        ColorBg::Magenta => 12u8,
        ColorBg::MagentaIntense => 13u8,
        ColorBg::Cyan => 14u8,
        ColorBg::CyanIntense => 15u8,
        ColorBg::White => 16u8,
        ColorBg::WhiteIntense => 17u8,
        ColorBg::Theme00 => 18u8,
        ColorBg::Theme01 => 19u8,
        ColorBg::Theme02 => 20u8,
        ColorBg::Theme03 => 21u8,
        ColorBg::Theme04 => 22u8,
        ColorBg::Theme05 => 23u8,
        ColorBg::Theme06 => 24u8,
        ColorBg::Theme07 => 25u8,
        ColorBg::Theme08 => 26u8,
        ColorBg::Theme09 => 27u8,
        ColorBg::Theme10 => 28u8,
        ColorBg::Theme11 => 29u8,
        ColorBg::Theme12 => 30u8,
        ColorBg::Theme13 => 31u8,
        ColorBg::Theme14 => 32u8,
        ColorBg::Theme15 => 33u8,
        ColorBg::Theme16 => 34u8,
        ColorBg::Theme17 => 35u8,
        ColorBg::Theme18 => 36u8,
        ColorBg::Theme19 => 37u8,
        ColorBg::Theme20 => 38u8,
        ColorBg::Theme21 => 39u8,
        ColorBg::Theme22 => 40u8,
        ColorBg::Theme23 => 41u8,
        ColorBg::Theme24 => 42u8,
        ColorBg::Theme25 => 43u8,
        ColorBg::Theme26 => 44u8,
        ColorBg::Theme27 => 45u8,
        ColorBg::Theme28 => 46u8,
        ColorBg::Theme29 => 47u8,
        ColorBg::ThemeEnd => 48u8,
    }
}

/// The color at the given position of the declaration order
pub open spec fn fg_of_rank(r: u8) -> ColorFg {
    if r == 0u8 {
        ColorFg::Inherit
    } else if r == 1u8 {
        ColorFg::Default
    } else if r == 2u8 {
        ColorFg::Black
    } else if r == 3u8 {
        ColorFg::BlackIntense
    } else if r == 4u8 {
        ColorFg::Red
    } else if r == 5u8 {
        ColorFg::RedIntense
    } else if r == 6u8 {
        ColorFg::Green
    } else if r == 7u8 {
        ColorFg::GreenIntense
    } else if r == 8u8 {
        ColorFg::Yellow
    } else if r == 9u8 {
        ColorFg::YellowIntense
    } else if r == 10u8 {
        ColorFg::Blue
    } else if r == 11u8 {
        ColorFg::BlueIntense
    } else if r == 12u8 {
        ColorFg::Magenta
    } else if r == 13u8 {
        ColorFg::MagentaIntense
    } else if r == 14u8 {
        ColorFg::Cyan
    } else if r == 15u8 {
        ColorFg::CyanIntense
    } else if r == 16u8 {
        ColorFg::White
    } else if r == 17u8 {
        ColorFg::WhiteIntense
    } else if r == 18u8 {
        ColorFg::Theme00
    } else if r == 19u8 {
        ColorFg::Theme01
    } else if r == 20u8 {
        ColorFg::Theme02
    } else if r == 21u8 {
        ColorFg::Theme03
    } else if r == 22u8 {
        ColorFg::Theme04
    } else if r == 23u8 {
        ColorFg::Theme05
    } else if r == 24u8 {
        ColorFg::Theme06
    } else if r == 25u8 {
        ColorFg::Theme07
    } else if r == 26u8 {
        ColorFg::Theme08
    } else if r == 27u8 {
        ColorFg::Theme09
    } else if r == 28u8 {
        ColorFg::Theme10
    } else if r == 29u8 {
        ColorFg::Theme11
    } else if r == 30u8 {
        ColorFg::Theme12
    } else if r == 31u8 {
        ColorFg::Theme13
    } else if r == 32u8 {
        ColorFg::Theme14
    } else if r == 33u8 {
        ColorFg::Theme15
    } else if r == 34u8 {
        ColorFg::Theme16
    } else if r == 35u8 {
        ColorFg::Theme17
    } else if r == 36u8 {
        ColorFg::Theme18
    } else if r == 37u8 {
        ColorFg::Theme19
    } else if r == 38u8 {
        ColorFg::Theme20
    } else if r == 39u8 {
        ColorFg::Theme21
    } else if r == 40u8 {
        ColorFg::Theme22
    } else if r == 41u8 {
        ColorFg::Theme23
    } else if r == 42u8 {
        ColorFg::Theme24
    } else if r == 43u8 {
        ColorFg::Theme25
    } else if r == 44u8 {
        ColorFg::Theme26
    } else if r == 45u8 {
        ColorFg::Theme27
    } else if r == 46u8 {
        ColorFg::Theme28
    } else if r == 47u8 {
        ColorFg::Theme29
    } else if r == 48u8 {
        ColorFg::ThemeEnd
    } else {
        ColorFg::ThemeEnd
    }
}

/// The color at the given position of the declaration order
pub open spec fn bg_of_rank(r: u8) -> ColorBg {
    if r == 0u8 {
        ColorBg::Inherit
    } else if r == 1u8 {
        ColorBg::Default
    } else if r == 2u8 {
        ColorBg::Black
    } else if r == 3u8 {
        ColorBg::BlackIntense
    } else if r == 4u8 {
        ColorBg::Red
    } else if r == 5u8 {
        ColorBg::RedIntense
    } else if r == 6u8 {
        ColorBg::Green
    } else if r == 7u8 {
        ColorBg::GreenIntense
    } else if r == 8u8 {
        ColorBg::Yellow
    } else if r == 9u8 {
        ColorBg::YellowIntense
    } else if r == 10u8 {
        ColorBg::Blue
    } else if r == 11u8 {
        ColorBg::BlueIntense
    } else if r == 12u8 {
        ColorBg::Magenta
    } else if r == 13u8 {
        ColorBg::MagentaIntense
    } else if r == 14u8 {
        ColorBg::Cyan
    } else if r == 15u8 {
        ColorBg::CyanIntense
    } else if r == 16u8 {
        ColorBg::White
    } else if r == 17u8 {
        ColorBg::WhiteIntense
    } else if r == 18u8 {
        ColorBg::Theme00
    } else if r == 19u8 {
        ColorBg::Theme01
    } else if r == 20u8 {
        ColorBg::Theme02
    } else if r == 21u8 {
        ColorBg::Theme03
    } else if r == 22u8 {
        ColorBg::Theme04
    } else if r == 23u8 {
        ColorBg::Theme05
    } else if r == 24u8 {
        ColorBg::Theme06
    } else if r == 25u8 {
        ColorBg::Theme07
    } else if r == 26u8 {
        ColorBg::Theme08
    } else if r == 27u8 {
        ColorBg::Theme09
    } else if r == 28u8 {
        ColorBg::Theme10
    } else if r == 29u8 {
        ColorBg::Theme11
    } else if r == 30u8 {
        ColorBg::Theme12
    } else if r == 31u8 {
        ColorBg::Theme13
    } else if r == 32u8 {
        ColorBg::Theme14
    } else if r == 33u8 {
        ColorBg::Theme15
    } else if r == 34u8 {
        ColorBg::Theme16
    } else if r == 35u8 {
        ColorBg::Theme17
    } else if r == 36u8 {
        ColorBg::Theme18
    } else if r == 37u8 {
        ColorBg::Theme19
    } else if r == 38u8 {
        ColorBg::Theme20
    } else if r == 39u8 {
        ColorBg::Theme21
    } else if r == 40u8 {
        ColorBg::Theme22
    } else if r == 41u8 {
        ColorBg::Theme23
    } else if r == 42u8 {
        ColorBg::Theme24
    } else if r == 43u8 {
        ColorBg::Theme25
    } else if r == 44u8 {
        ColorBg::Theme26
    } else if r == 45u8 {
        ColorBg::Theme27
    } else if r == 46u8 {
        ColorBg::Theme28
    } else if r == 47u8 {
        ColorBg::Theme29
    } else if r == 48u8 {
        ColorBg::ThemeEnd
    } else {
        ColorBg::ThemeEnd
    }
}

/// ANSI escape code of a basic color; empty for `Inherit` and the theme colors
pub open spec fn fg_code(c: ColorFg) -> &'static str {
    match c {
        ColorFg::Inherit => "",
        ColorFg::Default => FG_DEFAULT,
        ColorFg::Black => FG_BLACK,
        ColorFg::BlackIntense => FG_BLACK_INTENSE,
        ColorFg::Red => FG_RED,
        ColorFg::RedIntense => FG_RED_INTENSE,
        ColorFg::Green => FG_GREEN,
        ColorFg::GreenIntense => FG_GREEN_INTENSE,
        ColorFg::Yellow => FG_YELLOW,
        ColorFg::YellowIntense => FG_YELLOW_INTENSE,
        ColorFg::Blue => FG_BLUE,
        ColorFg::BlueIntense => FG_BLUE_INTENSE,
        ColorFg::Magenta => FG_MAGENTA,
        ColorFg::MagentaIntense => FG_MAGENTA_INTENSE,
        ColorFg::Cyan => FG_CYAN,
        ColorFg::CyanIntense => FG_CYAN_INTENSE,
        ColorFg::White => FG_WHITE,
        ColorFg::WhiteIntense => FG_WHITE_INTENSE,
        _ => "",
    }
}

/// ANSI escape code of a basic color; empty for `Inherit` and the theme colors
pub open spec fn bg_code(c: ColorBg) -> &'static str {
    match c {
        ColorBg::Inherit => "",
        ColorBg::Default => BG_DEFAULT,
        ColorBg::Black => BG_BLACK,
        ColorBg::BlackIntense => BG_BLACK_INTENSE,
        ColorBg::Red => BG_RED,
        ColorBg::RedIntense => BG_RED_INTENSE,
        ColorBg::Green => BG_GREEN,
        ColorBg::GreenIntense => BG_GREEN_INTENSE,
        ColorBg::Yellow => BG_YELLOW,
        ColorBg::YellowIntense => BG_YELLOW_INTENSE,
        ColorBg::Blue => BG_BLUE,
        ColorBg::BlueIntense => BG_BLUE_INTENSE,
        ColorBg::Magenta => BG_MAGENTA,
        ColorBg::MagentaIntense => BG_MAGENTA_INTENSE,
        ColorBg::Cyan => BG_CYAN,
        ColorBg::CyanIntense => BG_CYAN_INTENSE,
        ColorBg::White => BG_WHITE,
        ColorBg::WhiteIntense => BG_WHITE_INTENSE,
        _ => "",
    }
}

/// Intensified color: a normal basic color becomes its intense variant,
/// `Default` becomes `WhiteIntense`, every other color stays as it is
pub open spec fn fg_intensified(c: ColorFg) -> ColorFg {
    let r = fg_rank(c);
    if 1 < r < 17 {
        if (r + 1) % 2 == 1 { fg_of_rank((r + 1) as u8) } else { c }
    } else if r == 1 {
        ColorFg::WhiteIntense
    } else {
        c
    }
}

impl ColorFg {
    /// Position of the color in the declaration order
    pub fn rank(self) -> (r: u8)
        ensures
            r == fg_rank(self),
    {
        match self {
            ColorFg::Inherit => 0u8,
            ColorFg::Default => 1u8,
            ColorFg::Black => 2u8,
            ColorFg::BlackIntense => 3u8,
            ColorFg::Red => 4u8,
            ColorFg::RedIntense => 5u8,
            ColorFg::Green => 6u8,
            ColorFg::GreenIntense => 7u8,
            ColorFg::Yellow => 8u8,
            ColorFg::YellowIntense => 9u8,
            ColorFg::Blue => 10u8,
            ColorFg::BlueIntense => 11u8,
            ColorFg::Magenta => 12u8,
            ColorFg::MagentaIntense => 13u8,
            ColorFg::Cyan => 14u8,
            ColorFg::CyanIntense => 15u8,
            ColorFg::White => 16u8,
            ColorFg::WhiteIntense => 17u8,
            ColorFg::Theme00 => 18u8,
            ColorFg::Theme01 => 19u8,
            ColorFg::Theme02 => 20u8,
            ColorFg::Theme03 => 21u8,
            ColorFg::Theme04 => 22u8,
            ColorFg::Theme05 => 23u8,
            ColorFg::Theme06 => 24u8,
            ColorFg::Theme07 => 25u8,
            ColorFg::Theme08 => 26u8,
            ColorFg::Theme09 => 27u8,
            ColorFg::Theme10 => 28u8,
            ColorFg::Theme11 => 29u8,
            ColorFg::Theme12 => 30u8,
            ColorFg::Theme13 => 31u8,
            ColorFg::Theme14 => 32u8,
            ColorFg::Theme15 => 33u8,
            ColorFg::Theme16 => 34u8,
            ColorFg::Theme17 => 35u8,
            ColorFg::Theme18 => 36u8,
            ColorFg::Theme19 => 37u8,
            ColorFg::Theme20 => 38u8,
            ColorFg::Theme21 => 39u8,
            ColorFg::Theme22 => 40u8,
            ColorFg::Theme23 => 41u8,
            ColorFg::Theme24 => 42u8,
            ColorFg::Theme25 => 43u8,
            ColorFg::Theme26 => 44u8,
            ColorFg::Theme27 => 45u8,
            ColorFg::Theme28 => 46u8,
            ColorFg::Theme29 => 47u8,
            ColorFg::ThemeEnd => 48u8,
        }
    }

    /// The color at the given position of the declaration order
    pub fn from_rank(r: u8) -> (c: ColorFg)
        ensures
            c == fg_of_rank(r),
    {
        if r == 0u8 {
            ColorFg::Inherit
        } else if r == 1u8 {
            ColorFg::Default
        } else if r == 2u8 {
            ColorFg::Black
        } else if r == 3u8 {
            ColorFg::BlackIntense
        } else if r == 4u8 {
            ColorFg::Red
        } else if r == 5u8 {
            ColorFg::RedIntense
        } else if r == 6u8 {
            ColorFg::Green
        } else if r == 7u8 {
            ColorFg::GreenIntense
        } else if r == 8u8 {
            ColorFg::Yellow
        } else if r == 9u8 {
            ColorFg::YellowIntense
        } else if r == 10u8 {
            ColorFg::Blue
        } else if r == 11u8 {
            ColorFg::BlueIntense
        } else if r == 12u8 {
            ColorFg::Magenta
        } else if r == 13u8 {
            ColorFg::MagentaIntense
        } else if r == 14u8 {
            ColorFg::Cyan
        } else if r == 15u8 {
            ColorFg::CyanIntense
        } else if r == 16u8 {
            ColorFg::White
        } else if r == 17u8 {
            ColorFg::WhiteIntense
        } else if r == 18u8 {
            ColorFg::Theme00
        } else if r == 19u8 {
            ColorFg::Theme01
        } else if r == 20u8 {
            ColorFg::Theme02
        } else if r == 21u8 {
            ColorFg::Theme03
        } else if r == 22u8 {
            ColorFg::Theme04
        } else if r == 23u8 {
            ColorFg::Theme05
        } else if r == 24u8 {
            ColorFg::Theme06
        } else if r == 25u8 {
            ColorFg::Theme07
        } else if r == 26u8 {
            ColorFg::Theme08
        } else if r == 27u8 {
            ColorFg::Theme09
        } else if r == 28u8 {
            ColorFg::Theme10
        } else if r == 29u8 {
            ColorFg::Theme11
        } else if r == 30u8 {
            ColorFg::Theme12
        } else if r == 31u8 {
            ColorFg::Theme13
        } else if r == 32u8 {
            ColorFg::Theme14
        } else if r == 33u8 {
            ColorFg::Theme15
        } else if r == 34u8 {
            ColorFg::Theme16
        } else if r == 35u8 {
            ColorFg::Theme17
        } else if r == 36u8 {
            ColorFg::Theme18
        } else if r == 37u8 {
            ColorFg::Theme19
        } else if r == 38u8 {
            ColorFg::Theme20
        } else if r == 39u8 {
            ColorFg::Theme21
        } else if r == 40u8 {
            ColorFg::Theme22
        } else if r == 41u8 {
            ColorFg::Theme23
        } else if r == 42u8 {
            ColorFg::Theme24
        } else if r == 43u8 {
            ColorFg::Theme25
        } else if r == 44u8 {
            ColorFg::Theme26
        } else if r == 45u8 {
            ColorFg::Theme27
        } else if r == 46u8 {
            ColorFg::Theme28
        } else if r == 47u8 {
            ColorFg::Theme29
        } else if r == 48u8 {
            ColorFg::ThemeEnd
        } else {
            ColorFg::ThemeEnd
        }
    }

    /// Tells if the color is one of the theme colors
    pub fn is_theme(self) -> (r: bool)
        ensures
            r == (18 <= fg_rank(self) < 48),
    {
        let r = self.rank();
        18 <= r && r < 48
    }

    /// Converts Normal into Intense color
    pub fn intensify(self) -> (c: Self)
        ensures
            c == fg_intensified(self),
    {
        let r = self.rank();
        if 1 < r && r < 17 {
            let cl_next_val = r + 1;
            // intensified has odd value
            if cl_next_val % 2 == 1 {
                return Self::from_rank(cl_next_val);
            }
        } else if r == 1 {
            // force something bright
            return ColorFg::WhiteIntense;
        }
        self
    }

    /// Conditionally converts Normal into Intense color
    pub fn intensify_if(self, cond: bool) -> (c: Self)
        ensures
            c == (if cond { fg_intensified(self) } else { self }),
    {
        if cond {
            self.intensify()
        } else {
            self
        }
    }

    /// Converts color identifier to ANSI escape code
    pub fn encode(self) -> (r: &'static str)
        ensures
            r == fg_code(self),
    {
        match self {
            ColorFg::Inherit => "",
            ColorFg::Default => FG_DEFAULT,
            ColorFg::Black => FG_BLACK,
            ColorFg::BlackIntense => FG_BLACK_INTENSE,
            ColorFg::Red => FG_RED,
            ColorFg::RedIntense => FG_RED_INTENSE,
            ColorFg::Green => FG_GREEN,
            ColorFg::GreenIntense => FG_GREEN_INTENSE,
            ColorFg::Yellow => FG_YELLOW,
            ColorFg::YellowIntense => FG_YELLOW_INTENSE,
            ColorFg::Blue => FG_BLUE,
            ColorFg::BlueIntense => FG_BLUE_INTENSE,
            ColorFg::Magenta => FG_MAGENTA,
            ColorFg::MagentaIntense => FG_MAGENTA_INTENSE,
            ColorFg::Cyan => FG_CYAN,
            ColorFg::CyanIntense => FG_CYAN_INTENSE,
            ColorFg::White => FG_WHITE,
            ColorFg::WhiteIntense => FG_WHITE_INTENSE,
            _ => "",
        }
    }
}

/// Intensified color: a normal basic color becomes its intense variant,
/// `Default` becomes `WhiteIntense`, every other color stays as it is
pub open spec fn bg_intensified(c: ColorBg) -> ColorBg {
    let r = bg_rank(c);
    if 1 < r < 17 {
        if (r + 1) % 2 == 1 { bg_of_rank((r + 1) as u8) } else { c }
    } else if r == 1 {
        ColorBg::WhiteIntense
    } else {
        c
    }
}

impl ColorBg {
    /// Position of the color in the declaration order
    pub fn rank(self) -> (r: u8)
        ensures
            r == bg_rank(self),
    {
        match self {
            ColorBg::Inherit => 0u8,
            ColorBg::Default => 1u8,
            ColorBg::Black => 2u8,
            ColorBg::BlackIntense => 3u8,
            ColorBg::Red => 4u8,
            ColorBg::RedIntense => 5u8,
            ColorBg::Green => 6u8,
            ColorBg::GreenIntense => 7u8,
            ColorBg::Yellow => 8u8,
            ColorBg::YellowIntense => 9u8,
            ColorBg::Blue => 10u8,
            ColorBg::BlueIntense => 11u8,
            ColorBg::Magenta => 12u8,
            ColorBg::MagentaIntense => 13u8,
            ColorBg::Cyan => 14u8,
            ColorBg::CyanIntense => 15u8,
            ColorBg::White => 16u8,
            ColorBg::WhiteIntense => 17u8,
            ColorBg::Theme00 => 18u8,
            ColorBg::Theme01 => 19u8,
            ColorBg::Theme02 => 20u8,
            ColorBg::Theme03 => 21u8,
            ColorBg::Theme04 => 22u8,
            ColorBg::Theme05 => 23u8,
            ColorBg::Theme06 => 24u8,
            ColorBg::Theme07 => 25u8,
            ColorBg::Theme08 => 26u8,
            ColorBg::Theme09 => 27u8,
            ColorBg::Theme10 => 28u8,
            ColorBg::Theme11 => 29u8,
            ColorBg::Theme12 => 30u8,
            ColorBg::Theme13 => 31u8,
            ColorBg::Theme14 => 32u8,
            ColorBg::Theme15 => 33u8,
            ColorBg::Theme16 => 34u8,
            ColorBg::Theme17 => 35u8,
            ColorBg::Theme18 => 36u8,
            ColorBg::Theme19 => 37u8,
            ColorBg::Theme20 => 38u8,
            ColorBg::Theme21 => 39u8,
            ColorBg::Theme22 => 40u8,
            ColorBg::Theme23 => 41u8,
            ColorBg::Theme24 => 42u8,
            ColorBg::Theme25 => 43u8,
            ColorBg::Theme26 => 44u8,
            ColorBg::Theme27 => 45u8,
            ColorBg::Theme28 => 46u8,
            ColorBg::Theme29 => 47u8,
            ColorBg::ThemeEnd => 48u8,
        }
    }

    /// The color at the given position of the declaration order
    pub fn from_rank(r: u8) -> (c: ColorBg)
        ensures
            c == bg_of_rank(r),
    {
        if r == 0u8 {
            ColorBg::Inherit
        } else if r == 1u8 {
            ColorBg::Default
        } else if r == 2u8 {
            ColorBg::Black
        } else if r == 3u8 {
            ColorBg::BlackIntense
        } else if r == 4u8 {
            ColorBg::Red
        } else if r == 5u8 {
            ColorBg::RedIntense
        } else if r == 6u8 {
            ColorBg::Green
        } else if r == 7u8 {
            ColorBg::GreenIntense
        } else if r == 8u8 {
            ColorBg::Yellow
        } else if r == 9u8 {
            ColorBg::YellowIntense
        } else if r == 10u8 {
            ColorBg::Blue
        } else if r == 11u8 {
            ColorBg::BlueIntense
        } else if r == 12u8 {
            ColorBg::Magenta
        } else if r == 13u8 {
            ColorBg::MagentaIntense
        } else if r == 14u8 {
            ColorBg::Cyan
        } else if r == 15u8 {
            ColorBg::CyanIntense
        } else if r == 16u8 {
            ColorBg::White
        } else if r == 17u8 {
            ColorBg::WhiteIntense
        } else if r == 18u8 {
            ColorBg::Theme00
        } else if r == 19u8 {
            ColorBg::Theme01
        } else if r == 20u8 {
            ColorBg::Theme02
        } else if r == 21u8 {
            ColorBg::Theme03
        } else if r == 22u8 {
            ColorBg::Theme04
        } else if r == 23u8 {
            ColorBg::Theme05
        } else if r == 24u8 {
            ColorBg::Theme06
        } else if r == 25u8 {
            ColorBg::Theme07
        } else if r == 26u8 {
            ColorBg::Theme08
        } else if r == 27u8 {
            ColorBg::Theme09
        } else if r == 28u8 {
            ColorBg::Theme10
        } else if r == 29u8 {
            ColorBg::Theme11
        } else if r == 30u8 {
            ColorBg::Theme12
        } else if r == 31u8 {
            ColorBg::Theme13
        } else if r == 32u8 {
            ColorBg::Theme14
        } else if r == 33u8 {
            ColorBg::Theme15
        } else if r == 34u8 {
            ColorBg::Theme16
        } else if r == 35u8 {
            ColorBg::Theme17
        } else if r == 36u8 {
            ColorBg::Theme18
        } else if r == 37u8 {
            ColorBg::Theme19
        } else if r == 38u8 {
            ColorBg::Theme20
        } else if r == 39u8 {
            ColorBg::Theme21
        } else if r == 40u8 {
            ColorBg::Theme22
        } else if r == 41u8 {
            ColorBg::Theme23
        } else if r == 42u8 {
            ColorBg::Theme24
        } else if r == 43u8 {
            ColorBg::Theme25
        } else if r == 44u8 {
            ColorBg::Theme26
        } else if r == 45u8 {
            ColorBg::Theme27
        } else if r == 46u8 {
            ColorBg::Theme28
        } else if r == 47u8 {
            ColorBg::Theme29
        } else if r == 48u8 {
            ColorBg::ThemeEnd
        } else {
            ColorBg::ThemeEnd
        }
    }

    /// Tells if the color is one of the theme colors
    pub fn is_theme(self) -> (r: bool)
        ensures
            r == (18 <= bg_rank(self) < 48),
    {
        let r = self.rank();
        18 <= r && r < 48
    }

    /// Converts Normal into Intense color
    pub fn intensify(self) -> (c: Self)
        ensures
            c == bg_intensified(self),
    {
        let r = self.rank();
        if 1 < r && r < 17 {
            let cl_next_val = r + 1;
            // intensified has odd value
            if cl_next_val % 2 == 1 {
                return Self::from_rank(cl_next_val);
            }
        } else if r == 1 {
            // force something bright
            return ColorBg::WhiteIntense;
        }
        self
    }

    /// Conditionally converts Normal into Intense color
    pub fn intensify_if(self, cond: bool) -> (c: Self)
        ensures
            c == (if cond { bg_intensified(self) } else { self }),
    {
        if cond {
            self.intensify()
        } else {
            self
        }
    }

    /// Converts color identifier to ANSI escape code
    pub fn encode(self) -> (r: &'static str)
        ensures
            r == bg_code(self),
    {
        match self {
            ColorBg::Inherit => "",
            ColorBg::Default => BG_DEFAULT,
            ColorBg::Black => BG_BLACK,
            ColorBg::BlackIntense => BG_BLACK_INTENSE,
            ColorBg::Red => BG_RED,
            ColorBg::RedIntense => BG_RED_INTENSE,
            ColorBg::Green => BG_GREEN,
            ColorBg::GreenIntense => BG_GREEN_INTENSE,
            ColorBg::Yellow => BG_YELLOW,
            ColorBg::YellowIntense => BG_YELLOW_INTENSE,
            ColorBg::Blue => BG_BLUE,
            ColorBg::BlueIntense => BG_BLUE_INTENSE,
            ColorBg::Magenta => BG_MAGENTA,
            ColorBg::MagentaIntense => BG_MAGENTA_INTENSE,
            ColorBg::Cyan => BG_CYAN,
            ColorBg::CyanIntense => BG_CYAN_INTENSE,
            ColorBg::White => BG_WHITE,
            ColorBg::WhiteIntense => BG_WHITE_INTENSE,
            _ => "",
        }
    }

    /// Returns matching foreground color sequence string
    pub fn transcode_2_fg(self) -> (r: String)
        ensures
            r@ == transcoded_bg_2_fg(bg_code(self)@, bg_code(self).len() as int),
    {
        let bg_color_code = self.encode();
        transcode_cl_bg_2_fg(bg_color_code)
    }
}

/// Foreground sequence matching a background one:
/// `CSI 4?m` to `CSI 3?m`, `CSI 48;...m` to `CSI 38;...m`, `CSI 10?m` to `CSI 9?m`;
/// empty when the text is no `CSI` sequence of at least 5 bytes
pub open spec fn transcoded_bg_2_fg(s: Seq<char>, byte_len: int) -> Seq<char> {
    if !(s.len() >= 3 && s[0] == '\x1B' && s[1] == '[') || byte_len < 5 {
        Seq::empty()
    } else if s[2] == '4' {
        s.update(2, '3')
    } else if s.len() >= 4 && s[2] == '1' && s[3] == '0' {
        s.update(2, '9').remove(3)
    } else {
        s
    }
}

/// For given background color, returns matching foreground color
pub fn transcode_cl_bg_2_fg(bg_color_code: &str) -> (r: String)
    ensures
        r@ == transcoded_bg_2_fg(bg_color_code@, bg_color_code.len() as int),
{
    // \e[4?m               --> \e[3?m
    // \e[48;2;000;111;222m --> \e[38;2;000;111;222m
    // \e[48;5;253m         --> \e[38;5;253m
    // \e[10?m              --> \e[9?m
    let cs = chars_of(bg_color_code);
    let n = cs.len();
    if !(n >= 3 && cs[0] == '\x1B' && cs[1] == '[') || bg_color_code.len() < 5 {
        return String::new();
    }
    let mut out = String::new();
    push_chars(&mut out, &cs, 0, 2);
    if cs[2] == '4' {
        out.push('3');
        push_chars(&mut out, &cs, 3, n);
        assert(out@ =~= cs@.update(2, '3'));
    } else if n >= 4 && cs[2] == '1' && cs[3] == '0' {
        out.push('9');
        push_chars(&mut out, &cs, 4, n);
        assert(out@ =~= cs@.update(2, '9').remove(3));
    } else {
        push_chars(&mut out, &cs, 2, n);
        assert(out@ =~= cs@);
    }
    out
}

// ---------------------------------------------------------------------------------------------- //

/// A foreground color is found again from its position in the declaration order
pub proof fn lemma_fg_rank_round_trip(c: ColorFg)
    ensures
        fg_rank(c) <= 48,
        fg_of_rank(fg_rank(c)) == c,
{
    match c {
        ColorFg::Inherit => {},
        ColorFg::Default => {},
        ColorFg::Black => {},
        ColorFg::BlackIntense => {},
        ColorFg::Red => {},
        ColorFg::RedIntense => {},
        ColorFg::Green => {},
        ColorFg::GreenIntense => {},
        ColorFg::Yellow => {},
        ColorFg::YellowIntense => {},
        ColorFg::Blue => {},
        ColorFg::BlueIntense => {},
        ColorFg::Magenta => {},
        ColorFg::MagentaIntense => {},
        ColorFg::Cyan => {},
        ColorFg::CyanIntense => {},
        ColorFg::White => {},
        ColorFg::WhiteIntense => {},
        ColorFg::Theme00 => {},
        ColorFg::Theme01 => {},
        ColorFg::Theme02 => {},
        ColorFg::Theme03 => {},
        ColorFg::Theme04 => {},
        ColorFg::Theme05 => {},
        ColorFg::Theme06 => {},
        ColorFg::Theme07 => {},
        ColorFg::Theme08 => {},
        ColorFg::Theme09 => {},
        ColorFg::Theme10 => {},
        ColorFg::Theme11 => {},
        ColorFg::Theme12 => {},
        ColorFg::Theme13 => {},
        ColorFg::Theme14 => {},
        ColorFg::Theme15 => {},
        ColorFg::Theme16 => {},
        ColorFg::Theme17 => {},
        ColorFg::Theme18 => {},
        ColorFg::Theme19 => {},
        ColorFg::Theme20 => {},
        ColorFg::Theme21 => {},
        ColorFg::Theme22 => {},
        ColorFg::Theme23 => {},
        ColorFg::Theme24 => {},
        ColorFg::Theme25 => {},
        ColorFg::Theme26 => {},
        ColorFg::Theme27 => {},
        ColorFg::Theme28 => {},
        ColorFg::Theme29 => {},
        ColorFg::ThemeEnd => {},
    }
}

/// A background color is found again from its position in the declaration order
pub proof fn lemma_bg_rank_round_trip(c: ColorBg)
    ensures
        bg_rank(c) <= 48,
        bg_of_rank(bg_rank(c)) == c,
{
    match c {
        ColorBg::Inherit => {},
        ColorBg::Default => {},
        ColorBg::Black => {},
        ColorBg::BlackIntense => {},
        ColorBg::Red => {},
        ColorBg::RedIntense => {},
        ColorBg::Green => {},
        ColorBg::GreenIntense => {},
        ColorBg::Yellow => {},
        ColorBg::YellowIntense => {},
        ColorBg::Blue => {},
        ColorBg::BlueIntense => {},
        ColorBg::Magenta => {},
        ColorBg::MagentaIntense => {},
        ColorBg::Cyan => {},
        ColorBg::CyanIntense => {},
        ColorBg::White => {},
        ColorBg::WhiteIntense => {},
        ColorBg::Theme00 => {},
        ColorBg::Theme01 => {},
        ColorBg::Theme02 => {},
        ColorBg::Theme03 => {},
        ColorBg::Theme04 => {},
        ColorBg::Theme05 => {},
        ColorBg::Theme06 => {},
        ColorBg::Theme07 => {},
        ColorBg::Theme08 => {},
        ColorBg::Theme09 => {},
        ColorBg::Theme10 => {},
        ColorBg::Theme11 => {},
        ColorBg::Theme12 => {},
        ColorBg::Theme13 => {},
        ColorBg::Theme14 => {},
        ColorBg::Theme15 => {},
        ColorBg::Theme16 => {},
        ColorBg::Theme17 => {},
        ColorBg::Theme18 => {},
        ColorBg::Theme19 => {},
        ColorBg::Theme20 => {},
        ColorBg::Theme21 => {},
        ColorBg::Theme22 => {},
        ColorBg::Theme23 => {},
        ColorBg::Theme24 => {},
        ColorBg::Theme25 => {},
        ColorBg::Theme26 => {},
        ColorBg::Theme27 => {},
        ColorBg::Theme28 => {},
        ColorBg::Theme29 => {},
        ColorBg::ThemeEnd => {},
    }
}

/// Intensifying a foreground color twice gives what intensifying it once gives
pub proof fn lemma_fg_intensify_idempotent(c: ColorFg)
    ensures
        fg_intensified(fg_intensified(c)) == fg_intensified(c),
{
    match c {
        ColorFg::Inherit => {},
        ColorFg::Default => {},
        ColorFg::Black => {},
        ColorFg::BlackIntense => {},
        ColorFg::Red => {},
        ColorFg::RedIntense => {},
        ColorFg::Green => {},
        ColorFg::GreenIntense => {},
        ColorFg::Yellow => {},
        ColorFg::YellowIntense => {},
        ColorFg::Blue => {},
        ColorFg::BlueIntense => {},
        ColorFg::Magenta => {},
        ColorFg::MagentaIntense => {},
        ColorFg::Cyan => {},
        ColorFg::CyanIntense => {},
        ColorFg::White => {},
        ColorFg::WhiteIntense => {},
        ColorFg::Theme00 => {},
        ColorFg::Theme01 => {},
        ColorFg::Theme02 => {},
        ColorFg::Theme03 => {},
        ColorFg::Theme04 => {},
        ColorFg::Theme05 => {},
        ColorFg::Theme06 => {},
        ColorFg::Theme07 => {},
        ColorFg::Theme08 => {},
        ColorFg::Theme09 => {},
        ColorFg::Theme10 => {},
        ColorFg::Theme11 => {},
        ColorFg::Theme12 => {},
        ColorFg::Theme13 => {},
        ColorFg::Theme14 => {},
        ColorFg::Theme15 => {},
        ColorFg::Theme16 => {},
        ColorFg::Theme17 => {},
        ColorFg::Theme18 => {},
        ColorFg::Theme19 => {},
        ColorFg::Theme20 => {},
        ColorFg::Theme21 => {},
        ColorFg::Theme22 => {},
        ColorFg::Theme23 => {},
        ColorFg::Theme24 => {},
        ColorFg::Theme25 => {},
        ColorFg::Theme26 => {},
        ColorFg::Theme27 => {},
        ColorFg::Theme28 => {},
        ColorFg::Theme29 => {},
        ColorFg::ThemeEnd => {},
    }
}

/// Intensifying a background color twice gives what intensifying it once gives
pub proof fn lemma_bg_intensify_idempotent(c: ColorBg)
    ensures
        bg_intensified(bg_intensified(c)) == bg_intensified(c),
{
    match c {
        ColorBg::Inherit => {},
        ColorBg::Default => {},
        ColorBg::Black => {},
        ColorBg::BlackIntense => {},
        ColorBg::Red => {},
        ColorBg::RedIntense => {},
        ColorBg::Green => {},
        ColorBg::GreenIntense => {},
        ColorBg::Yellow => {},
        ColorBg::YellowIntense => {},
        ColorBg::Blue => {},
        ColorBg::BlueIntense => {},
        ColorBg::Magenta => {},
        ColorBg::MagentaIntense => {},
        ColorBg::Cyan => {},
        ColorBg::CyanIntense => {},
        ColorBg::White => {},
        ColorBg::WhiteIntense => {},
        ColorBg::Theme00 => {},
        ColorBg::Theme01 => {},
        ColorBg::Theme02 => {},
        ColorBg::Theme03 => {},
        ColorBg::Theme04 => {},
        ColorBg::Theme05 => {},
        ColorBg::Theme06 => {},
        ColorBg::Theme07 => {},
        ColorBg::Theme08 => {},
        ColorBg::Theme09 => {},
        ColorBg::Theme10 => {},
        ColorBg::Theme11 => {},
        ColorBg::Theme12 => {},
        ColorBg::Theme13 => {},
        ColorBg::Theme14 => {},
        ColorBg::Theme15 => {},
        ColorBg::Theme16 => {},
        ColorBg::Theme17 => {},
        ColorBg::Theme18 => {},
        ColorBg::Theme19 => {},
        ColorBg::Theme20 => {},
        ColorBg::Theme21 => {},
        ColorBg::Theme22 => {},
        ColorBg::Theme23 => {},
        ColorBg::Theme24 => {},
        ColorBg::Theme25 => {},
        ColorBg::Theme26 => {},
        ColorBg::Theme27 => {},
        ColorBg::Theme28 => {},
        ColorBg::Theme29 => {},
        ColorBg::ThemeEnd => {},
    }
}

/// A background code turned into the foreground code of the same color: an ASCII text
/// `CSI 4?m` becomes `CSI 3?m` and `CSI 10?m` becomes `CSI 9?m`
proof fn lemma_transcode_code(b: &str, f: &str)
    requires
        vstd::utf8::is_ascii_chars(b@),
        5 <= b@.len() <= 6 && b@[0] == '\x1B' && b@[1] == '[',
        (b@[2] == '4' && f@ =~= b@.update(2, '3')) || (b@[2] == '1' && b@[3] == '0' && f@ =~= b@.update(2, '9').remove(3)),
    ensures
        transcoded_bg_2_fg(b@, b.len() as int) == f@,
{
    vstd::utf8::is_ascii_chars_encode_utf8(b@);
    assert(b.len() == b@.len());
}

/// The foreground code matching a basic background color (not a theme color) is the code of
/// the foreground color of the same rank; `Inherit` gives no text on either side
pub proof fn lemma_transcode_basic_bg(c: ColorBg)
    requires
        bg_rank(c) < 18,
    ensures
        transcoded_bg_2_fg(bg_code(c)@, bg_code(c).len() as int) == fg_code(fg_of_rank(bg_rank(c)))@,
{
    match c {
        ColorBg::Inherit => {
            reveal_strlit("");
        },
        ColorBg::Default => {
            reveal_strlit("\x1B[49m");
            reveal_strlit("\x1B[39m");
            lemma_transcode_code(BG_DEFAULT, FG_DEFAULT);
        },
        ColorBg::Black => {
            reveal_strlit("\x1B[40m");
            reveal_strlit("\x1B[30m");
            lemma_transcode_code(BG_BLACK, FG_BLACK);
        },
        ColorBg::BlackIntense => {
            reveal_strlit("\x1B[100m");
            reveal_strlit("\x1B[90m");
            lemma_transcode_code(BG_BLACK_INTENSE, FG_BLACK_INTENSE);
        },
        ColorBg::Red => {
            reveal_strlit("\x1B[41m");
            reveal_strlit("\x1B[31m");
            lemma_transcode_code(BG_RED, FG_RED);
        },
        ColorBg::RedIntense => {
            reveal_strlit("\x1B[101m");
            reveal_strlit("\x1B[91m");
            lemma_transcode_code(BG_RED_INTENSE, FG_RED_INTENSE);
        },
        ColorBg::Green => {
            reveal_strlit("\x1B[42m");
            reveal_strlit("\x1B[32m");
            lemma_transcode_code(BG_GREEN, FG_GREEN);
        },
        ColorBg::GreenIntense => {
            reveal_strlit("\x1B[102m");
            reveal_strlit("\x1B[92m");
            lemma_transcode_code(BG_GREEN_INTENSE, FG_GREEN_INTENSE);
        },
        ColorBg::Yellow => {
            reveal_strlit("\x1B[43m");
            reveal_strlit("\x1B[33m");
            lemma_transcode_code(BG_YELLOW, FG_YELLOW);
        },
        ColorBg::YellowIntense => {
            reveal_strlit("\x1B[103m");
            reveal_strlit("\x1B[93m");
            lemma_transcode_code(BG_YELLOW_INTENSE, FG_YELLOW_INTENSE);
        },
        ColorBg::Blue => {
            reveal_strlit("\x1B[44m");
            reveal_strlit("\x1B[34m");
            lemma_transcode_code(BG_BLUE, FG_BLUE);
        },
        ColorBg::BlueIntense => {
            reveal_strlit("\x1B[104m");
            reveal_strlit("\x1B[94m");
            lemma_transcode_code(BG_BLUE_INTENSE, FG_BLUE_INTENSE);
        },
        ColorBg::Magenta => {
            reveal_strlit("\x1B[45m");
            reveal_strlit("\x1B[35m");
            lemma_transcode_code(BG_MAGENTA, FG_MAGENTA);
        },
        ColorBg::MagentaIntense => {
            reveal_strlit("\x1B[105m");
            reveal_strlit("\x1B[95m");
            lemma_transcode_code(BG_MAGENTA_INTENSE, FG_MAGENTA_INTENSE);
        },
        ColorBg::Cyan => {
            reveal_strlit("\x1B[46m");
            reveal_strlit("\x1B[36m");
            lemma_transcode_code(BG_CYAN, FG_CYAN);
        },
        ColorBg::CyanIntense => {
            reveal_strlit("\x1B[106m");
            reveal_strlit("\x1B[96m");
            lemma_transcode_code(BG_CYAN_INTENSE, FG_CYAN_INTENSE);
        },
        ColorBg::White => {
            reveal_strlit("\x1B[47m");
            reveal_strlit("\x1B[37m");
            lemma_transcode_code(BG_WHITE, FG_WHITE);
        },
        ColorBg::WhiteIntense => {
            reveal_strlit("\x1B[107m");
            reveal_strlit("\x1B[97m");
            lemma_transcode_code(BG_WHITE_INTENSE, FG_WHITE_INTENSE);
        },
        _ => {},
    }
}

/// The foreground sequence matching a background RGB color is the foreground sequence of the
/// same color
pub proof fn lemma_transcode_rgb(r: nat, g: nat, b: nat, byte_len: int)
    requires
        byte_len >= 5,
    ensures
        transcoded_bg_2_fg(crate::esc::bg_rgb_seq(r, g, b), byte_len) == crate::esc::fg_rgb_seq(r, g, b),
{
    assert(crate::esc::bg_rgb_seq(r, g, b).update(2, '3') =~= crate::esc::fg_rgb_seq(r, g, b));
}

} // verus!
