//! # ANSI ESC codes
//!
//! Escape sequences controlling text attributes, colors, cursor, lines and screen
//! of an ANSI terminal, and functions that build the parametrized ones.

use vstd::prelude::*;
use crate::utils::nat_to_dec;
use crate::utils::all_dec_digits;
use crate::utils::dec_digits_value;
use crate::utils::lemma_nat_to_dec_digits;
use crate::utils::push_dec_u64;

verus! {

/// The ESC character that begins every escape sequence
pub const ESC: char = '\x1B';
/// The ESC character as a byte
pub const ESC_U8: u8 = 0x1Bu8;

/// Maximum ESC sequence length (including null)
pub const SEQ_MAX_LENGTH: u8 = 8u8;

pub const BOLD: &'static str = "\x1B[1m";
pub const FAINT: &'static str = "\x1B[2m";
pub const NORMAL: &'static str = "\x1B[22m";
pub const ITALICS_ON: &'static str = "\x1B[3m";
pub const ITALICS_OFF: &'static str = "\x1B[23m";
pub const UNDERLINE_ON: &'static str = "\x1B[4m";
pub const UNDERLINE_OFF: &'static str = "\x1B[24m";
pub const OVERLINE_ON: &'static str = "\x1B[53m";
pub const OVERLINE_OFF: &'static str = "\x1B[55m";
pub const BLINK: &'static str = "\x1B[5m";
pub const BLINK_OFF: &'static str = "\x1B[25m";
pub const INVERSE_ON: &'static str = "\x1B[7m";
pub const INVERSE_OFF: &'static str = "\x1B[27m";
pub const INVISIBLE_ON: &'static str = "\x1B[8m";
pub const INVISIBLE_OFF: &'static str = "\x1B[28m";
pub const STRIKETHROUGH_ON: &'static str = "\x1B[9m";
pub const STRIKETHROUGH_OFF: &'static str = "\x1B[29m";
pub const ATTRIBUTES_DEFAULT: &'static str = "\x1B[10;22;23;24;25;27;28;29m";
/// Font selection
pub const FONT_DEFAULT: &'static str = "\x1B[10m";
pub const FONT_1: &'static str = "\x1B[11m";
pub const FONT_2: &'static str = "\x1B[12m";
pub const FONT_3: &'static str = "\x1B[13m";
pub const FONT_4: &'static str = "\x1B[14m";
pub const FONT_5: &'static str = "\x1B[15m";
pub const FONT_6: &'static str = "\x1B[16m";
pub const FONT_7: &'static str = "\x1B[17m";
pub const FONT_8: &'static str = "\x1B[18m";
pub const FONT_9: &'static str = "\x1B[19m";
pub const FG_BLACK: &'static str = "\x1B[30m";
pub const FG_BLACK_INTENSE: &'static str = "\x1B[90m";
pub const FG_RED: &'static str = "\x1B[31m";
pub const FG_RED_INTENSE: &'static str = "\x1B[91m";
pub const FG_GREEN: &'static str = "\x1B[32m";
pub const FG_GREEN_INTENSE: &'static str = "\x1B[92m";
pub const FG_YELLOW: &'static str = "\x1B[33m";
pub const FG_YELLOW_INTENSE: &'static str = "\x1B[93m";
pub const FG_BLUE: &'static str = "\x1B[34m";
pub const FG_BLUE_INTENSE: &'static str = "\x1B[94m";
pub const FG_MAGENTA: &'static str = "\x1B[35m";
pub const FG_MAGENTA_INTENSE: &'static str = "\x1B[95m";
pub const FG_CYAN: &'static str = "\x1B[36m";
pub const FG_CYAN_INTENSE: &'static str = "\x1B[96m";
pub const FG_WHITE: &'static str = "\x1B[37m";
pub const FG_WHITE_INTENSE: &'static str = "\x1B[97m";
pub const FG_DEFAULT: &'static str = "\x1B[39m";
pub const BG_BLACK: &'static str = "\x1B[40m";
pub const BG_BLACK_INTENSE: &'static str = "\x1B[100m";
pub const BG_RED: &'static str = "\x1B[41m";
pub const BG_RED_INTENSE: &'static str = "\x1B[101m";
pub const BG_GREEN: &'static str = "\x1B[42m";
pub const BG_GREEN_INTENSE: &'static str = "\x1B[102m";
pub const BG_YELLOW: &'static str = "\x1B[43m";
pub const BG_YELLOW_INTENSE: &'static str = "\x1B[103m";
pub const BG_BLUE: &'static str = "\x1B[44m";
pub const BG_BLUE_INTENSE: &'static str = "\x1B[104m";
pub const BG_MAGENTA: &'static str = "\x1B[45m";
pub const BG_MAGENTA_INTENSE: &'static str = "\x1B[105m";
pub const BG_CYAN: &'static str = "\x1B[46m";
pub const BG_CYAN_INTENSE: &'static str = "\x1B[106m";
pub const BG_WHITE: &'static str = "\x1B[47m";
pub const BG_WHITE_INTENSE: &'static str = "\x1B[107m";
pub const BG_DEFAULT: &'static str = "\x1B[49m";
/// Put Foreground and Background colors to their defaults
pub const COLORS_DEFAULT: &'static str = "\x1B[0m";
/// Pink colors
pub const FG_PINK: &'static str = "\x1B[38;2;255;192;203m";
pub const BG_PINK: &'static str = "\x1B[48;2;255;192;203m";
pub const FG_LIGHT_PINK: &'static str = "\x1B[38;2;255;182;193m";
pub const BG_LIGHT_PINK: &'static str = "\x1B[48;2;255;182;193m";
pub const FG_HOT_PINK: &'static str = "\x1B[38;2;255;105;180m";
pub const BG_HOT_PINK: &'static str = "\x1B[48;2;255;105;180m";
pub const FG_DEEP_PINK: &'static str = "\x1B[38;2;255;20;147m";
pub const BG_DEEP_PINK: &'static str = "\x1B[48;2;255;20;147m";
pub const FG_PALE_VIOLET_RED: &'static str = "\x1B[38;2;219;112;147m";
pub const BG_PALE_VIOLET_RED: &'static str = "\x1B[48;2;219;112;147m";
pub const FG_MEDIUM_VIOLET_RED: &'static str = "\x1B[38;2;199;21;133m";
pub const BG_MEDIUM_VIOLET_RED: &'static str = "\x1B[48;2;199;21;133m";
/// Red colors
pub const FG_LIGHT_SALMON: &'static str = "\x1B[38;2;255;160;122m";
pub const BG_LIGHT_SALMON: &'static str = "\x1B[48;2;255;160;122m";
pub const FG_SALMON: &'static str = "\x1B[38;2;250;128;114m";
pub const BG_SALMON: &'static str = "\x1B[48;2;250;128;114m";
pub const FG_DARK_SALMON: &'static str = "\x1B[38;2;233;150;122m";
pub const BG_DARK_SALMON: &'static str = "\x1B[48;2;233;150;122m";
pub const FG_LIGHT_CORAL: &'static str = "\x1B[38;2;240;128;128m";
pub const BG_LIGHT_CORAL: &'static str = "\x1B[48;2;240;128;128m";
pub const FG_INDIAN_RED: &'static str = "\x1B[38;2;205;92;92m";
pub const BG_INDIAN_RED: &'static str = "\x1B[48;2;205;92;92m";
pub const FG_CRIMSON: &'static str = "\x1B[38;2;220;20;60m";
pub const BG_CRIMSON: &'static str = "\x1B[48;2;220;20;60m";
pub const FG_FIREBRICK: &'static str = "\x1B[38;2;178;34;34m";
pub const BG_FIREBRICK: &'static str = "\x1B[48;2;178;34;34m";
pub const FG_DARK_RED: &'static str = "\x1B[38;2;139;0;0m";
pub const BG_DARK_RED: &'static str = "\x1B[48;2;139;0;0m";
pub const FG_RED_RGB: &'static str = "\x1B[38;2;255;0;0m";
pub const BG_RED_RGB: &'static str = "\x1B[48;2;255;0;0m";
/// Orange colors
pub const FG_ORANGE_RED: &'static str = "\x1B[38;2;255;69;0m";
pub const BG_ORANGE_RED: &'static str = "\x1B[48;2;255;69;0m";
pub const FG_TOMATO: &'static str = "\x1B[38;2;255;99;71m";
pub const BG_TOMATO: &'static str = "\x1B[48;2;255;99;71m";
pub const FG_CORAL: &'static str = "\x1B[38;2;255;127;80m";
pub const BG_CORAL: &'static str = "\x1B[48;2;255;127;80m";
pub const FG_DARK_ORANGE: &'static str = "\x1B[38;2;255;140;0m";
pub const BG_DARK_ORANGE: &'static str = "\x1B[48;2;255;140;0m";
pub const FG_ORANGE: &'static str = "\x1B[38;2;255;165;0m";
pub const BG_ORANGE: &'static str = "\x1B[48;2;255;165;0m";
/// Yellow colors
pub const FG_YELLOW_RGB: &'static str = "\x1B[38;2;255;255;0m";
pub const BG_YELLOW_RGB: &'static str = "\x1B[48;2;255;255;0m";
pub const FG_LIGHT_YELLOW: &'static str = "\x1B[38;2;255;255;224m";
pub const BG_LIGHT_YELLOW: &'static str = "\x1B[48;2;255;255;224m";
pub const FG_LEMON_CHIFFON: &'static str = "\x1B[38;2;255;250;205m";
pub const BG_LEMON_CHIFFON: &'static str = "\x1B[48;2;255;250;205m";
pub const FG_LIGHT_GOLDENROD_YELLOW: &'static str = "\x1B[38;2;250;250;210m";
pub const BG_LIGHT_GOLDENROD_YELLOW: &'static str = "\x1B[48;2;250;250;210m";
pub const FG_PAPAYA_WHIP: &'static str = "\x1B[38;2;255;239;213m";
pub const BG_PAPAYA_WHIP: &'static str = "\x1B[48;2;255;239;213m";
pub const FG_MOCCASIN: &'static str = "\x1B[38;2;255;228;181m";
pub const BG_MOCCASIN: &'static str = "\x1B[48;2;255;228;181m";
pub const FG_PEACH_PUFF: &'static str = "\x1B[38;2;255;218;185m";
pub const BG_PEACH_PUFF: &'static str = "\x1B[48;2;255;218;185m";
pub const FG_PALE_GOLDENROD: &'static str = "\x1B[38;2;238;232;170m";
pub const BG_PALE_GOLDENROD: &'static str = "\x1B[48;2;238;232;170m";
pub const FG_KHAKI: &'static str = "\x1B[38;2;240;230;140m";
pub const BG_KHAKI: &'static str = "\x1B[48;2;240;230;140m";
pub const FG_DARK_KHAKI: &'static str = "\x1B[38;2;189;183;107m";
pub const BG_DARK_KHAKI: &'static str = "\x1B[48;2;189;183;107m";
pub const FG_GOLD: &'static str = "\x1B[38;2;255;215;0m";
pub const BG_GOLD: &'static str = "\x1B[48;2;255;215;0m";
/// Brown colors
pub const FG_CORNSILK: &'static str = "\x1B[38;2;255;248;220m";
pub const BG_CORNSILK: &'static str = "\x1B[48;2;255;248;220m";
pub const FG_BLANCHED_ALMOND: &'static str = "\x1B[38;2;255;235;205m";
pub const BG_BLANCHED_ALMOND: &'static str = "\x1B[48;2;255;235;205m";
pub const FG_BISQUE: &'static str = "\x1B[38;2;255;228;196m";
pub const BG_BISQUE: &'static str = "\x1B[48;2;255;228;196m";
pub const FG_NAVAJO_WHITE: &'static str = "\x1B[38;2;255;222;173m";
pub const BG_NAVAJO_WHITE: &'static str = "\x1B[48;2;255;222;173m";
pub const FG_WHEAT: &'static str = "\x1B[38;2;245;222;179m";
pub const BG_WHEAT: &'static str = "\x1B[48;2;245;222;179m";
pub const FG_BURLYWOOD: &'static str = "\x1B[38;2;222;184;135m";
pub const BG_BURLYWOOD: &'static str = "\x1B[48;2;222;184;135m";
pub const FG_TAN: &'static str = "\x1B[38;2;210;180;140m";
pub const BG_TAN: &'static str = "\x1B[48;2;210;180;140m";
pub const FG_ROSY_BROWN: &'static str = "\x1B[38;2;188;143;143m";
pub const BG_ROSY_BROWN: &'static str = "\x1B[48;2;188;143;143m";
pub const FG_SANDY_BROWN: &'static str = "\x1B[38;2;244;164;96m";
pub const BG_SANDY_BROWN: &'static str = "\x1B[48;2;244;164;96m";
pub const FG_GOLDENROD: &'static str = "\x1B[38;2;218;165;32m";
pub const BG_GOLDENROD: &'static str = "\x1B[48;2;218;165;32m";
pub const FG_DARK_GOLDENROD: &'static str = "\x1B[38;2;184;134;11m";
pub const BG_DARK_GOLDENROD: &'static str = "\x1B[48;2;184;134;11m";
pub const FG_PERU: &'static str = "\x1B[38;2;205;133;63m";
pub const BG_PERU: &'static str = "\x1B[48;2;205;133;63m";
pub const FG_CHOCOLATE: &'static str = "\x1B[38;2;210;105;30m";
pub const BG_CHOCOLATE: &'static str = "\x1B[48;2;210;105;30m";
pub const FG_SADDLE_BROWN: &'static str = "\x1B[38;2;139;69;19m";
pub const BG_SADDLE_BROWN: &'static str = "\x1B[48;2;139;69;19m";
pub const FG_SIENNA: &'static str = "\x1B[38;2;160;82;45m";
pub const BG_SIENNA: &'static str = "\x1B[48;2;160;82;45m";
pub const FG_BROWN: &'static str = "\x1B[38;2;165;42;42m";
pub const BG_BROWN: &'static str = "\x1B[48;2;165;42;42m";
pub const FG_MAROON: &'static str = "\x1B[38;2;128;0;0m";
pub const BG_MAROON: &'static str = "\x1B[48;2;128;0;0m";
/// Green colors
pub const FG_DARK_OLIVE_GREEN: &'static str = "\x1B[38;2;85;107;47m";
pub const BG_DARK_OLIVE_GREEN: &'static str = "\x1B[48;2;85;107;47m";
pub const FG_OLIVE: &'static str = "\x1B[38;2;128;128;0m";
pub const BG_OLIVE: &'static str = "\x1B[48;2;128;128;0m";
pub const FG_OLIVE_DRAB: &'static str = "\x1B[38;2;107;142;35m";
pub const BG_OLIVE_DRAB: &'static str = "\x1B[48;2;107;142;35m";
pub const FG_YELLOW_GREEN: &'static str = "\x1B[38;2;154;205;50m";
pub const BG_YELLOW_GREEN: &'static str = "\x1B[48;2;154;205;50m";
pub const FG_LIME_GREEN: &'static str = "\x1B[38;2;50;205;50m";
pub const BG_LIME_GREEN: &'static str = "\x1B[48;2;50;205;50m";
pub const FG_LIME: &'static str = "\x1B[38;2;0;255;0m";
pub const BG_LIME: &'static str = "\x1B[48;2;0;255;0m";
pub const FG_LAWN_GREEN: &'static str = "\x1B[38;2;124;252;0m";
pub const BG_LAWN_GREEN: &'static str = "\x1B[48;2;124;252;0m";
pub const FG_CHARTREUSE: &'static str = "\x1B[38;2;127;255;0m";
pub const BG_CHARTREUSE: &'static str = "\x1B[48;2;127;255;0m";
pub const FG_GREEN_YELLOW: &'static str = "\x1B[38;2;173;255;47m";
pub const BG_GREEN_YELLOW: &'static str = "\x1B[48;2;173;255;47m";
pub const FG_SPRING_GREEN: &'static str = "\x1B[38;2;0;255;127m";
pub const BG_SPRING_GREEN: &'static str = "\x1B[48;2;0;255;127m";
pub const FG_MEDIUM_SPRING_GREEN: &'static str = "\x1B[38;2;0;250;154m";
pub const BG_MEDIUM_SPRING_GREEN: &'static str = "\x1B[48;2;0;250;154m";
pub const FG_LIGHT_GREEN: &'static str = "\x1B[38;2;144;238;144m";
pub const BG_LIGHT_GREEN: &'static str = "\x1B[48;2;144;238;144m";
pub const FG_PALE_GREEN: &'static str = "\x1B[38;2;152;251;152m";
pub const BG_PALE_GREEN: &'static str = "\x1B[48;2;152;251;152m";
pub const FG_DARK_SEA_GREEN: &'static str = "\x1B[38;2;143;188;143m";
pub const BG_DARK_SEA_GREEN: &'static str = "\x1B[48;2;143;188;143m";
pub const FG_MEDIUM_AQUAMARINE: &'static str = "\x1B[38;2;102;205;170m";
pub const BG_MEDIUM_AQUAMARINE: &'static str = "\x1B[48;2;102;205;170m";
pub const FG_MEDIUM_SEA_GREEN: &'static str = "\x1B[38;2;60;179;113m";
pub const BG_MEDIUM_SEA_GREEN: &'static str = "\x1B[48;2;60;179;113m";
pub const FG_SEA_GREEN: &'static str = "\x1B[38;2;46;139;87m";
pub const BG_SEA_GREEN: &'static str = "\x1B[48;2;46;139;87m";
pub const FG_FOREST_GREEN: &'static str = "\x1B[38;2;34;139;34m";
pub const BG_FOREST_GREEN: &'static str = "\x1B[48;2;34;139;34m";
pub const FG_GREEN_RGB: &'static str = "\x1B[38;2;0;128;0m";
pub const BG_GREEN_RGB: &'static str = "\x1B[48;2;0;128;0m";
pub const FG_DARK_GREEN: &'static str = "\x1B[38;2;0;100;0m";
pub const BG_DARK_GREEN: &'static str = "\x1B[48;2;0;100;0m";
/// Cyan colors
pub const FG_AQUA: &'static str = "\x1B[38;2;0;255;255m";
pub const BG_AQUA: &'static str = "\x1B[48;2;0;255;255m";
pub const FG_CYAN_RGB: &'static str = "\x1B[38;2;0;255;255m";
pub const BG_CYAN_RGB: &'static str = "\x1B[48;2;0;255;255m";
pub const FG_LIGHT_CYAN: &'static str = "\x1B[38;2;224;255;255m";
pub const BG_LIGHT_CYAN: &'static str = "\x1B[48;2;224;255;255m";
pub const FG_PALE_TURQUOISE: &'static str = "\x1B[38;2;175;238;238m";
pub const BG_PALE_TURQUOISE: &'static str = "\x1B[48;2;175;238;238m";
pub const FG_AQUAMARINE: &'static str = "\x1B[38;2;127;255;212m";
pub const BG_AQUAMARINE: &'static str = "\x1B[48;2;127;255;212m";
pub const FG_TURQUOISE: &'static str = "\x1B[38;2;64;224;208m";
pub const BG_TURQUOISE: &'static str = "\x1B[48;2;64;224;208m";
pub const FG_MEDIUM_TURQUOISE: &'static str = "\x1B[38;2;72;209;204m";
pub const BG_MEDIUM_TURQUOISE: &'static str = "\x1B[48;2;72;209;204m";
pub const FG_DARK_TURQUOISE: &'static str = "\x1B[38;2;0;206;209m";
pub const BG_DARK_TURQUOISE: &'static str = "\x1B[48;2;0;206;209m";
pub const FG_LIGHT_SEA_GREEN: &'static str = "\x1B[38;2;32;178;170m";
pub const BG_LIGHT_SEA_GREEN: &'static str = "\x1B[48;2;32;178;170m";
pub const FG_CADET_BLUE: &'static str = "\x1B[38;2;95;158;160m";
pub const BG_CADET_BLUE: &'static str = "\x1B[48;2;95;158;160m";
pub const FG_DARK_CYAN: &'static str = "\x1B[38;2;0;139;139m";
pub const BG_DARK_CYAN: &'static str = "\x1B[48;2;0;139;139m";
pub const FG_TEAL: &'static str = "\x1B[38;2;0;128;128m";
pub const BG_TEAL: &'static str = "\x1B[48;2;0;128;128m";
/// Blue colors
pub const FG_LIGHT_STEEL_BLUE: &'static str = "\x1B[38;2;176;196;222m";
pub const BG_LIGHT_STEEL_BLUE: &'static str = "\x1B[48;2;176;196;222m";
pub const FG_POWDER_BLUE: &'static str = "\x1B[38;2;176;224;230m";
pub const BG_POWDER_BLUE: &'static str = "\x1B[48;2;176;224;230m";
pub const FG_LIGHT_BLUE: &'static str = "\x1B[38;2;173;216;230m";
pub const BG_LIGHT_BLUE: &'static str = "\x1B[48;2;173;216;230m";
pub const FG_SKY_BLUE: &'static str = "\x1B[38;2;135;206;235m";
pub const BG_SKY_BLUE: &'static str = "\x1B[48;2;135;206;235m";
pub const FG_LIGHT_SKY_BLUE: &'static str = "\x1B[38;2;135;206;250m";
pub const BG_LIGHT_SKY_BLUE: &'static str = "\x1B[48;2;135;206;250m";
pub const FG_DEEP_SKY_BLUE: &'static str = "\x1B[38;2;0;191;255m";
pub const BG_DEEP_SKY_BLUE: &'static str = "\x1B[48;2;0;191;255m";
pub const FG_DODGER_BLUE: &'static str = "\x1B[38;2;30;144;255m";
pub const BG_DODGER_BLUE: &'static str = "\x1B[48;2;30;144;255m";
pub const FG_CORNFLOWER_BLUE: &'static str = "\x1B[38;2;100;149;237m";
pub const BG_CORNFLOWER_BLUE: &'static str = "\x1B[48;2;100;149;237m";
pub const FG_STEEL_BLUE: &'static str = "\x1B[38;2;70;130;180m";
pub const BG_STEEL_BLUE: &'static str = "\x1B[48;2;70;130;180m";
pub const FG_ROYAL_BLUE: &'static str = "\x1B[38;2;65;105;225m";
pub const BG_ROYAL_BLUE: &'static str = "\x1B[48;2;65;105;225m";
pub const FG_BLUE_RGB: &'static str = "\x1B[38;2;0;0;255m";
pub const BG_BLUE_RGB: &'static str = "\x1B[48;2;0;0;255m";
pub const FG_MEDIUM_BLUE: &'static str = "\x1B[38;2;0;0;205m";
pub const BG_MEDIUM_BLUE: &'static str = "\x1B[48;2;0;0;205m";
pub const FG_DARK_BLUE: &'static str = "\x1B[38;2;0;0;139m";
pub const BG_DARK_BLUE: &'static str = "\x1B[48;2;0;0;139m";
pub const FG_NAVY: &'static str = "\x1B[38;2;0;0;128m";
pub const BG_NAVY: &'static str = "\x1B[48;2;0;0;128m";
pub const FG_MIDNIGHT_BLUE: &'static str = "\x1B[38;2;25;25;112m";
pub const BG_MIDNIGHT_BLUE: &'static str = "\x1B[48;2;25;25;112m";
/// Purple, violet, and magenta colors
pub const FG_LAVENDER: &'static str = "\x1B[38;2;230;230;250m";
pub const BG_LAVENDER: &'static str = "\x1B[48;2;230;230;250m";
pub const FG_THISTLE: &'static str = "\x1B[38;2;216;191;216m";
pub const BG_THISTLE: &'static str = "\x1B[48;2;216;191;216m";
pub const FG_PLUM: &'static str = "\x1B[38;2;221;160;221m";
pub const BG_PLUM: &'static str = "\x1B[48;2;221;160;221m";
pub const FG_VIOLET: &'static str = "\x1B[38;2;238;130;238m";
pub const BG_VIOLET: &'static str = "\x1B[48;2;238;130;238m";
pub const FG_ORCHID: &'static str = "\x1B[38;2;218;112;214m";
pub const BG_ORCHID: &'static str = "\x1B[48;2;218;112;214m";
pub const FG_FUCHSIA: &'static str = "\x1B[38;2;255;0;255m";
pub const BG_FUCHSIA: &'static str = "\x1B[48;2;255;0;255m";
pub const FG_MAGENTA_RGB: &'static str = "\x1B[38;2;255;0;255m";
pub const BG_MAGENTA_RGB: &'static str = "\x1B[48;2;255;0;255m";
pub const FG_MEDIUM_ORCHID: &'static str = "\x1B[38;2;186;85;211m";
pub const BG_MEDIUM_ORCHID: &'static str = "\x1B[48;2;186;85;211m";
pub const FG_MEDIUM_PURPLE: &'static str = "\x1B[38;2;147;112;219m";
pub const BG_MEDIUM_PURPLE: &'static str = "\x1B[48;2;147;112;219m";
pub const FG_BLUE_VIOLET: &'static str = "\x1B[38;2;138;43;226m";
pub const BG_BLUE_VIOLET: &'static str = "\x1B[48;2;138;43;226m";
pub const FG_DARK_VIOLET: &'static str = "\x1B[38;2;148;0;211m";
pub const BG_DARK_VIOLET: &'static str = "\x1B[48;2;148;0;211m";
pub const FG_DARK_ORCHID: &'static str = "\x1B[38;2;153;50;204m";
pub const BG_DARK_ORCHID: &'static str = "\x1B[48;2;153;50;204m";
pub const FG_DARK_MAGENTA: &'static str = "\x1B[38;2;139;0;139m";
pub const BG_DARK_MAGENTA: &'static str = "\x1B[48;2;139;0;139m";
pub const FG_PURPLE: &'static str = "\x1B[38;2;128;0;128m";
pub const BG_PURPLE: &'static str = "\x1B[48;2;128;0;128m";
pub const FG_INDIGO: &'static str = "\x1B[38;2;75;0;130m";
pub const BG_INDIGO: &'static str = "\x1B[48;2;75;0;130m";
pub const FG_DARK_SLATE_BLUE: &'static str = "\x1B[38;2;72;61;139m";
pub const BG_DARK_SLATE_BLUE: &'static str = "\x1B[48;2;72;61;139m";
pub const FG_SLATE_BLUE: &'static str = "\x1B[38;2;106;90;205m";
pub const BG_SLATE_BLUE: &'static str = "\x1B[48;2;106;90;205m";
pub const FG_MEDIUM_SLATE_BLUE: &'static str = "\x1B[38;2;123;104;238m";
pub const BG_MEDIUM_SLATE_BLUE: &'static str = "\x1B[48;2;123;104;238m";
/// Gray and black colors
pub const FG_GAINSBORO: &'static str = "\x1B[38;2;220;220;220m";
pub const BG_GAINSBORO: &'static str = "\x1B[48;2;220;220;220m";
pub const FG_LIGHT_GRAY: &'static str = "\x1B[38;2;211;211;211m";
pub const BG_LIGHT_GRAY: &'static str = "\x1B[48;2;211;211;211m";
pub const FG_SILVER: &'static str = "\x1B[38;2;192;192;192m";
pub const BG_SILVER: &'static str = "\x1B[48;2;192;192;192m";
pub const FG_DARK_GRAY: &'static str = "\x1B[38;2;169;169;169m";
pub const BG_DARK_GRAY: &'static str = "\x1B[48;2;169;169;169m";
pub const FG_GRAY: &'static str = "\x1B[38;2;128;128;128m";
pub const BG_GRAY: &'static str = "\x1B[48;2;128;128;128m";
pub const FG_DIM_GRAY: &'static str = "\x1B[38;2;105;105;105m";
pub const BG_DIM_GRAY: &'static str = "\x1B[48;2;105;105;105m";
pub const FG_LIGHT_SLATE_GRAY: &'static str = "\x1B[38;2;119;136;153m";
pub const BG_LIGHT_SLATE_GRAY: &'static str = "\x1B[48;2;119;136;153m";
pub const FG_SLATE_GRAY: &'static str = "\x1B[38;2;112;128;144m";
pub const BG_SLATE_GRAY: &'static str = "\x1B[48;2;112;128;144m";
pub const FG_DARK_SLATE_GRAY: &'static str = "\x1B[38;2;47;79;79m";
pub const BG_DARK_SLATE_GRAY: &'static str = "\x1B[48;2;47;79;79m";
pub const FG_BLACK_RGB: &'static str = "\x1B[38;2;0;0;0m";
pub const BG_BLACK_RGB: &'static str = "\x1B[48;2;0;0;0m";
pub const CURSOR_POS_SAVE: &'static str = "\x1B[s";
pub const CURSOR_POS_RESTORE: &'static str = "\x1B[u";
pub const CURSOR_HIDE: &'static str = "\x1B[?25l";
pub const CURSOR_SHOW: &'static str = "\x1B[?25h";
pub const CURSOR_HOME: &'static str = "\x1B[H";
pub const CURSOR_COLUMN_FMT: &'static str = "\x1B[{0}G";
pub const CURSOR_GOTO_FMT: &'static str = "\x1B[{0};{1}H";
pub const CURSOR_UP_FMT: &'static str = "\x1B[{0}A";
pub const CURSOR_DOWN_FMT: &'static str = "\x1B[{0}B";
pub const CURSOR_FORWARD_FMT: &'static str = "\x1B[{0}C";
pub const CURSOR_BACKWARD_FMT: &'static str = "\x1B[{0}D";
/// Erases the current line, returning the cursor to the far left
pub const LINE_ERASE_ALL: &'static str = "\x1B[2K";
pub const LINE_ERASE_RIGHT: &'static str = "\x1B[0K";
pub const LINE_ERASE_LEFT: &'static str = "\x1B[1K";
pub const LINE_INSERT_FMT: &'static str = "\x1B[{0}L";
pub const LINE_DELETE_FMT: &'static str = "\x1B[{0}M";
pub const CHAR_REPEAT_LAST_FMT: &'static str = "\x1B[{0}b";
pub const CHAR_ERASE_FMT: &'static str = "\x1B[{0}X";
pub const CHAR_DELETE_FMT: &'static str = "\x1B[{0}P";
pub const CHAR_INSERT_FMT: &'static str = "\x1B[{0}@";
/// Erases the entire display, returning the cursor to the top left.
pub const SCREEN_ERASE_ALL: &'static str = "\x1B[2J";
pub const SCREEN_ERASE_BELOW: &'static str = "\x1B[0J";
pub const SCREEN_ERASE_ABOVE: &'static str = "\x1B[1J";
/// Save / restore screen content
pub const SCREEN_SAVE: &'static str = "\x1B[?47h";
pub const SCREEN_RESTORE: &'static str = "\x1B[?47l";
/// Reverse/normal video mode (BG <--> FG)
pub const SCREEN_REVERSE_ON: &'static str = "\x1B[?5h";
pub const SCREEN_REVERSE_OFF: &'static str = "\x1B[?5l";
pub const SCREEN_SCROLL_UP_FMT: &'static str = "\x1B[{0}S";
pub const SCREEN_SCROLL_DOWN_FMT: &'static str = "\x1B[{0}T";
/// Mode1: only click
pub const MOUSE_REPORTING_M1_ON: &'static str = "\x1B[?9h";
pub const MOUSE_REPORTING_M1_OFF: &'static str = "\x1B[?9l";
/// Mode2: click + release + wheel + Ctrl/Alt/Shift
pub const MOUSE_REPORTING_M2_ON: &'static str = "\x1B[?1000h";
pub const MOUSE_REPORTING_M2_OFF: &'static str = "\x1B[?1000l";
/// Terminal reset - clear the screen and scroll buffer
pub const TERM_RESET: &'static str = "\x1Bc";
/// Bell signal
pub const BELL: &'static str = "\x07";
/// Character encoding
pub const ENCODING_ISO8858_1: &'static str = "\x1B%@";
pub const ENCODING_UTF8: &'static str = "\x1B%G";
/// Terminal properties reporting
pub const REPORT_WINDOW_CHARS: &'static str = "\x1B[18t";
pub const REPORT_SCREEN_CHARS: &'static str = "\x1B[19t";
pub const REPORT_CAPABILITIES: &'static str = "\x1B[c";

/// Control Sequence Introducer followed by `body`
pub open spec fn csi_seq(body: Seq<char>) -> Seq<char> {
    seq!['\x1B', '['] + body
}

/// Sequence `CSI n <fin>`
pub open spec fn csi_num_seq(n: nat, fin: char) -> Seq<char> {
    csi_seq(nat_to_dec(n).push(fin))
}

/// Builds `CSI n <fin>`
fn csi_num(n: u64, fin: char) -> (r: String)
    ensures
        r@ == csi_num_seq(n as nat, fin),
{
    let mut s = String::new();
    s.push('\x1B');
    s.push('[');
    push_dec_u64(&mut s, n);
    s.push(fin);
    assert(s@ =~= csi_num_seq(n as nat, fin));
    s
}

/// Sequence `CSI <pfx>;<a>;<b>;<c>m` of an RGB color
pub open spec fn rgb_seq(pfx: Seq<char>, r: nat, g: nat, b: nat) -> Seq<char> {
    csi_seq(pfx + nat_to_dec(r) + seq![';'] + nat_to_dec(g) + seq![';'] + nat_to_dec(b) + seq!['m'])
}

/// Sequence of a foreground RGB color: `CSI 38;2;<r>;<g>;<b>m`
pub open spec fn fg_rgb_seq(r: nat, g: nat, b: nat) -> Seq<char> {
    rgb_seq(seq!['3', '8', ';', '2', ';'], r, g, b)
}

/// Sequence of a background RGB color: `CSI 48;2;<r>;<g>;<b>m`
pub open spec fn bg_rgb_seq(r: nat, g: nat, b: nat) -> Seq<char> {
    rgb_seq(seq!['4', '8', ';', '2', ';'], r, g, b)
}

/// Builds an RGB color sequence with the given prefix (`38;2;` or `48;2;`)
fn rgb(fg: bool, r: u8, g: u8, b: u8) -> (res: String)
    ensures
        res@ == (if fg { fg_rgb_seq(r as nat, g as nat, b as nat) } else { bg_rgb_seq(r as nat, g as nat, b as nat) }),
{
    let mut s = String::new();
    s.push('\x1B');
    s.push('[');
    s.push(if fg { '3' } else { '4' });
    s.push('8');
    s.push(';');
    s.push('2');
    s.push(';');
    push_dec_u64(&mut s, r as u64);
    s.push(';');
    push_dec_u64(&mut s, g as u64);
    s.push(';');
    push_dec_u64(&mut s, b as u64);
    s.push('m');
    let ghost pfx = if fg { seq!['3', '8', ';', '2', ';'] } else { seq!['4', '8', ';', '2', ';'] };
    assert(s@ =~= rgb_seq(pfx, r as nat, g as nat, b as nat));
    s
}

/// Foreground RGB color; r,g,b: 0..255
pub fn fg_rgb(r: u8, g: u8, b: u8) -> (res: String)
    ensures
        res@ == fg_rgb_seq(r as nat, g as nat, b as nat),
{
    rgb(true, r, g, b)
}

/// Background RGB color; r,g,b: 0..255
pub fn bg_rgb(r: u8, g: u8, b: u8) -> (res: String)
    ensures
        res@ == bg_rgb_seq(r as nat, g as nat, b as nat),
{
    rgb(false, r, g, b)
}

/// An RGB color sequence reads back as its color: after `CSI` and the prefix come three
/// decimal numbers separated by `;`, which are the red, green and blue components in that
/// order, and the final `m`
pub proof fn lemma_rgb_fields(pfx: Seq<char>, r: nat, g: nat, b: nat)
    ensures
        exists|dr: Seq<char>, dg: Seq<char>, db: Seq<char>| {
            &&& dr.len() > 0 && all_dec_digits(dr) && dec_digits_value(dr) == r
            &&& dg.len() > 0 && all_dec_digits(dg) && dec_digits_value(dg) == g
            &&& db.len() > 0 && all_dec_digits(db) && dec_digits_value(db) == b
            &&& #[trigger] rgb_seq(pfx, r, g, b) == seq!['\x1B', '['] + pfx + dr + seq![';'] + dg + seq![';'] + db + seq!['m']
        },
{
    lemma_nat_to_dec_digits(r);
    lemma_nat_to_dec_digits(g);
    lemma_nat_to_dec_digits(b);
    let (dr, dg, db) = (nat_to_dec(r), nat_to_dec(g), nat_to_dec(b));
    assert(rgb_seq(pfx, r, g, b) =~= seq!['\x1B', '['] + pfx + dr + seq![';'] + dg + seq![';'] + db + seq!['m']);
}

/// A foreground RGB sequence reads `CSI 38;2;` then the red, green and blue components in
/// decimal, separated by `;`, then `m`; a background one the same after `CSI 48;2;`
pub proof fn lemma_fg_bg_rgb_fields(r: nat, g: nat, b: nat)
    ensures
        exists|dr: Seq<char>, dg: Seq<char>, db: Seq<char>| {
            &&& dr.len() > 0 && all_dec_digits(dr) && dec_digits_value(dr) == r
            &&& dg.len() > 0 && all_dec_digits(dg) && dec_digits_value(dg) == g
            &&& db.len() > 0 && all_dec_digits(db) && dec_digits_value(db) == b
            &&& #[trigger] fg_rgb_seq(r, g, b) == seq!['\x1B', '[', '3', '8', ';', '2', ';'] + dr + seq![';'] + dg + seq![';'] + db + seq!['m']
            &&& bg_rgb_seq(r, g, b) == seq!['\x1B', '[', '4', '8', ';', '2', ';'] + dr + seq![';'] + dg + seq![';'] + db + seq!['m']
        },
{
    lemma_nat_to_dec_digits(r);
    lemma_nat_to_dec_digits(g);
    lemma_nat_to_dec_digits(b);
    let (dr, dg, db) = (nat_to_dec(r), nat_to_dec(g), nat_to_dec(b));
    assert(fg_rgb_seq(r, g, b) =~= seq!['\x1B', '[', '3', '8', ';', '2', ';'] + dr + seq![';'] + dg + seq![';'] + db + seq!['m']);
    assert(bg_rgb_seq(r, g, b) =~= seq!['\x1B', '[', '4', '8', ';', '2', ';'] + dr + seq![';'] + dg + seq![';'] + db + seq!['m']);
}

/// Decimal texts with the same digits-only shape read back to the same value: the fields of an
/// RGB sequence are found again from its text alone
pub proof fn lemma_rgb_fields_unique(pfx: Seq<char>, r: nat, g: nat, b: nat, dr: Seq<char>, dg: Seq<char>, db: Seq<char>)
    requires
        dr.len() > 0 && all_dec_digits(dr),
        dg.len() > 0 && all_dec_digits(dg),
        db.len() > 0 && all_dec_digits(db),
        rgb_seq(pfx, r, g, b) == seq!['\x1B', '['] + pfx + dr + seq![';'] + dg + seq![';'] + db + seq!['m'],
    ensures
        dec_digits_value(dr) == r,
        dec_digits_value(dg) == g,
        dec_digits_value(db) == b,
{
    lemma_nat_to_dec_digits(r);
    lemma_nat_to_dec_digits(g);
    lemma_nat_to_dec_digits(b);
    let s = rgb_seq(pfx, r, g, b);
    let tr = nat_to_dec(r);
    let tg = nat_to_dec(g);
    let tb = nat_to_dec(b);
    let p = seq!['\x1B', '['] + pfx;
    // both texts are p, then digits ; digits ; digits m
    let x = tr + seq![';'] + tg + seq![';'] + tb + seq!['m'];
    let y = dr + seq![';'] + dg + seq![';'] + db + seq!['m'];
    assert(s =~= p + x);
    assert(s =~= p + y);
    assert(x =~= s.skip(p.len() as int));
    assert(y =~= s.skip(p.len() as int));
    lemma_digits_fields(tr, tg, tb, dr, dg, db);
}

/// Two texts `a;b;cm` made of digit runs are the same only with the same runs
proof fn lemma_digits_fields(a: Seq<char>, b: Seq<char>, c: Seq<char>, a2: Seq<char>, b2: Seq<char>, c2: Seq<char>)
    requires
        all_dec_digits(a) && all_dec_digits(b) && all_dec_digits(c),
        all_dec_digits(a2) && all_dec_digits(b2) && all_dec_digits(c2),
        a + seq![';'] + b + seq![';'] + c + seq!['m'] == a2 + seq![';'] + b2 + seq![';'] + c2 + seq!['m'],
    ensures
        a == a2 && b == b2 && c == c2,
{
    let x = a + seq![';'] + b + seq![';'] + c + seq!['m'];
    // the first ';' is at a.len() and at a2.len()
    if a.len() < a2.len() {
        assert(x[a.len() as int] == ';');
        assert(x[a.len() as int] == a2[a.len() as int]);
        assert(false);
    }
    if a2.len() < a.len() {
        assert(x[a2.len() as int] == ';');
        assert(x[a2.len() as int] == a[a2.len() as int]);
        assert(false);
    }
    assert(a =~= x.take(a.len() as int));
    assert(a2 =~= x.take(a.len() as int));
    let rest = x.skip(a.len() as int + 1);
    assert(rest =~= b + seq![';'] + c + seq!['m']);
    assert(rest =~= b2 + seq![';'] + c2 + seq!['m']);
    if b.len() < b2.len() {
        assert(rest[b.len() as int] == ';');
        assert(rest[b.len() as int] == b2[b.len() as int]);
        assert(false);
    }
    if b2.len() < b.len() {
        assert(rest[b2.len() as int] == ';');
        assert(rest[b2.len() as int] == b[b2.len() as int]);
        assert(false);
    }
    assert(b =~= rest.take(b.len() as int));
    assert(b2 =~= rest.take(b.len() as int));
    let rest2 = rest.skip(b.len() as int + 1);
    assert(rest2 =~= c + seq!['m']);
    assert(rest2 =~= c2 + seq!['m']);
    assert(c =~= rest2.take(rest2.len() - 1));
    assert(c2 =~= rest2.take(rest2.len() - 1));
}

/// Sequence `CSI <pfx>;5;<n>m` of an 8-bit palette color
pub open spec fn palette_seq(p: char, n: nat) -> Seq<char> {
    csi_seq(seq![p, '8', ';', '5', ';'] + nat_to_dec(n) + seq!['m'])
}

/// Builds an 8-bit palette color sequence
fn palette(p: char, clno: u8) -> (res: String)
    ensures
        res@ == palette_seq(p, clno as nat),
{
    let mut s = String::new();
    s.push('\x1B');
    s.push('[');
    s.push(p);
    s.push('8');
    s.push(';');
    s.push('5');
    s.push(';');
    push_dec_u64(&mut s, clno as u64);
    s.push('m');
    assert(s@ =~= palette_seq(p, clno as nat));
    s
}

/// Foreground 8-bit color; clno: 1..255, 232..255=black->white
pub fn fg_color(clno: u8) -> (res: String)
    ensures
        res@ == palette_seq('3', clno as nat),
{
    palette('3', clno)
}

/// Background 8-bit color; clno: 1..255, 232..255=black->white
pub fn bg_color(clno: u8) -> (res: String)
    ensures
        res@ == palette_seq('4', clno as nat),
{
    palette('4', clno)
}

/// Set cursor at column `col`
pub fn cursor_column(col: u16) -> (r: String)
    ensures
        r@ == csi_num_seq(col as nat, 'G'),
{
    csi_num(col as u64, 'G')
}

/// Sequence `CSI row;col H`
pub open spec fn cursor_goto_seq(row: nat, col: nat) -> Seq<char> {
    csi_seq(nat_to_dec(row) + seq![';'] + nat_to_dec(col) + seq!['H'])
}

/// Move cursor to `row`:`col`
pub fn cursor_goto(row: u16, col: u16) -> (r: String)
    ensures
        r@ == cursor_goto_seq(row as nat, col as nat),
{
    let mut s = String::new();
    s.push('\x1B');
    s.push('[');
    push_dec_u64(&mut s, row as u64);
    s.push(';');
    push_dec_u64(&mut s, col as u64);
    s.push('H');
    assert(s@ =~= cursor_goto_seq(row as nat, col as nat));
    s
}

/// Move cursor `n` rows up
pub fn cursor_up(n: u16) -> (r: String)
    ensures
        r@ == csi_num_seq(n as nat, 'A'),
{
    csi_num(n as u64, 'A')
}

/// Move cursor `n` rows down
pub fn cursor_down(n: u16) -> (r: String)
    ensures
        r@ == csi_num_seq(n as nat, 'B'),
{
    csi_num(n as u64, 'B')
}

/// Move cursor `n` columns forward
pub fn cursor_forward(n: u16) -> (r: String)
    ensures
        r@ == csi_num_seq(n as nat, 'C'),
{
    csi_num(n as u64, 'C')
}

/// Move cursor `n` columns backward
pub fn cursor_backward(n: u16) -> (r: String)
    ensures
        r@ == csi_num_seq(n as nat, 'D'),
{
    csi_num(n as u64, 'D')
}

/// Insert `n` lines
pub fn line_insert(n: u16) -> (r: String)
    ensures
        r@ == csi_num_seq(n as nat, 'L'),
{
    csi_num(n as u64, 'L')
}

/// Delete `n` lines
pub fn line_delete(n: u16) -> (r: String)
    ensures
        r@ == csi_num_seq(n as nat, 'M'),
{
    csi_num(n as u64, 'M')
}

/// Repeat last character `n` times - not supported on every platform
pub fn char_repeat_last(n: u16) -> (r: String)
    ensures
        r@ == csi_num_seq(n as nat, 'b'),
{
    csi_num(n as u64, 'b')
}

/// Erase `n` characters (replace with space)
pub fn char_erase(n: u16) -> (r: String)
    ensures
        r@ == csi_num_seq(n as nat, 'X'),
{
    csi_num(n as u64, 'X')
}

/// Delete `n` characters
pub fn char_delete(n: u16) -> (r: String)
    ensures
        r@ == csi_num_seq(n as nat, 'P'),
{
    csi_num(n as u64, 'P')
}

/// Insert `n` characters
pub fn char_insert(n: u16) -> (r: String)
    ensures
        r@ == csi_num_seq(n as nat, '@'),
{
    csi_num(n as u64, '@')
}

/// Scroll screen up `n` lines
pub fn screen_scroll_up(n: u16) -> (r: String)
    ensures
        r@ == csi_num_seq(n as nat, 'S'),
{
    csi_num(n as u64, 'S')
}

/// Scroll screen down `n` lines
pub fn screen_scroll_down(n: u16) -> (r: String)
    ensures
        r@ == csi_num_seq(n as nat, 'T'),
{
    csi_num(n as u64, 'T')
}

/// A numeric sequence reads back as its number: `CSI`, the number in decimal, then the final
/// character
pub proof fn lemma_csi_num_fields(n: nat, fin: char)
    ensures
        exists|d: Seq<char>| {
            &&& d.len() > 0 && all_dec_digits(d) && dec_digits_value(d) == n
            &&& #[trigger] csi_num_seq(n, fin) == seq!['\x1B', '['] + d + seq![fin]
        },
{
    lemma_nat_to_dec_digits(n);
    let d = nat_to_dec(n);
    assert(csi_num_seq(n, fin) =~= seq!['\x1B', '['] + d + seq![fin]);
}

/// A cursor position sequence reads back as its position: `CSI`, the row in decimal, `;`, the
/// column in decimal, then `H`
pub proof fn lemma_cursor_goto_fields(row: nat, col: nat)
    ensures
        exists|dr: Seq<char>, dc: Seq<char>| {
            &&& dr.len() > 0 && all_dec_digits(dr) && dec_digits_value(dr) == row
            &&& dc.len() > 0 && all_dec_digits(dc) && dec_digits_value(dc) == col
            &&& #[trigger] cursor_goto_seq(row, col) == seq!['\x1B', '['] + dr + seq![';'] + dc + seq!['H']
        },
{
    lemma_nat_to_dec_digits(row);
    lemma_nat_to_dec_digits(col);
    let (dr, dc) = (nat_to_dec(row), nat_to_dec(col));
    assert(cursor_goto_seq(row, col) =~= seq!['\x1B', '['] + dr + seq![';'] + dc + seq!['H']);
}

/// An 8-bit palette color sequence reads back as its color number: `CSI`, `3` (foreground) or `4`
/// (background), `8;5;`, the number in decimal, then `m`
pub proof fn lemma_palette_fields(p: char, n: nat)
    ensures
        exists|d: Seq<char>| {
            &&& d.len() > 0 && all_dec_digits(d) && dec_digits_value(d) == n
            &&& #[trigger] palette_seq(p, n) == seq!['\x1B', '[', p, '8', ';', '5', ';'] + d + seq!['m']
        },
{
    lemma_nat_to_dec_digits(n);
    let d = nat_to_dec(n);
    assert(palette_seq(p, n) =~= seq!['\x1B', '[', p, '8', ';', '5', ';'] + d + seq!['m']);
}

/// Operating System Command prefix of a hyperlink
pub open spec fn osc_link_seq() -> Seq<char> {
    seq!['\x1B', ']', '8', ';', ';']
}

/// Clickable URL with title: `OSC 8;; url BEL title OSC 8;; BEL`
pub fn url_link(url: &str, capt: &str) -> (r: String)
    ensures
        r@ == osc_link_seq() + url@ + seq!['\x07'] + capt@ + osc_link_seq() + seq!['\x07'],
{
    let mut s = String::new();
    s.push('\x1B');
    s.push(']');
    s.push('8');
    s.push(';');
    s.push(';');
    s.push_str(url);
    s.push('\x07');
    s.push_str(capt);
    s.push('\x1B');
    s.push(']');
    s.push('8');
    s.push(';');
    s.push(';');
    s.push('\x07');
    assert(s@ =~= osc_link_seq() + url@ + seq!['\x07'] + capt@ + osc_link_seq() + seq!['\x07']);
    s
}

} // verus!
