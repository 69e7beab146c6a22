//! # RTWins ESC tests


use rtwins::esc;

fn count_esc(s: &str) -> u32
{
    let n_esc = s.chars().fold(
        0u32, |acc, item| if item == '\x1B' { acc + 1 } else { acc }
    );
    n_esc
}

#[test]
fn esc_macros() {
    assert_eq!("\x1b[{0}G", esc::CURSOR_COLUMN_FMT);
    assert_eq!("\x1b[{0}G", esc::CURSOR_COLUMN_FMT);
    assert_eq!("\x1b[42G", rtwins::esc::cursor_column(42));

    assert_eq!("\x1b[48;5;123m", rtwins::esc::bg_color(123));
    assert_eq!("\x1b[48;2;255;192;203m", esc::BG_PINK);

    assert_eq!("\x1b[38;5;213m", rtwins::esc::fg_color(213));
    assert_eq!("\x1b[38;2;220;20;60m", esc::FG_CRIMSON);
}

#[test]
fn colors_attributes() {
    let s = String::new()
        + esc::BOLD
        + esc::FAINT
        + esc::NORMAL
        + esc::ITALICS_ON
        + esc::ITALICS_OFF
        + esc::UNDERLINE_ON
        + esc::UNDERLINE_OFF
        + esc::BLINK
        + esc::BLINK_OFF
        + esc::INVERSE_ON
        + esc::INVERSE_OFF
        + esc::INVISIBLE_ON
        + esc::INVISIBLE_OFF
        + esc::STRIKETHROUGH_ON
        + esc::STRIKETHROUGH_OFF
        + esc::ATTRIBUTES_DEFAULT;

    assert_eq!(count_esc(&s), 16);
}

/// Check if all colors are available
#[test]
fn colors_fg() {
    let s = String::new()
        + esc::FG_BLACK
        + esc::FG_BLACK_INTENSE
        + esc::FG_RED
        + esc::FG_RED_INTENSE
        + esc::FG_GREEN
        + esc::FG_GREEN_INTENSE
        + esc::FG_YELLOW
        + esc::FG_YELLOW_INTENSE
        + esc::FG_BLUE
        + esc::FG_BLUE_INTENSE
        + esc::FG_MAGENTA
        + esc::FG_MAGENTA_INTENSE
        + esc::FG_CYAN
        + esc::FG_CYAN_INTENSE
        + esc::FG_WHITE
        + esc::FG_WHITE_INTENSE
        + esc::FG_DEFAULT
        + esc::FG_PINK
        + esc::FG_LIGHT_PINK
        + esc::FG_HOT_PINK
        + esc::FG_DEEP_PINK
        + esc::FG_PALE_VIOLET_RED
        + esc::FG_MEDIUM_VIOLET_RED
        + esc::FG_LIGHT_SALMON
        + esc::FG_SALMON
        + esc::FG_DARK_SALMON
        + esc::FG_LIGHT_CORAL
        + esc::FG_INDIAN_RED
        + esc::FG_CRIMSON
        + esc::FG_FIREBRICK
        + esc::FG_DARK_RED
        + esc::FG_RED_RGB
        + esc::FG_ORANGE_RED
        + esc::FG_TOMATO
        + esc::FG_CORAL
        + esc::FG_DARK_ORANGE
        + esc::FG_ORANGE
        + esc::FG_YELLOW_RGB
        + esc::FG_LIGHT_YELLOW
        + esc::FG_LEMON_CHIFFON
        + esc::FG_LIGHT_GOLDENROD_YELLOW
        + esc::FG_PAPAYA_WHIP
        + esc::FG_MOCCASIN
        + esc::FG_PEACH_PUFF
        + esc::FG_PALE_GOLDENROD
        + esc::FG_KHAKI
        + esc::FG_DARK_KHAKI
        + esc::FG_GOLD
        + esc::FG_CORNSILK
        + esc::FG_BLANCHED_ALMOND
        + esc::FG_BISQUE
        + esc::FG_NAVAJO_WHITE
        + esc::FG_WHEAT
        + esc::FG_BURLYWOOD
        + esc::FG_TAN
        + esc::FG_ROSY_BROWN
        + esc::FG_SANDY_BROWN
        + esc::FG_GOLDENROD
        + esc::FG_DARK_GOLDENROD
        + esc::FG_PERU
        + esc::FG_CHOCOLATE
        + esc::FG_SADDLE_BROWN
        + esc::FG_SIENNA
        + esc::FG_BROWN
        + esc::FG_MAROON
        + esc::FG_DARK_OLIVE_GREEN
        + esc::FG_OLIVE
        + esc::FG_OLIVE_DRAB
        + esc::FG_YELLOW_GREEN
        + esc::FG_LIME_GREEN
        + esc::FG_LIME
        + esc::FG_LAWN_GREEN
        + esc::FG_CHARTREUSE
        + esc::FG_GREEN_YELLOW
        + esc::FG_SPRING_GREEN
        + esc::FG_MEDIUM_SPRING_GREEN
        + esc::FG_LIGHT_GREEN
        + esc::FG_PALE_GREEN
        + esc::FG_DARK_SEA_GREEN
        + esc::FG_MEDIUM_AQUAMARINE
        + esc::FG_MEDIUM_SEA_GREEN
        + esc::FG_SEA_GREEN
        + esc::FG_FOREST_GREEN
        + esc::FG_GREEN_RGB
        + esc::FG_DARK_GREEN
        + esc::FG_AQUA
        + esc::FG_CYAN_RGB
        + esc::FG_LIGHT_CYAN
        + esc::FG_PALE_TURQUOISE
        + esc::FG_AQUAMARINE
        + esc::FG_TURQUOISE
        + esc::FG_MEDIUM_TURQUOISE
        + esc::FG_DARK_TURQUOISE
        + esc::FG_LIGHT_SEA_GREEN
        + esc::FG_CADET_BLUE
        + esc::FG_DARK_CYAN
        + esc::FG_TEAL
        + esc::FG_LIGHT_STEEL_BLUE
        + esc::FG_POWDER_BLUE
        + esc::FG_LIGHT_BLUE
        + esc::FG_SKY_BLUE
        + esc::FG_LIGHT_SKY_BLUE
        + esc::FG_DEEP_SKY_BLUE
        + esc::FG_DODGER_BLUE
        + esc::FG_CORNFLOWER_BLUE
        + esc::FG_STEEL_BLUE
        + esc::FG_ROYAL_BLUE
        + esc::FG_BLUE_RGB
        + esc::FG_MEDIUM_BLUE
        + esc::FG_DARK_BLUE
        + esc::FG_NAVY
        + esc::FG_MIDNIGHT_BLUE
        + esc::FG_LAVENDER
        + esc::FG_THISTLE
        + esc::FG_PLUM
        + esc::FG_VIOLET
        + esc::FG_ORCHID
        + esc::FG_FUCHSIA
        + esc::FG_MAGENTA_RGB
        + esc::FG_MEDIUM_ORCHID
        + esc::FG_MEDIUM_PURPLE
        + esc::FG_BLUE_VIOLET
        + esc::FG_DARK_VIOLET
        + esc::FG_DARK_ORCHID
        + esc::FG_DARK_MAGENTA
        + esc::FG_PURPLE
        + esc::FG_INDIGO
        + esc::FG_DARK_SLATE_BLUE
        + esc::FG_SLATE_BLUE
        + esc::FG_MEDIUM_SLATE_BLUE
        + esc::FG_GAINSBORO
        + esc::FG_LIGHT_GRAY
        + esc::FG_SILVER
        + esc::FG_DARK_GRAY
        + esc::FG_GRAY
        + esc::FG_DIM_GRAY
        + esc::FG_LIGHT_SLATE_GRAY
        + esc::FG_SLATE_GRAY
        + esc::FG_DARK_SLATE_GRAY
        + esc::FG_BLACK_RGB;

    assert_eq!(count_esc(&s), 140);
}

/// Check if all constants are available
#[test]
fn colors_bg() {
    let s = String::new()
        + esc::BG_BLACK
        + esc::BG_BLACK_INTENSE
        + esc::BG_RED
        + esc::BG_RED_INTENSE
        + esc::BG_GREEN
        + esc::BG_GREEN_INTENSE
        + esc::BG_YELLOW
        + esc::BG_YELLOW_INTENSE
        + esc::BG_BLUE
        + esc::BG_BLUE_INTENSE
        + esc::BG_MAGENTA
        + esc::BG_MAGENTA_INTENSE
        + esc::BG_CYAN
        + esc::BG_CYAN_INTENSE
        + esc::BG_WHITE
        + esc::BG_WHITE_INTENSE
        + esc::BG_DEFAULT
        + esc::BG_PINK
        + esc::BG_LIGHT_PINK
        + esc::BG_HOT_PINK
        + esc::BG_DEEP_PINK
        + esc::BG_PALE_VIOLET_RED
        + esc::BG_MEDIUM_VIOLET_RED
        + esc::BG_LIGHT_SALMON
        + esc::BG_SALMON
        + esc::BG_DARK_SALMON
        + esc::BG_LIGHT_CORAL
        + esc::BG_INDIAN_RED
        + esc::BG_CRIMSON
        + esc::BG_FIREBRICK
        + esc::BG_DARK_RED
        + esc::BG_RED_RGB
        + esc::BG_ORANGE_RED
        + esc::BG_TOMATO
        + esc::BG_CORAL
        + esc::BG_DARK_ORANGE
        + esc::BG_ORANGE
        + esc::BG_YELLOW_RGB
        + esc::BG_LIGHT_YELLOW
        + esc::BG_LEMON_CHIFFON
        + esc::BG_LIGHT_GOLDENROD_YELLOW
        + esc::BG_PAPAYA_WHIP
        + esc::BG_MOCCASIN
        + esc::BG_PEACH_PUFF
        + esc::BG_PALE_GOLDENROD
        + esc::BG_KHAKI
        + esc::BG_DARK_KHAKI
        + esc::BG_GOLD
        + esc::BG_CORNSILK
        + esc::BG_BLANCHED_ALMOND
        + esc::BG_BISQUE
        + esc::BG_NAVAJO_WHITE
        + esc::BG_WHEAT
        + esc::BG_BURLYWOOD
        + esc::BG_TAN
        + esc::BG_ROSY_BROWN
        + esc::BG_SANDY_BROWN
        + esc::BG_GOLDENROD
        + esc::BG_DARK_GOLDENROD
        + esc::BG_PERU
        + esc::BG_CHOCOLATE
        + esc::BG_SADDLE_BROWN
        + esc::BG_SIENNA
        + esc::BG_BROWN
        + esc::BG_MAROON
        + esc::BG_DARK_OLIVE_GREEN
        + esc::BG_OLIVE
        + esc::BG_OLIVE_DRAB
        + esc::BG_YELLOW_GREEN
        + esc::BG_LIME_GREEN
        + esc::BG_LIME
        + esc::BG_LAWN_GREEN
        + esc::BG_CHARTREUSE
        + esc::BG_GREEN_YELLOW
        + esc::BG_SPRING_GREEN
        + esc::BG_MEDIUM_SPRING_GREEN
        + esc::BG_LIGHT_GREEN
        + esc::BG_PALE_GREEN
        + esc::BG_DARK_SEA_GREEN
        + esc::BG_MEDIUM_AQUAMARINE
        + esc::BG_MEDIUM_SEA_GREEN
        + esc::BG_SEA_GREEN
        + esc::BG_FOREST_GREEN
        + esc::BG_GREEN_RGB
        + esc::BG_DARK_GREEN
        + esc::BG_AQUA
        + esc::BG_CYAN_RGB
        + esc::BG_LIGHT_CYAN
        + esc::BG_PALE_TURQUOISE
        + esc::BG_AQUAMARINE
        + esc::BG_TURQUOISE
        + esc::BG_MEDIUM_TURQUOISE
        + esc::BG_DARK_TURQUOISE
        + esc::BG_LIGHT_SEA_GREEN
        + esc::BG_CADET_BLUE
        + esc::BG_DARK_CYAN
        + esc::BG_TEAL
        + esc::BG_LIGHT_STEEL_BLUE
        + esc::BG_POWDER_BLUE
        + esc::BG_LIGHT_BLUE
        + esc::BG_SKY_BLUE
        + esc::BG_LIGHT_SKY_BLUE
        + esc::BG_DEEP_SKY_BLUE
        + esc::BG_DODGER_BLUE
        + esc::BG_CORNFLOWER_BLUE
        + esc::BG_STEEL_BLUE
        + esc::BG_ROYAL_BLUE
        + esc::BG_BLUE_RGB
        + esc::BG_MEDIUM_BLUE
        + esc::BG_DARK_BLUE
        + esc::BG_NAVY
        + esc::BG_MIDNIGHT_BLUE
        + esc::BG_LAVENDER
        + esc::BG_THISTLE
        + esc::BG_PLUM
        + esc::BG_VIOLET
        + esc::BG_ORCHID
        + esc::BG_FUCHSIA
        + esc::BG_MAGENTA_RGB
        + esc::BG_MEDIUM_ORCHID
        + esc::BG_MEDIUM_PURPLE
        + esc::BG_BLUE_VIOLET
        + esc::BG_DARK_VIOLET
        + esc::BG_DARK_ORCHID
        + esc::BG_DARK_MAGENTA
        + esc::BG_PURPLE
        + esc::BG_INDIGO
        + esc::BG_DARK_SLATE_BLUE
        + esc::BG_SLATE_BLUE
        + esc::BG_MEDIUM_SLATE_BLUE
        + esc::BG_GAINSBORO
        + esc::BG_LIGHT_GRAY
        + esc::BG_SILVER
        + esc::BG_DARK_GRAY
        + esc::BG_GRAY
        + esc::BG_DIM_GRAY
        + esc::BG_LIGHT_SLATE_GRAY
        + esc::BG_SLATE_GRAY
        + esc::BG_DARK_SLATE_GRAY
        + esc::BG_BLACK_RGB;

    assert_eq!(count_esc(&s), 140);
}

/// Check cursor navigation
#[test]
fn cursor_move() {
    let s = String::new()
        + &rtwins::esc::cursor_backward(1)
        + &rtwins::esc::cursor_forward(1)
        + &rtwins::esc::cursor_up(1)
        + &rtwins::esc::cursor_down(1)
        + &rtwins::esc::cursor_column(45)
        + &rtwins::esc::cursor_goto(3, 14);

    assert_eq!(count_esc(&s), 6);
}

/// Check lines manipulation
#[test]
fn line_insert_delete() {
    let s = String::new()
        + &rtwins::esc::line_insert(1)
        + &rtwins::esc::line_delete(1);

    assert_eq!(count_esc(&s), 2);
}

/// Check character manipulation
#[test]
fn character_erase_insert() {
    let s = String::new()
        + &rtwins::esc::char_repeat_last(1)
        + &rtwins::esc::char_erase(1)
        + &rtwins::esc::char_delete(1)
        + &rtwins::esc::char_insert(1);

    assert_eq!(count_esc(&s), 4);
}

/// Check screen manipulation
#[test]
fn screen_scroll() {
    let s = String::new()
        + &rtwins::esc::screen_scroll_up(1)
        + &rtwins::esc::screen_scroll_down(1);

    assert_eq!(count_esc(&s), 2);
}

#[test]
fn link_url() {
    let s = String::new() + &rtwins::esc::url_link("https://github.com/marmidr/rtwins", "RTWins");

    assert!(s.len() > 0);
}
