// Colours are a switch of the whole process: every test here turns them on.
use colored::{Color, Styles};
use mochi_scheduler::utils::pretty_table::style::{
    print_with_style, with_style, FrameStyle, HeaderStyle, TextAlignment, TextStyle,
};
use mochi_scheduler::utils::pretty_table::Table;

fn printed(text: &str, style: &TextStyle, width: usize, alignment: TextAlignment) -> String {
    print_with_style(text, style, width, alignment)
}

fn red() -> TextStyle {
    let mut style = TextStyle::default();
    style.set_color(Color::Red);
    style
}

#[test]
fn colours_are_written_as_escape_sequences() {
    colored::control::set_override(true);
    let plain = TextStyle::default();
    assert_eq!(printed("x", &plain, 0, TextAlignment::Left), "x");
    assert_eq!(printed("x", &red(), 0, TextAlignment::Left), "\u{1b}[31mx\u{1b}[0m");
    let mut bold = red();
    bold.add_style(Styles::Bold);
    assert_eq!(printed("x", &bold, 0, TextAlignment::Left), "\u{1b}[1;31mx\u{1b}[0m");
    let mut t = Table::new();
    t.set_header(vec!["h"]).add_row(vec!["x".to_string()]);
    let out = t.to_string();
    assert!(out.starts_with("\u{1b}[90m╭\u{1b}[0m"));
    assert!(out.contains(" \u{1b}[95mh\u{1b}[0m "));
    assert!(out.contains(" x "));
    t.set_frame_style(FrameStyle::default())
        .set_header_style(HeaderStyle::default())
        .set_text_style(TextStyle::default());
    assert_eq!(t.to_string(), t.to_plain_string());
}

#[test]
fn a_text_keeps_its_style() {
    colored::control::set_override(true);
    let copied = with_style("x", &red());
    assert_eq!(copied.input, "x");
    assert_eq!((copied.fgcolor, copied.bgcolor), (Some(Color::Red), None));
}

#[test]
fn spaces_stand_inside_the_colours() {
    colored::control::set_override(true);
    assert_eq!(printed("ab", &red(), 5, TextAlignment::Left), "\u{1b}[31mab   \u{1b}[0m");
    assert_eq!(printed("ab", &red(), 5, TextAlignment::Center), "\u{1b}[31m ab  \u{1b}[0m");
    assert_eq!(printed("ab", &red(), 5, TextAlignment::Right), "\u{1b}[31m   ab\u{1b}[0m");
    assert_eq!(printed("ab", &red(), 1, TextAlignment::Right), "\u{1b}[31mab\u{1b}[0m");
    let plain = TextStyle::default();
    assert_eq!(printed("ab", &plain, 5, TextAlignment::Center), " ab  ");
}

#[test]
fn a_reset_sequence_in_the_text_sets_the_look_again() {
    colored::control::set_override(true);
    assert_eq!(
        printed("a\u{1b}[0mb\u{1b}[0m", &red(), 0, TextAlignment::Left),
        "\u{1b}[31ma\u{1b}[0m\u{1b}[31mb\u{1b}[0m\u{1b}[31m\u{1b}[0m"
    );
    // Without a look there is nothing to set again.
    let plain = TextStyle::default();
    assert_eq!(printed("a\u{1b}[0mb", &plain, 0, TextAlignment::Left), "a\u{1b}[0mb");
    // The spaces are counted once the look is set again.
    assert_eq!(
        printed("a\u{1b}[0mb", &red(), 14, TextAlignment::Right),
        "\u{1b}[31m   a\u{1b}[0m\u{1b}[31mb\u{1b}[0m"
    );
}

#[test]
fn a_header_with_a_reset_sequence_is_padded_as_it_is_printed() {
    colored::control::set_override(true);
    let mut t = Table::new();
    t.set_header(vec!["a\u{1b}[0mb"]).add_row(vec!["01234567890123456789".to_string()]);
    let out = t.to_string();
    assert!(out.contains(" \u{1b}[95m    a\u{1b}[0m\u{1b}[95mb     \u{1b}[0m "), "{out:?}");
    assert!(out.contains(" 01234567890123456789 "));
    // Without colours the header counts as it stands.
    assert!(t.to_plain_string().contains("        a\u{1b}[0mb        "));
}

#[test]
fn a_very_wide_column_is_padded_too() {
    colored::control::set_override(true);
    let out = printed("ab", &red(), 70_000, TextAlignment::Right);
    assert_eq!(out, format!("\u{1b}[31m{}ab\u{1b}[0m", " ".repeat(69_998)));
    let edge = printed("ab", &red(), 65_535, TextAlignment::Left);
    assert_eq!(edge, format!("\u{1b}[31mab{}\u{1b}[0m", " ".repeat(65_533)));
}
