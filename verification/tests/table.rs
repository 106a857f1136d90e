use colored::{Color, Style, Styles};
use mochi_scheduler::utils::pretty_table::cell::{fit_cell, pad_cell, wrap_cell};
use mochi_scheduler::utils::pretty_table::style::{
    FrameCorner, FrameLine, FrameStyle, HeaderStyle, StringStyle, TextAlignment, TextStyle,
};
use mochi_scheduler::utils::pretty_table::table::MIN_FLEX_WIDTH;
use mochi_scheduler::utils::pretty_table::Table;

const ELLIPSIS: &str = "...";

#[test]
fn fit_cell_keeps_short_strings_and_truncates_long_ones() {
    assert_eq!(fit_cell("short", 10), "short");
    assert_eq!(fit_cell("hello world", 8), "hello...");
    assert_eq!(fit_cell("hello world", 8).chars().count(), 8);
    // Widths too small for the ellipsis just hard-cut.
    assert_eq!(fit_cell("hello", 2), "he");
}

#[test]
fn shrink_flex_reduces_only_the_flex_column_to_fit() {
    let mut t = Table::new();
    t.fit_to_width(20, 1);
    // natural: col0=3, col1=40; overhead = 2*2 + 3 = 7
    // target for col1 = 20 - 7 - 3 = 10
    let mut lens = vec![3, 40];
    t.shrink_flex_column(&mut lens);
    assert_eq!(lens, vec![3, 10]);
}

#[test]
fn shrink_flex_floors_at_minimum_and_accepts_overflow() {
    let mut t = Table::new();
    t.fit_to_width(5, 1);
    let mut lens = vec![3, 40];
    t.shrink_flex_column(&mut lens);
    assert_eq!(lens[1], MIN_FLEX_WIDTH);
}

#[test]
fn shrink_flex_noop_when_it_already_fits() {
    let mut t = Table::new();
    t.fit_to_width(100, 1);
    let mut lens = vec![3, 40];
    t.shrink_flex_column(&mut lens);
    assert_eq!(lens, vec![3, 40]);
}

#[test]
fn wrap_cell_chunks_by_width() {
    assert_eq!(wrap_cell("short", 10), vec!["short".to_string()]);
    assert_eq!(
        wrap_cell("abcdefg", 3),
        vec!["abc".to_string(), "def".to_string(), "g".to_string()]
    );
    // Degenerate widths and empty input still yield one line.
    assert_eq!(wrap_cell("", 5), vec!["".to_string()]);
    assert_eq!(wrap_cell("abc", 0), vec!["abc".to_string()]);
}

#[test]
fn wrapped_table_stays_within_width_and_keeps_full_text() {
    colored::control::set_override(false); // deterministic: no ANSI in assertions
    let mut t = Table::new();
    t.set_header(vec!["key", "value"]).add_row(vec![
        "command".to_string(),
        "a-very-long-command-line-that-overflows-the-width".to_string(),
    ]);
    t.wrap_to_width(30, 1);

    let out = t.to_string();
    for line in out.lines() {
        assert!(
            line.chars().count() <= 30,
            "line too wide ({}): {line:?}",
            line.chars().count()
        );
    }
    // Nothing is dropped: stripping the frame/padding recovers every chunk.
    assert!(!out.contains(ELLIPSIS), "wrap mode must not truncate:\n{out}");
    let joined: String = out
        .lines()
        .filter(|l| l.contains('│'))
        .flat_map(|l| l.split('│'))
        .map(str::trim)
        .collect::<Vec<_>>()
        .join("");
    assert!(
        joined.contains("a-very-long-command-line-that-overflows-the-width"),
        "expected the full value to survive wrapping:\n{out}"
    );
}

#[test]
fn rendered_table_stays_within_max_width() {
    colored::control::set_override(false); // deterministic: no ANSI in assertions
    let mut t = Table::new();
    t.set_header(vec!["id", "command"]).add_row(vec![
        "1".to_string(),
        "a-very-long-command-line-that-overflows".to_string(),
    ]);
    t.fit_to_width(20, 1);

    let out = t.to_string();
    for line in out.lines() {
        assert!(
            line.chars().count() <= 20,
            "line too wide ({}): {line:?}",
            line.chars().count()
        );
    }
    assert!(out.contains("..."), "expected a truncated cell:\n{out}");
}

// ---------------------------------------------------------------------------
// Further cases
// ---------------------------------------------------------------------------

fn row(cells: &[&str]) -> Vec<String> {
    cells.iter().map(|s| s.to_string()).collect()
}

#[test]
fn cells_are_padded_to_the_width() {
    assert_eq!(pad_cell("ab", 5, TextAlignment::Left), "ab   ");
    assert_eq!(pad_cell("ab", 5, TextAlignment::Right), "   ab");
    assert_eq!(pad_cell("ab", 5, TextAlignment::Center), " ab  ");
    assert_eq!(pad_cell("abc", 2, TextAlignment::Center), "abc");
}

#[test]
fn cutting_counts_characters() {
    assert_eq!(fit_cell("äöüßé", 5), "äöüßé");
    assert_eq!(fit_cell("äöüßéà", 5), "äö...");
    assert_eq!(fit_cell("abcdef", 3), "abc");
    assert_eq!(fit_cell("abcdef", 0), "");
    assert_eq!(wrap_cell("äöü", 2), vec!["äö".to_string(), "ü".to_string()]);
}

#[test]
fn a_table_prints_line_by_line() {
    let mut t = Table::new();
    t.set_header(vec!["a", "b"]).add_rows(vec![row(&["1", "xyz"]), row(&["22", ""])]);
    t.right_align_column(0);
    let expected = "\
╭────┬─────╮
│ a  │  b  │
├────┼─────┤
│  1 │ xyz │
│ 22 │     │
├────┼─────┤
│ a  │  b  │
╰────┴─────╯
";
    assert_eq!(t.to_plain_string(), expected);
    colored::control::set_override(false);
    assert_eq!(t.to_string(), expected);
}

#[test]
fn a_table_without_rows_prints_nothing() {
    let mut t = Table::new();
    t.set_header(vec!["a"]);
    assert_eq!(t.to_string(), "");
    assert_eq!(t.n_columns(), None);
    assert_eq!(t.column(3), None);
    assert_eq!(t.column_lens(), None);
    assert!(t.lines().is_empty());
}

#[test]
fn folded_rows_are_as_tall_as_their_tallest_cell() {
    let mut t = Table::new();
    t.set_header(vec!["k", "v"]).add_row(row(&["key", "abcdefghijklmnopqrs"]));
    t.wrap_to_width(18, 1);
    let expected = "\
╭─────┬──────────╮
│  k  │    v     │
├─────┼──────────┤
│ key │ abcdefgh │
│     │ ijklmnop │
│     │ qrs      │
├─────┼──────────┤
│  k  │    v     │
╰─────┴──────────╯
";
    assert_eq!(t.to_plain_string(), expected);
}

#[test]
fn columns_can_be_read_back() {
    let mut t = Table::new();
    t.set_header(vec!["a", "longer"]).add_rows(vec![row(&["1", "x"]), row(&["22", "yé"])]);
    assert_eq!(t.n_columns(), Some(2));
    assert_eq!(t.column(1), Some(vec!["x", "yé"]));
    assert_eq!(t.column_lens(), Some(vec![2, 6]));
    // Widths are those of the bytes.
    let mut t = Table::new();
    t.set_header(vec!["a"]).add_row(row(&["é"]));
    assert_eq!(t.column_lens(), Some(vec![2]));
}

#[test]
fn rows_can_be_added_on_condition() {
    let mut t = Table::new();
    t.add_row_if(|n| n == 0, |n| vec![format!("row {n}")]);
    t.add_row_if(|n| n == 0, |n| vec![format!("row {n}")]);
    assert_eq!(t.column(0), Some(vec!["row 0"]));
}

#[test]
fn shrinking_needs_a_width_and_a_column() {
    let mut lens = vec![3, 40];
    Table::new().shrink_flex_column(&mut lens);
    assert_eq!(lens, vec![3, 40]);
    let mut t = Table::new();
    t.fit_to_width(10, 2);
    t.shrink_flex_column(&mut lens);
    assert_eq!(lens, vec![3, 40]);
    // A column below the smallest width is not grown.
    t.fit_to_width(10, 0);
    t.shrink_flex_column(&mut lens);
    assert_eq!(lens, vec![3, 40]);
    // Widths that add up to more than a machine word are fine.
    let mut lens = vec![usize::MAX, usize::MAX];
    t.shrink_flex_column(&mut lens);
    assert_eq!(lens, vec![MIN_FLEX_WIDTH, usize::MAX]);
}

#[test]
fn frames_come_in_four_styles() {
    let draw = |corner: FrameCorner| {
        let mut t = Table::new();
        t.set_header(vec!["h"]).add_row(row(&["x"]));
        t.set_frame_corner(corner);
        t.to_plain_string()
    };
    assert_eq!(draw(FrameCorner::Rounded), "╭───╮\n│ h │\n├───┤\n│ x │\n├───┤\n│ h │\n╰───╯\n");
    assert_eq!(draw(FrameCorner::Normal), "┌───┐\n│ h │\n├───┤\n│ x │\n├───┤\n│ h │\n└───┘\n");
    assert_eq!(draw(FrameCorner::Double), "╔═══╗\n║ h ║\n╠═══╣\n║ x ║\n╠═══╣\n║ h ║\n╚═══╝\n");
    assert_eq!(draw(FrameCorner::Thick), "┏━━━┓\n┃ h ┃\n┣━━━┫\n┃ x ┃\n┣━━━┫\n┃ h ┃\n┗━━━┛\n");
}

#[test]
fn glyphs_between_columns() {
    assert_eq!(FrameLine::Normal.top_down(), "┬");
    assert_eq!(FrameLine::Double.top_down(), "╤");
    assert_eq!(FrameLine::Thick.top_down(), "┳");
    assert_eq!(FrameLine::Normal.bottom_up(), "┴");
    assert_eq!(FrameLine::Double.bottom_up(), "╧");
    assert_eq!(FrameLine::Thick.bottom_up(), "┻");
    assert_eq!(FrameLine::Normal.cross(), "┼");
    assert_eq!(FrameLine::Double.cross(), "╬");
    assert_eq!(FrameLine::Thick.cross(), "╋");
}

#[test]
fn corners_and_lines_always_meet() {
    let mut f = FrameStyle::default();
    assert_eq!((*f.get_frame_corner(), *f.get_frame_line()), (FrameCorner::Rounded, FrameLine::Normal));
    f.set_frame_line(FrameLine::Double);
    assert_eq!(*f.get_frame_corner(), FrameCorner::Double);
    f.set_frame_corner(FrameCorner::Thick);
    assert_eq!(*f.get_frame_line(), FrameLine::Thick);
    f.set_frame_line(FrameLine::Normal);
    assert_eq!(*f.get_frame_corner(), FrameCorner::Rounded);
    f.set_frame_corner(FrameCorner::Normal).set_frame_line(FrameLine::Normal);
    assert_eq!(*f.get_frame_corner(), FrameCorner::Normal);
    let mut t = Table::new();
    t.set_header(vec!["h"]).add_row(row(&["x"])).set_frame_line(FrameLine::Thick);
    assert!(t.to_plain_string().starts_with("┏━━━┓\n"));
}

#[test]
fn styles_remember_their_colours_and_switches() {
    let mut h = HeaderStyle::default();
    assert_eq!(h.get_fgcolor(), None);
    h.set_color(Color::Red).set_bg(Color::Blue).add_style(Styles::Bold).add_style(Styles::Italic);
    assert_eq!(h.get_fgcolor(), Some(Color::Red));
    assert_eq!(h.get_bgcolor(), Some(Color::Blue));
    assert!(h.get_style().contains(Styles::Bold));
    assert!(h.get_style().contains(Styles::Italic));
    assert!(!h.get_style().contains(Styles::Dimmed));
    h.set_style(Style::default());
    assert!(!h.get_style().contains(Styles::Bold));
    let mut t = TextStyle::default();
    t.set_color(Color::Green).add_style(Styles::Underline);
    assert!(t.get_style().contains(Styles::Underline));
    let mut f = FrameStyle::default();
    f.set_bg(Color::White).add_style(Styles::Bold).set_color(Color::Cyan);
    assert_eq!((f.get_fgcolor(), f.get_bgcolor()), (Some(Color::Cyan), Some(Color::White)));
    assert!(f.get_style().contains(Styles::Bold));
}
