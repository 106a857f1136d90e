//! How the parts of a table look.
use colored::{Color, ColoredString, Style, Styles};
use vstd::prelude::*;

use super::cell;
use super::cell::pad_cell;

pub mod frame_style;
pub mod header_style;
pub mod text_style;

pub use frame_style::{FrameCorner, FrameLine, FrameStyle};
pub use header_style::HeaderStyle;
pub use text_style::{TextAlignment, TextStyle};

verus! {

/// `colored::Color`, with its variants.
#[verifier::external_type_specification]
pub struct ExColor(colored::Color);

/// `colored::Styles`, with its variants.
#[verifier::external_type_specification]
pub struct ExStyles(colored::Styles);

/// `colored::Style`, a set of switches.
#[verifier::external_type_specification]
#[verifier::external_body]
pub struct ExStyle(colored::Style);

/// `colored::ColoredString`, with its fields.
#[verifier::external_type_specification]
pub struct ExColoredString(colored::ColoredString);

/// What `colored::Style::contains` says of a style and a switch.
pub uninterp spec fn style_has(style: Style, switch: Styles) -> bool;

/// The switches of a style.
pub open spec fn switches(style: Style) -> Set<Styles> {
    Set::new(|s: Styles| style_has(style, s))
}

/// `colored::Style::add` turns one more switch on and leaves the others.
pub assume_specification[ colored::Style::add ](one: &mut Style, two: Styles)
    ensures
        forall|s: Styles| #[trigger]
            style_has(*final(one), s) == (style_has(*old(one), s) || s == two),
;

/// The default `colored::Style` has no switch on; `contains` says yes to
/// `Styles::Clear` alone, which stands for no switch at all.
pub assume_specification[ <colored::Style as Default>::default ]() -> (r: Style)
    ensures
        forall|s: Styles| #[trigger] style_has(r, s) == (s == Styles::Clear),
;

/// The default `colored::ColoredString` holds an empty text without colours, in the
/// default style.
pub assume_specification[ <colored::ColoredString as Default>::default ]() -> (r: ColoredString)
    ensures
        r.input@ == Seq::<char>::empty(),
        r.fgcolor is None,
        r.bgcolor is None,
        forall|s: Styles| #[trigger] style_has(r.style, s) == (s == Styles::Clear),
;

/// The colours and switches that some text is printed with.
pub trait StringStyle {
    spec fn fg(&self) -> Option<Color>;

    spec fn bg(&self) -> Option<Color>;

    spec fn text_style(&self) -> Style;

    fn get_fgcolor(&self) -> (r: Option<Color>)
        ensures
            r == self.fg(),
    ;

    fn get_bgcolor(&self) -> (r: Option<Color>)
        ensures
            r == self.bg(),
    ;

    fn get_style(&self) -> (r: Style)
        ensures
            r == self.text_style(),
    ;
}

/// Neither colours nor switches.
pub open spec fn plain(fg: Option<Color>, bg: Option<Color>, style: Style) -> bool {
    fg is None && bg is None && forall|s: Styles| #[trigger] style_has(style, s) == (s
        == Styles::Clear)
}

/// Whether a colour looks the same in every process. A true colour does not:
/// the environment decides how it is written.
pub open spec fn fixed_colour(colour: Option<Color>) -> bool {
    match colour {
        Some(Color::TrueColor { .. }) => false,
        _ => true,
    }
}

/// The escape sequence that `colored` writes in front of text with these
/// colours and switches, while colours are on and the colours are fixed ones.
pub uninterp spec fn escape_prefix(
    fg: Option<Color>,
    bg: Option<Color>,
    switches: Set<Styles>,
) -> Seq<char>;

/// The escape sequence that ends all colours and switches.
pub open spec fn reset_sequence() -> Seq<char> {
    seq!['\u{1b}', '[', '0', 'm']
}

/// Whether `part` stands somewhere in `s`.
pub open spec fn occurs_in(s: Seq<char>, part: Seq<char>) -> bool {
    exists|i: int|
        0 <= i && i + part.len() <= s.len() && #[trigger] s.subrange(i, i + part.len()) == part
}

/// A text with an escape sequence put behind each reset sequence in it.
pub open spec fn restyled(s: Seq<char>, prefix: Seq<char>) -> Seq<char>
    decreases s.len(),
{
    if s.len() < reset_sequence().len() {
        s
    } else if s.take(4) == reset_sequence() {
        reset_sequence() + prefix + restyled(s.skip(4), prefix)
    } else {
        seq![s[0]] + restyled(s.skip(1), prefix)
    }
}

/// A text in colours: the escape sequence `first`, the padded text, in which
/// `again` stands behind each reset sequence, and a reset sequence.
pub open spec fn coloured(
    text: Seq<char>,
    width: nat,
    alignment: TextAlignment,
    first: Seq<char>,
    again: Seq<char>,
) -> Seq<char> {
    first + cell::padded(restyled(text, again), width, alignment) + reset_sequence()
}

/// What may be printed for some text: the padded text, or the text in colours.
/// With fixed colours, each of the two escape sequences is `prefix`, or empty.
pub open spec fn printed(
    text: Seq<char>,
    fg: Option<Color>,
    bg: Option<Color>,
    style: Style,
    width: nat,
    alignment: TextAlignment,
    prefix: Seq<char>,
    out: Seq<char>,
) -> bool {
    ||| out == cell::padded(text, width, alignment)
    ||| !plain(fg, bg, style) && exists|first: Seq<char>, again: Seq<char>|
        out == #[trigger] coloured(text, width, alignment, first, again) && (fixed_colour(fg)
            && fixed_colour(bg) ==> (first == prefix || first.len() == 0) && (again == prefix
            || again.len() == 0))
}

/// Prints a `colored::ColoredString` with the format `<`.
///
/// Whether colours are on is decided by the process: by `colored::control`, the
/// environment, and whether standard output is a terminal. With colours off, or
/// with neither colours nor switches, the padded text comes out. Otherwise the
/// escape sequence for the look stands in front, and again behind each reset
/// sequence in the text; the text is then padded by spaces behind it, and a reset
/// sequence ends it.
/// `colored` asks anew for each escape sequence whether colours are on, so either
/// is empty where they are switched off in between. A format takes widths up to
/// 65535.
#[verifier::external_body]
fn print_left(c: &ColoredString, width: usize) -> (r: String)
    requires
        width <= 65_535,
    ensures
        printed(
            c.input@,
            c.fgcolor,
            c.bgcolor,
            c.style,
            width as nat,
            TextAlignment::Left,
            escape_prefix(c.fgcolor, c.bgcolor, switches(c.style)),
            r@,
        ),
{
    format!("{c:<width$}")
}

/// Prints a `colored::ColoredString` with the format `^`: as `print_left` does, but
/// the spaces are shared out around the text, and an odd one stands behind it.
#[verifier::external_body]
fn print_centred(c: &ColoredString, width: usize) -> (r: String)
    requires
        width <= 65_535,
    ensures
        printed(
            c.input@,
            c.fgcolor,
            c.bgcolor,
            c.style,
            width as nat,
            TextAlignment::Center,
            escape_prefix(c.fgcolor, c.bgcolor, switches(c.style)),
            r@,
        ),
{
    format!("{c:^width$}")
}

/// Prints a `colored::ColoredString` with the format `>`: as `print_left` does, but
/// the spaces stand in front of the text.
#[verifier::external_body]
fn print_right(c: &ColoredString, width: usize) -> (r: String)
    requires
        width <= 65_535,
    ensures
        printed(
            c.input@,
            c.fgcolor,
            c.bgcolor,
            c.style,
            width as nat,
            TextAlignment::Right,
            escape_prefix(c.fgcolor, c.bgcolor, switches(c.style)),
            r@,
        ),
{
    format!("{c:>width$}")
}

/// What may be printed for some text in a style and padded to a width. Beyond
/// the widest width of a format, the text is padded before it is coloured.
pub open spec fn printed_in(
    text: Seq<char>,
    fg: Option<Color>,
    bg: Option<Color>,
    style: Style,
    width: nat,
    alignment: TextAlignment,
    out: Seq<char>,
) -> bool {
    let prefix = escape_prefix(fg, bg, switches(style));
    if width <= 65_535 {
        printed(text, fg, bg, style, width, alignment, prefix, out)
    } else {
        let wide = cell::padded(text, width, alignment);
        printed(wide, fg, bg, style, 0, TextAlignment::Left, prefix, out)
    }
}

/// A text with a style.
pub fn with_style<T: StringStyle>(text: &str, style: &T) -> (r: ColoredString)
    ensures
        r.input@ == text@,
        r.fgcolor == style.fg(),
        r.bgcolor == style.bg(),
        r.style == style.text_style(),
{
    let mut copied = ColoredString::default();
    copied.input = text.to_owned();
    copied.fgcolor = style.get_fgcolor();
    copied.bgcolor = style.get_bgcolor();
    copied.style = style.get_style();
    copied
}

/// A text as it is printed with a style and padded to a width.
pub fn print_with_style<T: StringStyle>(
    text: &str,
    style: &T,
    width: usize,
    alignment: TextAlignment,
) -> (r: String)
    ensures
        printed_in(
            text@,
            style.fg(),
            style.bg(),
            style.text_style(),
            width as nat,
            alignment,
            r@,
        ),
{
    if width <= 65_535 {
        let copied = with_style(text, style);
        match alignment {
            TextAlignment::Left => print_left(&copied, width),
            TextAlignment::Center => print_centred(&copied, width),
            TextAlignment::Right => print_right(&copied, width),
        }
    } else {
        let wide = pad_cell(text, width, alignment);
        print_left(&with_style(wide.as_str(), style), 0)
    }
}

/// A text that holds no reset sequence stands unchanged between the escape
/// sequence for its look and the reset sequence.
pub proof fn law_only_reset_sequences_are_restyled(s: Seq<char>, prefix: Seq<char>)
    requires
        !occurs_in(s, reset_sequence()),
    ensures
        restyled(s, prefix) == s,
    decreases s.len(),
{
    if s.len() >= 4 {
        assert(s.subrange(0, 0int + reset_sequence().len()) == s.take(4));
        let rest = s.skip(1);
        assert(!occurs_in(rest, reset_sequence())) by {
            if occurs_in(rest, reset_sequence()) {
                let i = choose|i: int|
                    0 <= i && i + reset_sequence().len() <= rest.len() && #[trigger] rest.subrange(
                        i,
                        i + reset_sequence().len(),
                    ) == reset_sequence();
                assert(s.subrange(i + 1, i + 1 + reset_sequence().len()) == rest.subrange(
                    i,
                    i + reset_sequence().len(),
                ));
            }
        }
        law_only_reset_sequences_are_restyled(rest, prefix);
        assert(seq![s[0]] + rest == s);
    }
}

} // verus!
