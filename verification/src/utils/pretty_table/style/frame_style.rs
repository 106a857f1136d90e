//! How the frame of a table looks.
use colored::{Color, Style, Styles};
use vstd::prelude::*;

use super::StringStyle;

verus! {

#[derive(Clone, Copy, Debug, PartialEq, Eq, Structural)]
pub enum FrameCorner {
    Rounded,
    Normal,
    Double,
    Thick,
}

impl FrameCorner {
    pub open spec fn top_left_glyph(self) -> Seq<char> {
        match self {
            FrameCorner::Rounded => "╭"@,
            FrameCorner::Double => "╔"@,
            FrameCorner::Normal => "┌"@,
            FrameCorner::Thick => "┏"@,
        }
    }

    pub fn top_left(&self) -> (r: &'static str)
        ensures
            r@ == self.top_left_glyph(),
    {
        match *self {
            FrameCorner::Rounded => "╭",
            FrameCorner::Double => "╔",
            FrameCorner::Normal => "┌",
            FrameCorner::Thick => "┏",
        }
    }

    pub open spec fn top_right_glyph(self) -> Seq<char> {
        match self {
            FrameCorner::Rounded => "╮"@,
            FrameCorner::Double => "╗"@,
            FrameCorner::Normal => "┐"@,
            FrameCorner::Thick => "┓"@,
        }
    }

    pub fn top_right(&self) -> (r: &'static str)
        ensures
            r@ == self.top_right_glyph(),
    {
        match *self {
            FrameCorner::Rounded => "╮",
            FrameCorner::Double => "╗",
            FrameCorner::Normal => "┐",
            FrameCorner::Thick => "┓",
        }
    }

    pub open spec fn bottom_left_glyph(self) -> Seq<char> {
        match self {
            FrameCorner::Rounded => "╰"@,
            FrameCorner::Double => "╚"@,
            FrameCorner::Normal => "└"@,
            FrameCorner::Thick => "┗"@,
        }
    }

    pub fn bottom_left(&self) -> (r: &'static str)
        ensures
            r@ == self.bottom_left_glyph(),
    {
        match *self {
            FrameCorner::Rounded => "╰",
            FrameCorner::Double => "╚",
            FrameCorner::Normal => "└",
            FrameCorner::Thick => "┗",
        }
    }

    pub open spec fn bottom_right_glyph(self) -> Seq<char> {
        match self {
            FrameCorner::Rounded => "╯"@,
            FrameCorner::Double => "╝"@,
            FrameCorner::Normal => "┘"@,
            FrameCorner::Thick => "┛"@,
        }
    }

    pub fn bottom_right(&self) -> (r: &'static str)
        ensures
            r@ == self.bottom_right_glyph(),
    {
        match *self {
            FrameCorner::Rounded => "╯",
            FrameCorner::Double => "╝",
            FrameCorner::Normal => "┘",
            FrameCorner::Thick => "┛",
        }
    }
}

impl Default for FrameCorner {
    fn default() -> (r: FrameCorner)
        ensures
            r == FrameCorner::Rounded,
    {
        FrameCorner::Rounded
    }
}

#[derive(Clone, Copy, Debug, PartialEq, Eq, Structural)]
pub enum FrameLine {
    Normal,
    Double,
    Thick,
}

impl FrameLine {
    pub open spec fn dash_glyph(self) -> Seq<char> {
        match self {
            FrameLine::Normal => "─"@,
            FrameLine::Double => "═"@,
            FrameLine::Thick => "━"@,
        }
    }

    pub fn dash(&self) -> (r: &'static str)
        ensures
            r@ == self.dash_glyph(),
    {
        match *self {
            FrameLine::Normal => "─",
            FrameLine::Double => "═",
            FrameLine::Thick => "━",
        }
    }

    pub open spec fn straight_glyph(self) -> Seq<char> {
        match self {
            FrameLine::Normal => "│"@,
            FrameLine::Double => "║"@,
            FrameLine::Thick => "┃"@,
        }
    }

    pub fn straight(&self) -> (r: &'static str)
        ensures
            r@ == self.straight_glyph(),
    {
        match *self {
            FrameLine::Normal => "│",
            FrameLine::Double => "║",
            FrameLine::Thick => "┃",
        }
    }

    pub open spec fn top_down_glyph(self) -> Seq<char> {
        match self {
            FrameLine::Normal => "┬"@,
            FrameLine::Double => "╤"@,
            FrameLine::Thick => "┳"@,
        }
    }

    pub fn top_down(&self) -> (r: &'static str)
        ensures
            r@ == self.top_down_glyph(),
    {
        match *self {
            FrameLine::Normal => "┬",
            FrameLine::Double => "╤",
            FrameLine::Thick => "┳",
        }
    }

    pub open spec fn bottom_up_glyph(self) -> Seq<char> {
        match self {
            FrameLine::Normal => "┴"@,
            FrameLine::Double => "╧"@,
            FrameLine::Thick => "┻"@,
        }
    }

    pub fn bottom_up(&self) -> (r: &'static str)
        ensures
            r@ == self.bottom_up_glyph(),
    {
        match *self {
            FrameLine::Normal => "┴",
            FrameLine::Double => "╧",
            FrameLine::Thick => "┻",
        }
    }

    pub open spec fn left_right_glyph(self) -> Seq<char> {
        match self {
            FrameLine::Normal => "├"@,
            FrameLine::Double => "╠"@,
            FrameLine::Thick => "┣"@,
        }
    }

    pub fn left_right(&self) -> (r: &'static str)
        ensures
            r@ == self.left_right_glyph(),
    {
        match *self {
            FrameLine::Normal => "├",
            FrameLine::Double => "╠",
            FrameLine::Thick => "┣",
        }
    }

    pub open spec fn right_left_glyph(self) -> Seq<char> {
        match self {
            FrameLine::Normal => "┤"@,
            FrameLine::Double => "╣"@,
            FrameLine::Thick => "┫"@,
        }
    }

    pub fn right_left(&self) -> (r: &'static str)
        ensures
            r@ == self.right_left_glyph(),
    {
        match *self {
            FrameLine::Normal => "┤",
            FrameLine::Double => "╣",
            FrameLine::Thick => "┫",
        }
    }

    pub open spec fn cross_glyph(self) -> Seq<char> {
        match self {
            FrameLine::Normal => "┼"@,
            FrameLine::Double => "╬"@,
            FrameLine::Thick => "╋"@,
        }
    }

    pub fn cross(&self) -> (r: &'static str)
        ensures
            r@ == self.cross_glyph(),
    {
        match *self {
            FrameLine::Normal => "┼",
            FrameLine::Double => "╬",
            FrameLine::Thick => "╋",
        }
    }
}

impl Default for FrameLine {
    fn default() -> (r: FrameLine)
        ensures
            r == FrameLine::Normal,
    {
        FrameLine::Normal
    }
}

#[derive(Clone, Copy, Debug, PartialEq, Eq)]
pub struct FrameStyle {
    /// The color of the text as it will be printed.
    fgcolor: Option<Color>,
    /// The background color (if any). None means that the text will be printed
    /// without a special background.
    bgcolor: Option<Color>,
    /// Any special styling to be applied to the text (see Styles for a list of
    /// available options).
    style: Style,
    /// Corner style for the frame.
    frame_corner: FrameCorner,
    /// Line style for the frame.
    frame_line: FrameLine,
}

/// The look of a frame, as a mathematical value.
pub struct FrameStyleView {
    pub fgcolor: Option<Color>,
    pub bgcolor: Option<Color>,
    pub style: Style,
    pub corner: FrameCorner,
    pub line: FrameLine,
}

/// The line that a corner is drawn with.
pub open spec fn line_of(corner: FrameCorner) -> FrameLine {
    match corner {
        FrameCorner::Rounded => FrameLine::Normal,
        FrameCorner::Normal => FrameLine::Normal,
        FrameCorner::Double => FrameLine::Double,
        FrameCorner::Thick => FrameLine::Thick,
    }
}

impl FrameStyleView {
    /// Whether corners and lines meet: both are drawn with the same line.
    pub open spec fn agrees(self) -> bool {
        line_of(self.corner) == self.line
    }

    /// The look with other corners, and the lines that go with them.
    pub open spec fn with_corner(self, corner: FrameCorner) -> FrameStyleView {
        FrameStyleView { corner, line: line_of(corner), ..self }
    }

    /// The look with other lines. The corners stay where they go with the new
    /// lines, and change to go with them otherwise.
    pub open spec fn with_line(self, line: FrameLine) -> FrameStyleView {
        FrameStyleView {
            line,
            corner: match line {
                FrameLine::Normal => if self.corner == FrameCorner::Normal {
                    FrameCorner::Normal
                } else {
                    FrameCorner::Rounded
                },
                FrameLine::Double => FrameCorner::Double,
                FrameLine::Thick => FrameCorner::Thick,
            },
            ..self
        }
    }
}

/// Whatever corners or lines are chosen, they meet.
pub proof fn law_corners_and_lines_meet(v: FrameStyleView, corner: FrameCorner, line: FrameLine)
    ensures
        v.with_corner(corner).agrees(),
        v.with_line(line).agrees(),
        v.agrees() && v.line == line ==> v.with_line(line) == v,
{
}

impl FrameStyle {
    pub closed spec fn look(&self) -> FrameStyleView {
        FrameStyleView {
            fgcolor: self.fgcolor,
            bgcolor: self.bgcolor,
            style: self.style,
            corner: self.frame_corner,
            line: self.frame_line,
        }
    }
}

impl View for FrameStyle {
    type V = FrameStyleView;

    open spec fn view(&self) -> FrameStyleView {
        self.look()
    }
}

impl Default for FrameStyle {
    fn default() -> (r: FrameStyle)
        ensures
            super::plain(r@.fgcolor, r@.bgcolor, r@.style),
            r@.corner == FrameCorner::Rounded,
            r@.line == FrameLine::Normal,
    {
        FrameStyle {
            fgcolor: None,
            bgcolor: None,
            style: Style::default(),
            frame_corner: FrameCorner::default(),
            frame_line: FrameLine::default(),
        }
    }
}

impl FrameStyle {
    pub fn set_color(&mut self, color: Color) -> (r: &mut Self)
        ensures
            r@ == (FrameStyleView { fgcolor: Some(color), ..old(self)@ }),
            *final(self) == *final(r),
    {
        self.fgcolor = Some(color);
        self
    }

    pub fn set_bg(&mut self, color: Color) -> (r: &mut Self)
        ensures
            r@ == (FrameStyleView { bgcolor: Some(color), ..old(self)@ }),
            *final(self) == *final(r),
    {
        self.bgcolor = Some(color);
        self
    }

    pub fn set_style(&mut self, style: Style) -> (r: &mut Self)
        ensures
            r@ == (FrameStyleView { style, ..old(self)@ }),
            *final(self) == *final(r),
    {
        self.style = style;
        self
    }

    pub fn add_style(&mut self, style: Styles) -> (r: &mut Self)
        ensures
            r@ == (FrameStyleView { style: r@.style, ..old(self)@ }),
            super::switches(r@.style) == super::switches(old(self)@.style).insert(style),
            *final(self) == *final(r),
    {
        self.style.add(style);
        self
    }

    pub fn set_frame_corner(&mut self, frame_corner: FrameCorner) -> (r: &mut Self)
        ensures
            r@ == old(self)@.with_corner(frame_corner),
            *final(self) == *final(r),
    {
        self.frame_corner = frame_corner;
        self.frame_line = match frame_corner {
            FrameCorner::Rounded => FrameLine::Normal,
            FrameCorner::Normal => FrameLine::Normal,
            FrameCorner::Double => FrameLine::Double,
            FrameCorner::Thick => FrameLine::Thick,
        };
        self
    }

    pub fn set_frame_line(&mut self, frame_line: FrameLine) -> (r: &mut Self)
        ensures
            r@ == old(self)@.with_line(frame_line),
            *final(self) == *final(r),
    {
        self.frame_line = frame_line;
        match frame_line {
            FrameLine::Normal => {
                if self.frame_corner != FrameCorner::Rounded && self.frame_corner
                    != FrameCorner::Normal {
                    self.frame_corner = FrameCorner::Rounded;
                }
            },
            FrameLine::Double => {
                self.frame_corner = FrameCorner::Double;
            },
            FrameLine::Thick => {
                self.frame_corner = FrameCorner::Thick;
            },
        }
        self
    }

    pub fn get_frame_corner(&self) -> (r: &FrameCorner)
        ensures
            *r == self@.corner,
    {
        &self.frame_corner
    }

    pub fn get_frame_line(&self) -> (r: &FrameLine)
        ensures
            *r == self@.line,
    {
        &self.frame_line
    }
}

impl StringStyle for FrameStyle {
    open spec fn fg(&self) -> Option<Color> {
        self@.fgcolor
    }

    open spec fn bg(&self) -> Option<Color> {
        self@.bgcolor
    }

    open spec fn text_style(&self) -> Style {
        self@.style
    }

    fn get_fgcolor(&self) -> Option<Color> {
        self.fgcolor
    }

    fn get_bgcolor(&self) -> Option<Color> {
        self.bgcolor
    }

    fn get_style(&self) -> Style {
        self.style
    }
}

/// The corners or lines that were chosen last are the ones that are drawn, and colours
/// stay. Lines that go with the corners leave them as they are.
pub proof fn law_chosen_corners_and_lines_are_drawn(
    v: FrameStyleView,
    corner: FrameCorner,
    line: FrameLine,
)
    ensures
        v.with_corner(corner).corner == corner,
        v.with_line(line).line == line,
        v.with_corner(corner).fgcolor == v.fgcolor && v.with_corner(corner).bgcolor == v.bgcolor
            && v.with_corner(corner).style == v.style,
        v.with_line(line).fgcolor == v.fgcolor && v.with_line(line).bgcolor == v.bgcolor
            && v.with_line(line).style == v.style,
        line == FrameLine::Normal && (v.corner == FrameCorner::Normal || v.corner
            == FrameCorner::Rounded) ==> v.with_line(line).corner == v.corner,
        line == FrameLine::Normal && v.corner != FrameCorner::Normal ==> v.with_line(line).corner
            == FrameCorner::Rounded,
        line == FrameLine::Double ==> v.with_line(line).corner == FrameCorner::Double,
        line == FrameLine::Thick ==> v.with_line(line).corner == FrameCorner::Thick,
{
}

} // verus!
