//! How the cells of a table look.
use colored::{Color, Style, Styles};
use vstd::prelude::*;

use super::StringStyle;

verus! {

/// Where a cell stands in its column.
#[derive(Clone, Copy, Debug, PartialEq, Eq, Structural)]
pub enum TextAlignment {
    Left,
    Center,
    Right,
}

#[derive(Clone, Copy, Debug, PartialEq, Eq)]
pub struct TextStyle {
    /// The color of the text as it will be printed.
    fgcolor: Option<Color>,
    /// The background color (if any). None means that the text will be printed
    /// without a special background.
    bgcolor: Option<Color>,
    /// Any special styling to be applied to the text (see Styles for a list of
    /// available options).
    style: Style,
}

/// The look of cells, as a mathematical value.
pub struct TextStyleView {
    pub fgcolor: Option<Color>,
    pub bgcolor: Option<Color>,
    pub style: Style,
}

impl TextStyle {
    pub closed spec fn look(&self) -> TextStyleView {
        TextStyleView { fgcolor: self.fgcolor, bgcolor: self.bgcolor, style: self.style }
    }
}

impl View for TextStyle {
    type V = TextStyleView;

    open spec fn view(&self) -> TextStyleView {
        self.look()
    }
}

impl Default for TextStyle {
    fn default() -> (r: TextStyle)
        ensures
            super::plain(r@.fgcolor, r@.bgcolor, r@.style),
    {
        TextStyle { fgcolor: None, bgcolor: None, style: Style::default() }
    }
}

impl TextStyle {
    pub fn set_color(&mut self, color: Color) -> (r: &mut Self)
        ensures
            r@ == (TextStyleView { fgcolor: Some(color), ..old(self)@ }),
            *final(self) == *final(r),
    {
        self.fgcolor = Some(color);
        self
    }

    pub fn set_bg(&mut self, color: Color) -> (r: &mut Self)
        ensures
            r@ == (TextStyleView { bgcolor: Some(color), ..old(self)@ }),
            *final(self) == *final(r),
    {
        self.bgcolor = Some(color);
        self
    }

    pub fn set_style(&mut self, style: Style) -> (r: &mut Self)
        ensures
            r@ == (TextStyleView { style, ..old(self)@ }),
            *final(self) == *final(r),
    {
        self.style = style;
        self
    }

    pub fn add_style(&mut self, style: Styles) -> (r: &mut Self)
        ensures
            r@ == (TextStyleView { style: r@.style, ..old(self)@ }),
            super::switches(r@.style) == super::switches(old(self)@.style).insert(style),
            *final(self) == *final(r),
    {
        self.style.add(style);
        self
    }
}

impl StringStyle for TextStyle {
    open spec fn fg(&self) -> Option<Color> {
        self@.fgcolor
    }

    open spec fn bg(&self) -> Option<Color> {
        self@.bgcolor
    }

    open spec fn text_style(&self) -> Style {
        self@.style
    }

    fn get_fgcolor(&self) -> Option<Color> {
        self.fgcolor
    }

    fn get_bgcolor(&self) -> Option<Color> {
        self.bgcolor
    }

    fn get_style(&self) -> Style {
        self.style
    }
}

} // verus!
