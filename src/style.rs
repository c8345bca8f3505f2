//! Colors and the style a container paints with.
use vstd::prelude::*;

verus! {

/// A terminal color: the named palette, an RGB triple, an ANSI palette
/// index, or `Reset`, the terminal's own default.
#[derive(Debug, Clone, Copy, PartialEq, Eq, Structural)]
pub enum Color {
    Reset,
    Black,
    DarkGrey,
    Red,
    DarkRed,
    Green,
    DarkGreen,
    Yellow,
    DarkYellow,
    Blue,
    DarkBlue,
    Magenta,
    DarkMagenta,
    Cyan,
    DarkCyan,
    White,
    Grey,
    Rgb { r: u8, g: u8, b: u8 },
    AnsiValue(u8),
}

/// Colors a container paints over its region. `None` leaves the color
/// that a cell already has.
#[derive(Debug, Clone, Copy, PartialEq, Eq, Structural)]
pub struct Style {
    pub color: Option<Color>,
    pub background_color: Option<Color>,
}

impl Default for Style {
    fn default() -> (r: Self)
        ensures
            r.color is None,
            r.background_color is None,
    {
        Style { color: None, background_color: None }
    }
}

} // verus!
