//! Colours as red, green and blue.

use vstd::prelude::*;

verus! {

/// A colour by its red, green and blue.
#[derive(Debug, Copy, Clone, PartialEq, Eq, Structural)]
pub struct Colour {
    pub r: u8,
    pub g: u8,
    pub b: u8,
}

/// A colour as a terminal is asked for it.
#[derive(Debug, Copy, Clone, PartialEq, Eq, Structural)]
pub enum TermColour {
    /// The colour that the terminal uses where none is set.
    Reset,
    Black,
    Red,
    Green,
    Yellow,
    Blue,
    Magenta,
    Cyan,
    Gray,
    DarkGray,
    LightRed,
    LightGreen,
    LightYellow,
    LightBlue,
    LightMagenta,
    LightCyan,
    White,
    Rgb(u8, u8, u8),
    /// A colour of the terminal's palette.
    Indexed(u8),
}

/// The red, green and blue of a colour of the terminal, where that is
/// known without asking the terminal: a named colour has the two lower
/// intensities 170 and 85 and the full one 255.
pub open spec fn rgb_of(colour: TermColour) -> Option<Colour> {
    match colour {
        TermColour::Reset => None,
        TermColour::Indexed(_) => None,
        TermColour::Rgb(r, g, b) => Some(Colour { r, g, b }),
        TermColour::Black => Some(Colour { r: 0, g: 0, b: 0 }),
        TermColour::Red => Some(Colour { r: 170, g: 0, b: 0 }),
        TermColour::Green => Some(Colour { r: 0, g: 170, b: 0 }),
        TermColour::Yellow => Some(Colour { r: 170, g: 85, b: 0 }),
        TermColour::Blue => Some(Colour { r: 0, g: 0, b: 170 }),
        TermColour::Magenta => Some(Colour { r: 170, g: 0, b: 170 }),
        TermColour::Cyan => Some(Colour { r: 0, g: 170, b: 170 }),
        TermColour::White => Some(Colour { r: 255, g: 255, b: 255 }),
        TermColour::Gray => Some(Colour { r: 170, g: 170, b: 170 }),
        TermColour::DarkGray => Some(Colour { r: 85, g: 85, b: 85 }),
        TermColour::LightRed => Some(Colour { r: 255, g: 85, b: 85 }),
        TermColour::LightGreen => Some(Colour { r: 85, g: 255, b: 85 }),
        TermColour::LightYellow => Some(Colour { r: 255, g: 255, b: 85 }),
        TermColour::LightBlue => Some(Colour { r: 85, g: 85, b: 255 }),
        TermColour::LightMagenta => Some(Colour { r: 255, g: 85, b: 255 }),
        TermColour::LightCyan => Some(Colour { r: 85, g: 255, b: 255 }),
    }
}

impl Colour {
    /// The colour with this red, green and blue.
    pub fn new(r: u8, g: u8, b: u8) -> (c: Colour)
        ensures
            c.r == r,
            c.g == g,
            c.b == b,
    {
        Colour { r, g, b }
    }

    /// The red, green and blue of a colour of the terminal; `None` for the
    /// terminal's own colour and for the colours of its palette.
    pub fn try_from(colour: TermColour) -> (c: Option<Colour>)
        ensures
            c == rgb_of(colour),
    {
        let full: u8 = 255;
        let mid: u8 = 170;
        let low: u8 = 85;
        match colour {
            TermColour::Reset => None,
            TermColour::Indexed(_) => None,
            TermColour::Rgb(r, g, b) => Some(Colour::new(r, g, b)),
            TermColour::Black => Some(Colour::new(0, 0, 0)),
            TermColour::Red => Some(Colour::new(mid, 0, 0)),
            TermColour::Green => Some(Colour::new(0, mid, 0)),
            TermColour::Yellow => Some(Colour::new(mid, low, 0)),
            TermColour::Blue => Some(Colour::new(0, 0, mid)),
            TermColour::Magenta => Some(Colour::new(mid, 0, mid)),
            TermColour::Cyan => Some(Colour::new(0, mid, mid)),
            TermColour::White => Some(Colour::new(full, full, full)),
            TermColour::Gray => Some(Colour::new(mid, mid, mid)),
            TermColour::DarkGray => Some(Colour::new(low, low, low)),
            TermColour::LightRed => Some(Colour::new(full, low, low)),
            TermColour::LightGreen => Some(Colour::new(low, full, low)),
            TermColour::LightYellow => Some(Colour::new(full, full, low)),
            TermColour::LightBlue => Some(Colour::new(low, low, full)),
            TermColour::LightMagenta => Some(Colour::new(full, low, full)),
            TermColour::LightCyan => Some(Colour::new(low, full, full)),
        }
    }

    /// The colour as a terminal is asked for it.
    pub fn into_term(self) -> (t: TermColour)
        ensures
            t == TermColour::Rgb(self.r, self.g, self.b),
    {
        TermColour::Rgb(self.r, self.g, self.b)
    }
}

} // verus!
