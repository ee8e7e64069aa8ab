//! Colours of the points and of the stroke.

use vstd::prelude::*;

verus! {

/// A colour by its red, green, blue and alpha components.
#[derive(Debug, PartialEq, Eq, Clone, Copy, Structural)]
pub struct Color {
    pub r: u8,
    pub g: u8,
    pub b: u8,
    pub a: u8,
}

/// Number of colours a point can have.
pub const PALETTE_SIZE: usize = 5;

impl Color {
    /// The opaque colour with the given red, green and blue components.
    pub open spec fn opaque(r: u8, g: u8, b: u8) -> Color {
        Color { r, g, b, a: 0xff }
    }
}

/// The colour that stands at `offset` in the palette: purple, blue, green,
/// red, cyan. Two points match exactly when their colours are equal.
pub open spec fn spec_palette(offset: int) -> Color {
    if offset == 0 {
        Color::opaque(255, 97, 178)
    } else if offset == 1 {
        Color::opaque(73, 139, 255)
    } else if offset == 2 {
        Color::opaque(175, 255, 73)
    } else if offset == 3 {
        Color::opaque(255, 15, 30)
    } else {
        Color::opaque(73, 255, 250)
    }
}

/// The colour behind the playing field.
pub open spec fn spec_background() -> Color {
    Color::opaque(255, 250, 240)
}

/// The colour of the stroke while no gesture has picked a colour.
pub open spec fn spec_idle_stroke() -> Color {
    Color::opaque(90, 90, 90)
}

/// The first colour of the palette.
pub fn purple() -> (color: Color)
    ensures
        color == spec_palette(0),
{
    Color { r: 255, g: 97, b: 178, a: 0xff }
}

/// The second colour of the palette.
pub fn blue() -> (color: Color)
    ensures
        color == spec_palette(1),
{
    Color { r: 73, g: 139, b: 255, a: 0xff }
}

/// The third colour of the palette.
pub fn green() -> (color: Color)
    ensures
        color == spec_palette(2),
{
    Color { r: 175, g: 255, b: 73, a: 0xff }
}

/// The fourth colour of the palette.
pub fn red() -> (color: Color)
    ensures
        color == spec_palette(3),
{
    Color { r: 255, g: 15, b: 30, a: 0xff }
}

/// The fifth colour of the palette.
pub fn cyan() -> (color: Color)
    ensures
        color == spec_palette(4),
{
    Color { r: 73, g: 255, b: 250, a: 0xff }
}

/// The colour behind the playing field.
pub fn background() -> (color: Color)
    ensures
        color == spec_background(),
{
    Color { r: 255, g: 250, b: 240, a: 0xff }
}

/// The colour of the stroke while no gesture has picked a colour.
pub fn idle_stroke() -> (color: Color)
    ensures
        color == spec_idle_stroke(),
{
    Color { r: 90, g: 90, b: 90, a: 0xff }
}

/// The palette colour at `offset`.
pub fn palette(offset: usize) -> (color: Color)
    requires
        offset < PALETTE_SIZE,
    ensures
        color == spec_palette(offset as int),
{
    if offset == 0 {
        purple()
    } else if offset == 1 {
        blue()
    } else if offset == 2 {
        green()
    } else if offset == 3 {
        red()
    } else {
        cyan()
    }
}

} // verus!
