//! A connect-the-dots board: a square grid of coloured points, a stroke that
//! is dragged from point to point, and the clearing and refilling of the
//! columns once the stroke is released.

use vstd::prelude::*;

pub mod game;

verus! {

/// Horizontal distance from the window's left edge to the playing field.
pub const FIELD_OFFSET_LEFT: i32 = 50;

/// Vertical distance from the window's top edge to the playing field.
pub const FIELD_OFFSET_TOP: i32 = 100;

/// Side length of one square cell of the playing field.
pub const TILE_SIZE: i32 = 60;

/// Number of cells along each side of the playing field.
pub const GRID_SIZE: usize = 5;

} // verus!
