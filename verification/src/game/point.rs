//! One cell of the grid: a coloured point that can be part of the stroke and
//! that falls into place when the column below it is cleared.

use vstd::prelude::*;
use rand::rngs::StdRng;
use rand::Rng;
use crate::game::color::{palette, spec_palette, Color, PALETTE_SIZE};
use crate::game::{Coordinates, Rect, Sprite};

verus! {

/// What a falling point gains in speed with every tick.
pub const VELOCITY: i32 = 2;

/// How far above its cell a new point is first shown.
pub const DROP_HEIGHT: i32 = 400;

/// Side length of a point's picture, in the texture and on the window.
pub const TEXTURE_SIZE: i32 = 32;

/// Largest distance from the origin, along either axis, at which the
/// arithmetic on a point's positions is known to stay within `i32`.
pub const COORDINATE_LIMIT: i32 = 1_000_000_000;

/// Makes `rand::rngs::StdRng` known as a type of which nothing is seen: a
/// generator is handed on and drawn from, never looked into.
#[verifier::external_type_specification]
#[verifier::external_body]
pub struct ExStdRng(rand::rngs::StdRng);

/// `rand::Rng::gen_range` on a `StdRng`, for `usize` bounds. The call panics
/// unless `low < high`, and it samples from the half-open range: all that is
/// claimed of the number is that it lies in `[low, high)`.
#[verifier::external_body]
fn gen_range(rng: &mut StdRng, low: usize, high: usize) -> (n: usize)
    requires
        low < high,
    ensures
        low <= n < high,
{
    rng.gen_range(low, high)
}

/// A point of the grid: its colour, the centre of its cell, whether it is
/// part of the stroke or of a closed loop's colour, and where it is shown
/// while it falls.
#[derive(Debug, PartialEq, Eq, Copy, Clone, Structural)]
pub struct Point {
    pub color: Color,
    pub center: Coordinates,
    pub connected: bool,
    /// Place of `color` in the palette, and of the point's picture in the
    /// texture.
    pub texture_offset: i32,
    /// Where the point is shown: it trails `center` while the point falls.
    pub transition_center: Coordinates,
    /// How far the point falls with the next tick.
    pub speed: i32,
}

impl Coordinates {
    /// Both components are at most `COORDINATE_LIMIT` away from zero.
    pub open spec fn within_limit(self) -> bool {
        &&& -COORDINATE_LIMIT <= self.x <= COORDINATE_LIMIT
        &&& -COORDINATE_LIMIT <= self.y <= COORDINATE_LIMIT
    }
}

impl Point {
    /// The point that is created at `coordinates` with the palette colour at
    /// `offset`: unconnected, at rest, and shown `DROP_HEIGHT` above its place.
    pub open spec fn fresh(coordinates: Coordinates, offset: int) -> Point {
        Point {
            color: spec_palette(offset),
            center: coordinates,
            connected: false,
            texture_offset: offset as i32,
            transition_center: Coordinates {
                x: coordinates.x,
                y: (coordinates.y - DROP_HEIGHT) as i32,
            },
            speed: 0,
        }
    }

    /// The colour is the palette's colour at `texture_offset`, both positions
    /// lie within the limit, and the speed is one that a fall between two such
    /// positions can reach.
    pub open spec fn wf(&self) -> bool {
        &&& 0 <= self.texture_offset < PALETTE_SIZE
        &&& self.color == spec_palette(self.texture_offset as int)
        &&& self.center.within_limit()
        &&& self.transition_center.within_limit()
        &&& 0 <= self.speed <= 2 * COORDINATE_LIMIT + VELOCITY
    }

    /// This point with its flag set to `connected`.
    pub open spec fn marked(self, connected: bool) -> Point {
        Point { connected, ..self }
    }

    /// This point after it was sent to `coordinates`: only the vertical
    /// component of its centre follows.
    pub open spec fn moved_to(self, coordinates: Coordinates) -> Point {
        Point { center: Coordinates { x: self.center.x, y: coordinates.y }, ..self }
    }

    /// This point one tick later. A point that is shown above its centre falls
    /// by its speed and gains `VELOCITY`; one that would pass its centre (or is
    /// shown below it) comes to rest on it.
    pub open spec fn advanced(self) -> Point {
        let diff = self.center.y - self.transition_center.y;
        if diff < self.speed {
            Point {
                transition_center: Coordinates { x: self.transition_center.x, y: self.center.y },
                speed: 0,
                ..self
            }
        } else if diff > 0 {
            Point {
                transition_center: Coordinates {
                    x: self.transition_center.x,
                    y: (self.transition_center.y + self.speed) as i32,
                },
                speed: (self.speed + VELOCITY) as i32,
                ..self
            }
        } else {
            self
        }
    }

    /// The point's picture: the tile at `texture_offset` in the texture's first
    /// row, or in its second row while the point is connected, drawn centred on
    /// the place where the point is shown.
    pub open spec fn sprite(self) -> Sprite {
        Sprite {
            source: Rect {
                x: (self.texture_offset * TEXTURE_SIZE) as i32,
                y: if self.connected { TEXTURE_SIZE } else { 0 },
                width: TEXTURE_SIZE as u32,
                height: TEXTURE_SIZE as u32,
            },
            target: Rect {
                x: (self.transition_center.x - TEXTURE_SIZE / 2) as i32,
                y: (self.transition_center.y - TEXTURE_SIZE / 2) as i32,
                width: TEXTURE_SIZE as u32,
                height: TEXTURE_SIZE as u32,
            },
        }
    }

    /// A new point at `coordinates` whose colour `rng` picks from the palette.
    pub fn new(coordinates: Coordinates, rng: &mut StdRng) -> (point: Point)
        requires
            coordinates.y - DROP_HEIGHT >= i32::MIN,
        ensures
            0 <= point.texture_offset < PALETTE_SIZE,
            point == Point::fresh(coordinates, point.texture_offset as int),
    {
        let (_, offset) = Point::random_color(rng);
        Point::with_palette_offset(coordinates, offset)
    }

    /// A new point at `coordinates` with the palette colour at `offset`.
    pub fn with_palette_offset(coordinates: Coordinates, offset: usize) -> (point: Point)
        requires
            offset < PALETTE_SIZE,
            coordinates.y - DROP_HEIGHT >= i32::MIN,
        ensures
            point == Point::fresh(coordinates, offset as int),
    {
        Point {
            color: palette(offset),
            center: coordinates,
            connected: false,
            texture_offset: offset as i32,
            transition_center: Coordinates { x: coordinates.x, y: coordinates.y - DROP_HEIGHT },
            speed: 0,
        }
    }

    /// Lets the point fall for one tick.
    pub fn update(&mut self)
        requires
            old(self).wf(),
        ensures
            *final(self) == old(self).advanced(),
            final(self).wf(),
    {
        let step = self.speed;
        let diff = self.center.y - self.transition_center.y;

        if diff < step {
            self.transition_center.y = self.center.y;
            self.speed = 0;
            return;
        }
        if diff > 0 {
            self.transition_center.y += step;
            self.speed += VELOCITY;
        }
    }

    /// What to copy from the texture, and where to, to draw the point.
    pub fn render(&self) -> (sprite: Sprite)
        requires
            self.wf(),
        ensures
            sprite == self.sprite(),
    {
        let center = self.transition_center;
        let side = TEXTURE_SIZE as u32;
        let row = if self.connected { TEXTURE_SIZE } else { 0 };
        Sprite {
            source: Rect { x: self.texture_offset * TEXTURE_SIZE, y: row, width: side, height: side },
            target: Rect {
                x: center.x - TEXTURE_SIZE / 2,
                y: center.y - TEXTURE_SIZE / 2,
                width: side,
                height: side,
            },
        }
    }

    /// Sends the point to `coordinates`. A point falls within its column: the
    /// horizontal component of its centre stays.
    pub fn move_to(&mut self, coordinates: Coordinates)
        ensures
            *final(self) == old(self).moved_to(coordinates),
    {
        if coordinates == self.center {
            return;
        }
        self.center.y = coordinates.y;
    }

    /// Marks the point as connected.
    pub fn connect(&mut self)
        ensures
            *final(self) == old(self).marked(true),
    {
        self.connected = true;
    }

    /// Marks the point as not connected.
    pub fn disconnect(&mut self)
        ensures
            *final(self) == old(self).marked(false),
    {
        self.connected = false;
    }

    /// A colour of the palette, picked by `rng`, and its place in the palette.
    fn random_color(rng: &mut StdRng) -> (picked: (Color, usize))
        ensures
            picked.1 < PALETTE_SIZE,
            picked.0 == spec_palette(picked.1 as int),
    {
        let offset = gen_range(rng, 0, PALETTE_SIZE);
        let color = palette(offset);
        (color, offset)
    }
}

} // verus!
