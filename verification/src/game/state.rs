//! The board as a mathematical value, and the rules of the game as functions
//! on that value. The executable board states its contracts over these.

use vstd::prelude::*;
use crate::{FIELD_OFFSET_LEFT, FIELD_OFFSET_TOP, GRID_SIZE, TILE_SIZE};
use crate::game::color::{spec_idle_stroke, Color, PALETTE_SIZE};
use crate::game::point::Point;
use crate::game::{Coordinates, Segment, Sprite};

verus! {

/// The centre of the cell in column `x` and row `y`.
pub open spec fn cell_center(x: int, y: int) -> Coordinates {
    Coordinates {
        x: (x * TILE_SIZE + TILE_SIZE / 2 + FIELD_OFFSET_LEFT) as i32,
        y: (y * TILE_SIZE + TILE_SIZE / 2 + FIELD_OFFSET_TOP) as i32,
    }
}

/// The column of cells that holds `pos`, counted from the field's left edge.
/// It is negative left of the field.
pub open spec fn column_of(pos: Coordinates) -> int {
    (pos.x - FIELD_OFFSET_LEFT) / (TILE_SIZE as int)
}

/// The row of cells that holds `pos`, counted from the field's top edge. It is
/// negative above the field.
pub open spec fn row_of(pos: Coordinates) -> int {
    (pos.y - FIELD_OFFSET_TOP) / (TILE_SIZE as int)
}

/// The cell of the grid that holds `pos`, as column and row, if there is one.
pub open spec fn cell_of(pos: Coordinates) -> Option<(usize, usize)> {
    if 0 <= column_of(pos) < GRID_SIZE && 0 <= row_of(pos) < GRID_SIZE {
        Some((column_of(pos) as usize, row_of(pos) as usize))
    } else {
        None
    }
}

/// `pos` is the centre of a cell of the grid.
pub open spec fn is_center(pos: Coordinates) -> bool {
    cell_of(pos) matches Some((x, y)) && cell_center(x as int, y as int) == pos
}

/// The two positions lie in cells that share an edge: one step apart along
/// exactly one axis.
pub open spec fn siblings(a: Coordinates, b: Coordinates) -> bool {
    &&& cell_of(a) is Some
    &&& cell_of(b) is Some
    &&& {
        let (x1, y1) = cell_of(a).unwrap();
        let (x2, y2) = cell_of(b).unwrap();
        ||| x1 == x2 && (y1 - y2 == 1 || y2 - y1 == 1)
        ||| y1 == y2 && (x1 - x2 == 1 || x2 - x1 == 1)
    }
}

/// Some segment of `segments` starts at `center`.
pub open spec fn touches(segments: Seq<Segment>, center: Coordinates) -> bool {
    exists|i: int| 0 <= i < segments.len() && (#[trigger] segments[i]).from == center
}

/// The points of `column` that are not connected, in their order.
pub open spec fn unconnected(column: Seq<Point>) -> Seq<Point> {
    column.filter(|p: Point| !p.connected)
}

/// How many points of `column` a clearing replaces: as many as are connected.
pub open spec fn new_points_in(column: Seq<Point>) -> int {
    column.len() - unconnected(column).len()
}

/// How many points of the first `n` columns of `field` a clearing replaces.
pub open spec fn new_points_before(field: Seq<Seq<Point>>, n: int) -> int
    decreases n,
{
    if n <= 0 {
        0
    } else {
        new_points_before(field, n - 1) + new_points_in(field[n - 1])
    }
}

/// `after` is what the column `before`, the one at `x`, becomes when it is
/// cleared. The unconnected points lie at its bottom in their old order, each
/// moved to the centre of its new cell. Above them lie as many new points as
/// the column had connected ones, each as `Point::fresh` makes it on the centre
/// of its cell, with some colour of the palette.
pub open spec fn column_refilled(x: int, before: Seq<Point>, after: Seq<Point>) -> bool {
    let survivors = unconnected(before);
    let fresh = new_points_in(before);
    &&& after.len() == before.len()
    &&& forall|y: int|
        0 <= y < fresh ==> {
            &&& 0 <= (#[trigger] after[y]).texture_offset < PALETTE_SIZE
            &&& after[y] == Point::fresh(cell_center(x, y), after[y].texture_offset as int)
        }
    &&& forall|y: int|
        fresh <= y < after.len() ==> #[trigger] after[y] == survivors[y - fresh].moved_to(
            cell_center(x, y),
        )
}

/// What a step of the drag does to the stroke.
#[derive(Debug, PartialEq, Eq, Clone, Copy, Structural)]
pub enum Action {
    Connect,
    Disconnect,
    Nothing,
}

/// The board's state: the grid by column and row, the stroke with its newest
/// segment first, whether the stroke has closed a loop, and the colour of the
/// gesture.
pub struct BoardState {
    pub field: Seq<Seq<Point>>,
    pub segments: Seq<Segment>,
    pub closed_path: bool,
    pub current_color: Option<Color>,
}

impl BoardState {
    /// The point in the cell that holds `pos`.
    pub open spec fn point_at(self, pos: Coordinates) -> Point
        recommends
            cell_of(pos) is Some,
    {
        let (x, y) = cell_of(pos).unwrap();
        self.field[x as int][y as int]
    }

    /// The grid is square, and every point is well formed and sits on the
    /// centre of its cell.
    pub open spec fn grid_wf(self) -> bool {
        &&& self.field.len() == GRID_SIZE
        &&& forall|x: int| 0 <= x < GRID_SIZE ==> (#[trigger] self.field[x]).len() == GRID_SIZE
        &&& forall|x: int, y: int|
            0 <= x < GRID_SIZE && 0 <= y < GRID_SIZE ==> {
                &&& (#[trigger] self.field[x][y]).wf()
                &&& self.field[x][y].center == cell_center(x, y)
            }
    }

    /// No point of the grid is connected.
    pub open spec fn all_disconnected(self) -> bool {
        forall|x: int, y: int|
            0 <= x < self.field.len() && 0 <= y < self.field[x].len() ==> !(
            #[trigger] self.field[x][y]).connected
    }

    /// The grid is well formed, every segment starts on the centre of a cell,
    /// a closed loop has at least two segments, and the gesture's colour is
    /// that of the point the stroke now starts from. Without a stroke there is
    /// no colour, no loop, and no point is connected.
    pub open spec fn wf(self) -> bool {
        &&& self.grid_wf()
        &&& forall|i: int|
            0 <= i < self.segments.len() ==> is_center((#[trigger] self.segments[i]).from)
        &&& self.closed_path ==> self.segments.len() >= 2
        &&& self.segments.len() > 0 ==> self.current_color == Some(
            self.point_at(self.segments[0].from).color,
        )
        &&& self.segments.len() == 0 ==> self.current_color is None && self.all_disconnected()
    }

    /// The grid with `change` applied to every point.
    pub open spec fn map_points(self, change: spec_fn(Point) -> Point) -> Seq<Seq<Point>> {
        Seq::new(
            self.field.len(),
            |x: int| Seq::new(self.field[x].len(), |y: int| change(self.field[x][y])),
        )
    }

    /// The grid in which every point of `color` is connected.
    pub open spec fn connect_all(self, color: Color) -> Seq<Seq<Point>> {
        self.map_points(
            |p: Point|
                if p.color == color {
                    p.marked(true)
                } else {
                    p
                },
        )
    }

    /// The grid in which every point of `color` is disconnected, but for
    /// those from which a segment of `segments` starts.
    pub open spec fn disconnect_all(self, color: Color, segments: Seq<Segment>) -> Seq<
        Seq<Point>,
    > {
        self.map_points(
            |p: Point|
                if p.color == color && !touches(segments, p.center) {
                    p.marked(false)
                } else {
                    p
                },
        )
    }

    /// The grid in which no point is connected.
    pub open spec fn disconnect_each(self) -> Seq<Seq<Point>> {
        self.map_points(|p: Point| p.marked(false))
    }

    /// The grid in which the point in column `x`, row `y` has its flag set to
    /// `connected`.
    pub open spec fn mark(self, x: int, y: int, connected: bool) -> Seq<Seq<Point>> {
        self.field.update(x, self.field[x].update(y, self.field[x][y].marked(connected)))
    }

    /// A press at `pos`. On a point it connects the point, takes its colour
    /// for the gesture and puts a segment from its centre to `pos` in front of
    /// the stroke; elsewhere it does nothing.
    pub open spec fn click(self, pos: Coordinates) -> BoardState {
        match cell_of(pos) {
            Some((x, y)) => {
                let point = self.field[x as int][y as int];
                BoardState {
                    field: self.mark(x as int, y as int, true),
                    segments: seq![Segment { from: point.center, to: pos }] + self.segments,
                    closed_path: self.closed_path,
                    current_color: Some(point.color),
                }
            },
            None => self,
        }
    }

    /// The stroke's tip follows the pointer to `pos`; on a closed loop it
    /// collapses onto the start of the first segment instead.
    pub open spec fn follow(self, pos: Coordinates) -> BoardState {
        if self.segments.len() == 0 {
            self
        } else {
            let from = self.segments[0].from;
            let to = if self.closed_path {
                from
            } else {
                pos
            };
            BoardState { segments: self.segments.update(0, Segment { from, to }), ..self }
        }
    }

    /// Stepping onto the point at `center` would take the stroke back by one
    /// point.
    pub open spec fn is_previous(self, center: Coordinates) -> bool {
        self.segments.len() >= 2 && self.segments[1].from == center
    }

    /// What the drag does when the stroke starts from `prev` and the pointer
    /// is over `next`: nothing unless the two are different points of one
    /// colour in cells that share an edge; then it retracts if `next` is the
    /// point before `prev` on the stroke, and connects otherwise.
    pub open spec fn action(self, prev: Point, next: Point) -> Action {
        if prev.center == next.center {
            Action::Nothing
        } else if prev.color != next.color {
            Action::Nothing
        } else if !siblings(prev.center, next.center) {
            Action::Nothing
        } else if self.is_previous(next.center) {
            Action::Disconnect
        } else {
            Action::Connect
        }
    }

    /// The stroke reaches the point centred on `next`: the tip ends there and
    /// a new tip starts from it. If that point was connected already, the
    /// stroke has closed a loop, and every point of its colour is connected.
    /// A closed loop takes no further point.
    pub open spec fn connect(self, next: Coordinates) -> BoardState {
        if self.closed_path || self.segments.len() == 0 || cell_of(next) is None {
            self
        } else {
            let (x, y) = cell_of(next).unwrap();
            let point = self.field[x as int][y as int];
            let tip = Segment { from: self.segments[0].from, to: next };
            BoardState {
                field: if point.connected {
                    self.connect_all(point.color)
                } else {
                    self.mark(x as int, y as int, true)
                },
                segments: seq![Segment { from: next, to: next }] + self.segments.update(0, tip),
                closed_path: point.connected,
                current_color: self.current_color,
            }
        }
    }

    /// The stroke leaves the point centred on `next`, from which it started:
    /// the tip and the segment behind it become one. Leaving a closed loop
    /// disconnects every point of that point's colour from which no segment
    /// starts any more; otherwise it disconnects that point alone. A stroke of
    /// one segment stays.
    pub open spec fn disconnect(self, next: Coordinates) -> BoardState {
        if self.segments.len() < 2 || cell_of(next) is None {
            self
        } else {
            let (x, y) = cell_of(next).unwrap();
            let color = self.field[x as int][y as int].color;
            let merged = Segment { from: self.segments[1].from, to: self.segments[0].to };
            let segments = seq![merged] + self.segments.skip(2);
            BoardState {
                field: if self.closed_path {
                    self.disconnect_all(color, segments)
                } else {
                    self.mark(x as int, y as int, false)
                },
                segments,
                closed_path: false,
                current_color: self.current_color,
            }
        }
    }

    /// The pointer moves to `pos` while the button is held. The tip follows;
    /// over a point, and with a stroke to extend, the stroke connects or
    /// retracts as `action` decides between the point it starts from and the
    /// point under the pointer.
    pub open spec fn drag(self, pos: Coordinates) -> BoardState {
        let tipped = self.follow(pos);
        if cell_of(pos) is None || self.segments.len() == 0 {
            tipped
        } else {
            let next = self.point_at(pos);
            let prev = self.point_at(self.segments[0].from);
            match tipped.action(prev, next) {
                Action::Connect => tipped.connect(next.center),
                Action::Disconnect => tipped.disconnect(prev.center),
                Action::Nothing => tipped,
            }
        }
    }

    /// The gesture is given up: no stroke, no colour, no loop, and no point
    /// connected.
    pub open spec fn cancel(self) -> BoardState {
        BoardState {
            field: self.disconnect_each(),
            segments: Seq::empty(),
            closed_path: false,
            current_color: None,
        }
    }

    /// Every point one tick later.
    pub open spec fn tick(self) -> BoardState {
        BoardState { field: self.map_points(|p: Point| p.advanced()), ..self }
    }

    /// The stroke is that of one gesture, from its press on: every segment
    /// starts from a connected point of the gesture's colour, and no two of
    /// them from the same point, but that the first segment of a closed loop
    /// starts from a point where the stroke has been before. Nothing else is
    /// connected, but for the points of the gesture's colour on a closed loop,
    /// which are then all connected.
    pub open spec fn one_gesture(self) -> bool {
        let first = if self.closed_path {
            1int
        } else {
            0int
        };
        &&& self.wf()
        &&& self.segments.len() > 0
        &&& forall|i: int|
            0 <= i < self.segments.len() ==> {
                &&& self.point_at((#[trigger] self.segments[i]).from).connected
                &&& Some(self.point_at(self.segments[i].from).color) == self.current_color
            }
        &&& forall|i: int, j: int|
            first <= i < j < self.segments.len() ==> (#[trigger] self.segments[i]).from != (
            #[trigger] self.segments[j]).from
        &&& forall|x: int, y: int|
            0 <= x < GRID_SIZE && 0 <= y < GRID_SIZE && (#[trigger] self.field[x][y]).connected ==> {
                &&& Some(self.field[x][y].color) == self.current_color
                &&& self.closed_path || touches(self.segments, self.field[x][y].center)
            }
        &&& self.closed_path ==> touches(self.segments.skip(1), self.segments[0].from)
        &&& self.closed_path ==> forall|x: int, y: int|
            0 <= x < GRID_SIZE && 0 <= y < GRID_SIZE && Some((#[trigger] self.field[x][y]).color)
                == self.current_color ==> self.field[x][y].connected
    }

    /// The colour to draw the stroke in: the gesture's, or grey without one.
    pub open spec fn stroke(self) -> Color {
        match self.current_color {
            Some(color) => color,
            None => spec_idle_stroke(),
        }
    }

    /// The pictures of all points, column after column, each from the top
    /// down.
    pub open spec fn sprites(self) -> Seq<Sprite> {
        Seq::new(
            (GRID_SIZE * GRID_SIZE) as nat,
            |k: int| self.field[k / (GRID_SIZE as int)][k % (GRID_SIZE as int)].sprite(),
        )
    }

    /// How many new points the release of the button brings: none when the
    /// stroke has fewer than two segments, else as many as are connected.
    pub open spec fn release_count(self) -> int {
        if self.segments.len() < 2 {
            0
        } else {
            self.new_points()
        }
    }

    /// `next` is a state that the release of the button can lead to: the
    /// gesture given up when the stroke has fewer than two segments, else the
    /// board cleared.
    pub open spec fn released_into(self, next: BoardState) -> bool {
        if self.segments.len() < 2 {
            next == self.cancel()
        } else {
            self.cleared_into(next)
        }
    }

    /// How many points a clearing replaces on the whole grid.
    pub open spec fn new_points(self) -> int {
        new_points_before(self.field, GRID_SIZE as int)
    }

    /// `next` is a state that clearing this one can lead to: every column is
    /// refilled, and the gesture is over.
    pub open spec fn cleared_into(self, next: BoardState) -> bool {
        &&& next.field.len() == GRID_SIZE
        &&& forall|x: int|
            0 <= x < GRID_SIZE ==> column_refilled(x, self.field[x], #[trigger] next.field[x])
        &&& next.segments.len() == 0
        &&& !next.closed_path
        &&& next.current_color is None
    }

    /// Every point is as `Point::fresh` makes it on the centre of its cell,
    /// with some colour of the palette, and there is no gesture.
    pub open spec fn dealt(self) -> bool {
        &&& self.field.len() == GRID_SIZE
        &&& forall|x: int| 0 <= x < GRID_SIZE ==> (#[trigger] self.field[x]).len() == GRID_SIZE
        &&& forall|x: int, y: int|
            0 <= x < GRID_SIZE && 0 <= y < GRID_SIZE ==> {
                &&& 0 <= (#[trigger] self.field[x][y]).texture_offset
                    < PALETTE_SIZE
                &&& self.field[x][y] == Point::fresh(
                    cell_center(x, y),
                    self.field[x][y].texture_offset as int,
                )
            }
        &&& self.segments.len() == 0
        &&& !self.closed_path
        &&& self.current_color is None
    }
}

} // verus!
