//! The board: the grid of points, the stroke of the gesture in progress, and
//! the three entry points of a gesture.

use vstd::prelude::*;
use std::collections::VecDeque;
use rand::rngs::StdRng;
use crate::{FIELD_OFFSET_LEFT, FIELD_OFFSET_TOP, GRID_SIZE, TILE_SIZE};
use crate::game::color::{idle_stroke, Color, PALETTE_SIZE};
use crate::game::point::Point;
use crate::game::laws::{
    lemma_cancel_wf, lemma_center_round_trip, lemma_cleared_wf, lemma_click_starts_gesture,
    lemma_dealt_wf, lemma_drag_keeps_gesture, lemma_new_points_bounds, lemma_tick_wf,
    lemma_unconnected_step,
};
use crate::game::state::{
    cell_center, cell_of, column_of, column_refilled, is_center, new_points_before, row_of,
    siblings, touches, unconnected, Action, BoardState,
};
use crate::game::{Coordinates, Segment, Sprite};

verus! {

/// The grid of points, column by column, the stroke of the gesture in
/// progress with its newest segment first, and the generator that gives new
/// points their colours.
#[derive(Debug)]
pub struct Board {
    field: Vec<Vec<Point>>,
    segments: VecDeque<Segment>,
    closed_path: bool,
    current_color: Option<Color>,
    rng: StdRng,
}

impl View for Board {
    type V = BoardState;

    closed spec fn view(&self) -> BoardState {
        BoardState {
            field: Seq::new(self.field@.len(), |x: int| self.field@[x]@),
            segments: self.segments@,
            closed_path: self.closed_path,
            current_color: self.current_color,
        }
    }
}

/// What there is to draw of a board: the stroke's colour, its segments with
/// the newest first, and the pictures of the points, column after column.
#[derive(Debug, PartialEq, Eq)]
pub struct Scene {
    pub stroke: Color,
    pub lines: Vec<Segment>,
    pub sprites: Vec<Sprite>,
}

/// A copy of a board's state.
#[derive(Debug, PartialEq, Eq)]
pub struct Snapshot {
    pub field: Vec<Vec<Point>>,
    pub segments: Vec<Segment>,
    pub closed_path: bool,
    pub current_color: Option<Color>,
}

impl View for Snapshot {
    type V = BoardState;

    open spec fn view(&self) -> BoardState {
        BoardState {
            field: Seq::new(self.field@.len(), |x: int| self.field@[x]@),
            segments: self.segments@,
            closed_path: self.closed_path,
            current_color: self.current_color,
        }
    }
}

impl Board {
    /// How the grid of the view reads off the vectors.
    proof fn lemma_view_field(&self)
        ensures
            self@.field.len() == self.field@.len(),
            forall|x: int|
                0 <= x < self.field@.len() ==> self@.field[x] == (#[trigger] self.field@[x])@,
            self@.segments == self.segments@,
            self@.closed_path == self.closed_path,
            self@.current_color == self.current_color,
    {
    }

    /// A board whose points get their colours from `rng`, which the board
    /// keeps for the points that it creates later.
    pub fn new(rng: StdRng) -> (board: Board)
        ensures
            board@.dealt(),
            board@.wf(),
    {
        let mut rng = rng;
        let mut field: Vec<Vec<Point>> = Vec::with_capacity(GRID_SIZE);

        let mut x: usize = 0;
        while x < GRID_SIZE
            invariant
                x <= GRID_SIZE,
                field@.len() == x,
                forall|i: int| 0 <= i < x ==> (#[trigger] field@[i])@.len() == GRID_SIZE,
                forall|i: int, j: int|
                    0 <= i < x && 0 <= j < GRID_SIZE ==> {
                        &&& 0 <= (#[trigger] field@[i]@[j]).texture_offset < PALETTE_SIZE
                        &&& field@[i]@[j] == Point::fresh(
                            cell_center(i, j),
                            field@[i]@[j].texture_offset as int,
                        )
                    },
            decreases GRID_SIZE - x,
        {
            let mut column: Vec<Point> = Vec::with_capacity(GRID_SIZE);
            let mut y: usize = 0;
            while y < GRID_SIZE
                invariant
                    x < GRID_SIZE,
                    y <= GRID_SIZE,
                    column@.len() == y,
                    forall|j: int|
                        0 <= j < y ==> {
                            &&& 0 <= (#[trigger] column@[j]).texture_offset < PALETTE_SIZE
                            &&& column@[j] == Point::fresh(
                                cell_center(x as int, j),
                                column@[j].texture_offset as int,
                            )
                        },
                decreases GRID_SIZE - y,
            {
                let coords = Board::index_to_coordinates(x, y);
                column.push(Point::new(coords, &mut rng));
                y += 1;
            }
            field.push(column);
            x += 1;
        }
        let board = Board {
            field,
            segments: VecDeque::new(),
            closed_path: false,
            current_color: None,
            rng,
        };
        proof {
            lemma_dealt_wf(board@);
        }
        board
    }

    /// What there is to draw of the board.
    pub fn render(&self) -> (scene: Scene)
        requires
            self@.grid_wf(),
        ensures
            scene.stroke == self@.stroke(),
            scene.lines@ == self@.segments,
            scene.sprites@ == self@.sprites(),
    {
        let stroke = if let Some(color) = self.current_color {
            color
        } else {
            idle_stroke()
        };
        let lines = self.stroke_segments();

        let mut sprites: Vec<Sprite> = Vec::with_capacity(GRID_SIZE * GRID_SIZE);
        let mut x: usize = 0;
        while x < GRID_SIZE
            invariant
                x <= GRID_SIZE,
                self@.grid_wf(),
                sprites@.len() == x * GRID_SIZE,
                forall|k: int| 0 <= k < sprites@.len() ==> sprites@[k] == self@.sprites()[k],
            decreases GRID_SIZE - x,
        {
            let mut y: usize = 0;
            while y < GRID_SIZE
                invariant
                    x < GRID_SIZE,
                    y <= GRID_SIZE,
                    self@.grid_wf(),
                    sprites@.len() == x * GRID_SIZE + y,
                    forall|k: int| 0 <= k < sprites@.len() ==> sprites@[k] == self@.sprites()[k],
                decreases GRID_SIZE - y,
            {
                proof {
                    self.lemma_view_field();
                }
                sprites.push(self.field[x][y].render());
                y += 1;
            }
            x += 1;
        }
        Scene { stroke, lines, sprites }
    }

    /// A copy of the board's state.
    pub fn snapshot(&self) -> (snapshot: Snapshot)
        ensures
            snapshot@ == self@,
    {
        let mut field: Vec<Vec<Point>> = Vec::with_capacity(self.field.len());
        let mut x: usize = 0;
        while x < self.field.len()
            invariant
                x <= self.field@.len(),
                field@.len() == x,
                forall|i: int| 0 <= i < x ==> (#[trigger] field@[i])@ == self.field@[i]@,
            decreases self.field@.len() - x,
        {
            let mut column: Vec<Point> = Vec::with_capacity(self.field[x].len());
            let mut y: usize = 0;
            while y < self.field[x].len()
                invariant
                    x < self.field@.len(),
                    y <= self.field@[x as int]@.len(),
                    column@.len() == y,
                    forall|j: int| 0 <= j < y ==> column@[j] == self.field@[x as int]@[j],
                decreases self.field@[x as int]@.len() - y,
            {
                column.push(self.field[x][y]);
                y += 1;
            }
            field.push(column);
            x += 1;
        }
        let snapshot = Snapshot {
            field,
            segments: self.stroke_segments(),
            closed_path: self.closed_path,
            current_color: self.current_color,
        };
        assert(snapshot@.field =~~= self@.field);
        snapshot
    }

    /// The segments of the stroke, the newest first.
    fn stroke_segments(&self) -> (segments: Vec<Segment>)
        ensures
            segments@ == self@.segments,
    {
        let mut segments: Vec<Segment> = Vec::with_capacity(self.segments.len());
        let mut i: usize = 0;
        while i < self.segments.len()
            invariant
                i <= self.segments@.len(),
                segments@.len() == i,
                forall|k: int| 0 <= k < i ==> segments@[k] == self.segments@[k],
            decreases self.segments@.len() - i,
        {
            segments.push(self.segments[i]);
            i += 1;
        }
        segments
    }

    /// The button is released. A stroke of fewer than two segments is given
    /// up: every point is disconnected and nothing is cleared. Otherwise the
    /// connected points are cleared, each column falls and is filled up from
    /// the top, and the number of new points is returned. Either way the
    /// gesture is over.
    pub fn handle_raise(&mut self) -> (count: i32)
        requires
            old(self)@.wf(),
        ensures
            final(self)@.wf(),
            final(self)@.segments.len() == 0,
            final(self)@.all_disconnected(),
            old(self)@.released_into(final(self)@),
            count == old(self)@.release_count(),
            0 <= count <= GRID_SIZE * GRID_SIZE,
    {
        if self.segments.len() < 2 {
            self.segments.clear();
            self.disconnect_each();
            self.closed_path = false;
            self.current_color = None;
            proof {
                lemma_cancel_wf(old(self)@);
            }
            return 0;
        }
        self.segments.clear();

        let count = self.clear_points();

        self.closed_path = false;
        self.current_color = None;
        proof {
            lemma_cleared_wf(old(self)@, self@);
            lemma_new_points_bounds(old(self)@, GRID_SIZE as int);
        }
        count
    }

    /// Clears the connected points of every column: the others fall to the
    /// bottom of their column, new points fill it up from the top, and the
    /// number of new points is returned.
    fn clear_points(&mut self) -> (count: i32)
        requires
            old(self)@.grid_wf(),
        ensures
            final(self)@.field.len() == GRID_SIZE,
            forall|x: int|
                0 <= x < GRID_SIZE ==> column_refilled(
                    x,
                    old(self)@.field[x],
                    #[trigger] final(self)@.field[x],
                ),
            final(self)@.segments == old(self)@.segments,
            final(self)@.closed_path == old(self)@.closed_path,
            final(self)@.current_color == old(self)@.current_color,
            count == old(self)@.new_points(),
    {
        let ghost before = self@;
        let mut count: i32 = 0;
        let mut x: usize = 0;
        while x < GRID_SIZE
            invariant
                x <= GRID_SIZE,
                before.grid_wf(),
                self.field@.len() == GRID_SIZE,
                forall|i: int|
                    0 <= i < x ==> column_refilled(i, before.field[i], (#[trigger] self.field@[i])@),
                forall|i: int| x <= i < GRID_SIZE ==> (#[trigger] self.field@[i])@ == before.field[i],
                count == new_points_before(before.field, x as int),
                0 <= count <= x * GRID_SIZE,
                self.segments@ == before.segments,
                self.closed_path == before.closed_path,
                self.current_color == before.current_color,
            decreases GRID_SIZE - x,
        {
            let survivors = Board::unconnected_points(&self.field[x]);
            let fresh: usize = GRID_SIZE - survivors.len();
            let ghost counted = count;

            let mut new_column: Vec<Point> = Vec::with_capacity(GRID_SIZE);
            let mut y: usize = 0;
            while y < GRID_SIZE
                invariant
                    x < GRID_SIZE,
                    y <= GRID_SIZE,
                    fresh + survivors@.len() == GRID_SIZE,
                    new_column@.len() == y,
                    self.field@.len() == GRID_SIZE,
                    forall|i: int|
                        0 <= i < x ==> column_refilled(
                            i,
                            before.field[i],
                            (#[trigger] self.field@[i])@,
                        ),
                    forall|i: int|
                        x <= i < GRID_SIZE ==> (#[trigger] self.field@[i])@ == before.field[i],
                    self.segments@ == before.segments,
                    self.closed_path == before.closed_path,
                    self.current_color == before.current_color,
                    forall|j: int|
                        0 <= j < y && j < fresh ==> {
                            &&& 0 <= (#[trigger] new_column@[j]).texture_offset < PALETTE_SIZE
                            &&& new_column@[j] == Point::fresh(
                                cell_center(x as int, j),
                                new_column@[j].texture_offset as int,
                            )
                        },
                    forall|j: int|
                        fresh <= j < y ==> #[trigger] new_column@[j] == survivors@[j
                            - fresh].moved_to(cell_center(x as int, j)),
                    count == counted + if y < fresh {
                        y
                    } else {
                        fresh
                    },
                    0 <= counted <= x * GRID_SIZE,
                decreases GRID_SIZE - y,
            {
                let coords = Board::index_to_coordinates(x, y);
                if y < fresh {
                    new_column.push(Point::new(coords, &mut self.rng));
                    count += 1;
                } else {
                    let mut point = survivors[y - fresh];
                    point.move_to(coords);
                    new_column.push(point);
                }
                y += 1;
            }
            self.field[x] = new_column;
            x += 1;
        }
        count
    }

    /// The points of `column` that are not connected, in their order.
    fn unconnected_points(column: &Vec<Point>) -> (kept: Vec<Point>)
        ensures
            kept@ == unconnected(column@),
            kept@.len() <= column@.len(),
    {
        let mut kept: Vec<Point> = Vec::new();
        let mut y: usize = 0;
        while y < column.len()
            invariant
                y <= column@.len(),
                kept@ == unconnected(column@.take(y as int)),
            decreases column@.len() - y,
        {
            proof {
                lemma_unconnected_step(column@, y as int);
            }
            if !column[y].connected {
                kept.push(column[y]);
            }
            y += 1;
        }
        proof {
            assert(column@.take(column@.len() as int) =~= column@);
        }
        kept
    }

    /// The point under the position `(x, y)`, if the position lies on the grid.
    fn get_point(&self, x: i32, y: i32) -> (found: Option<&Point>)
        requires
            self@.grid_wf(),
        ensures
            cell_of(Coordinates { x, y }) is None ==> found is None,
            cell_of(Coordinates { x, y }) is Some ==> found == Some(
                &self@.point_at(Coordinates { x, y }),
            ),
    {
        if let Some((x, y)) = Board::coordinates_to_index(Coordinates { x, y }) {
            proof {
                self.lemma_view_field();
            }
            return Some(&self.field[x][y]);
        }
        None
    }

    /// The point under the position `(x, y)`, to be changed in place.
    fn get_point_mut(&mut self, x: i32, y: i32) -> (found: Option<&mut Point>)
        requires
            old(self)@.grid_wf(),
        ensures
            cell_of(Coordinates { x, y }) is None ==> found is None && final(self)@ == old(self)@,
            cell_of(Coordinates { x, y }) matches Some((column, row)) ==> {
                &&& found matches Some(point)
                &&& *point == old(self)@.point_at(Coordinates { x, y })
                &&& final(self)@.field == old(self)@.field.update(
                    column as int,
                    old(self)@.field[column as int].update(row as int, *final(point)),
                )
                &&& final(self)@.segments == old(self)@.segments
                &&& final(self)@.closed_path == old(self)@.closed_path
                &&& final(self)@.current_color == old(self)@.current_color
            },
    {
        if let Some((x, y)) = Board::coordinates_to_index(Coordinates { x, y }) {
            proof {
                self.lemma_view_field();
            }
            return Some(&mut self.field[x][y]);
        }
        None
    }

    /// The button is pressed at `(x, y)`. Over a point this starts a gesture:
    /// the point is connected, its colour becomes the gesture's, and a segment
    /// from its centre to `(x, y)` is put in front of the stroke. Off the grid
    /// nothing happens.
    pub fn handle_click(&mut self, x: i32, y: i32)
        requires
            old(self)@.wf(),
        ensures
            final(self)@ == old(self)@.click(Coordinates { x, y }),
            final(self)@.wf(),
            old(self)@.segments.len() == 0 && cell_of(Coordinates { x, y }) is Some
                ==> final(self)@.one_gesture(),
    {
        proof {
            if self@.segments.len() == 0 && cell_of(Coordinates { x, y }) is Some {
                lemma_click_starts_gesture(self@, Coordinates { x, y });
            }
        }
        if let Some(point) = self.get_point_mut(x, y) {
            point.connect();

            let center = point.center;
            let color = point.color;

            self.current_color = Some(color);

            self.segments.push_front(Segment { from: center, to: Coordinates { x, y } });
        }
    }

    /// The pointer moves to `(x, y)` while the button is held. The tip of the
    /// stroke follows it, or stays collapsed on a closed loop. Over a point
    /// the stroke then takes that point, or steps back onto it, if the rules
    /// allow. Without a stroke nothing happens.
    pub fn handle_move(&mut self, x: i32, y: i32)
        requires
            old(self)@.wf(),
        ensures
            final(self)@ == old(self)@.drag(Coordinates { x, y }),
            final(self)@.wf(),
            old(self)@.one_gesture() ==> final(self)@.one_gesture(),
    {
        proof {
            if self@.one_gesture() {
                lemma_drag_keeps_gesture(self@, Coordinates { x, y });
            }
        }
        if self.segments.len() > 0 {
            let front = self.segments[0];
            if self.closed_path {
                self.set_tip(front.from);
            } else {
                self.set_tip(Coordinates { x, y });
            }
        }
        assert(self@ == old(self)@.follow(Coordinates { x, y }));
        let point = self.get_point(x, y);

        if point.is_none() || self.segments.len() == 0 {
            return;
        }
        let point = point.unwrap();
        let center = point.center;

        let segment = self.segments[0];
        let prev_point = self.get_point(segment.from.x, segment.from.y).unwrap();
        let prev_point_center = prev_point.center;
        proof {
            let (nx, ny) = cell_of(Coordinates { x, y }).unwrap();
            lemma_center_round_trip(nx, ny);
        }

        let action = self.resolve_action(prev_point, point);

        match action {
            Action::Connect => self.connect(center),
            Action::Disconnect => self.disconnect(prev_point_center),
            Action::Nothing => (),
        };
    }

    /// Moves the end of the first segment to `to`.
    fn set_tip(&mut self, to: Coordinates)
        requires
            old(self)@.segments.len() > 0,
        ensures
            final(self)@ == (BoardState {
                segments: old(self)@.segments.update(
                    0,
                    Segment { from: old(self)@.segments[0].from, to },
                ),
                ..old(self)@
            }),
    {
        let front = self.segments.pop_front().unwrap();
        self.segments.push_front(Segment { from: front.from, to });
        assert(self.segments@ =~= old(self).segments@.update(0, Segment { from: front.from, to }));
    }

    /// Which step the drag takes from `prev`, the point the stroke starts
    /// from, to `next`, the point under the pointer.
    fn resolve_action(&self, prev: &Point, next: &Point) -> (action: Action)
        requires
            self@.segments.len() > 0,
            prev.center == self@.segments[0].from,
            cell_of(prev.center) is Some,
            cell_of(next.center) is Some,
        ensures
            action == self@.action(*prev, *next),
    {
        if prev.center == next.center {
            return Action::Nothing;
        }
        if prev.color != next.color {
            return Action::Nothing;
        }
        if Board::is_siblings(prev, next) && !self.is_previous(next) {
            return Action::Connect;
        }
        if Board::is_siblings(prev, next) && self.is_previous(next) {
            return Action::Disconnect;
        }
        Action::Nothing
    }

    /// The stroke reaches the point centred on `next`, a point of the
    /// gesture's colour.
    fn connect(&mut self, next: Coordinates)
        requires
            old(self)@.wf(),
            old(self)@.segments.len() > 0,
            is_center(next),
            old(self)@.point_at(next).color == old(self)@.point_at(
                old(self)@.segments[0].from,
            ).color,
        ensures
            final(self)@ == old(self)@.connect(next),
            final(self)@.wf(),
    {
        if self.closed_path {
            return;
        }
        self.set_tip(next);
        self.segments.push_front(Segment { from: next, to: next });

        let point = self.get_point(next.x, next.y).unwrap();

        if point.connected {
            let color = point.color;
            self.connect_all(color);

            self.closed_path = true;
        }
        let point = self.get_point_mut(next.x, next.y).unwrap();

        point.connect();
        proof {
            assert(self@.field =~~= old(self)@.connect(next).field);
        }
    }

    /// The stroke leaves the point centred on `next`, from which it started.
    fn disconnect(&mut self, next: Coordinates)
        requires
            old(self)@.wf(),
            is_center(next),
            old(self)@.segments.len() >= 2 ==> next == old(self)@.segments[0].from && old(
                self,
            )@.point_at(next).color == old(self)@.point_at(old(self)@.segments[1].from).color,
        ensures
            final(self)@ == old(self)@.disconnect(next),
            final(self)@.wf(),
    {
        if self.segments.len() < 2 {
            return;
        }
        let front = self.segments.pop_front();
        let to = front.unwrap().to;
        let front = self.segments.pop_front();
        let from = front.unwrap().from;

        self.segments.push_front(Segment { from, to });
        assert(self@.segments =~= old(self)@.disconnect(next).segments);

        if self.closed_path {
            let color = self.get_point(next.x, next.y).unwrap().color;
            self.disconnect_all(color);

            self.closed_path = false;
        } else {
            let point = self.get_point_mut(next.x, next.y).unwrap();
            point.disconnect();
        }
    }

    /// While the grid is worked through column by column, and each column
    /// from the top down: the points before column `x`, row `y` are those of
    /// `target`, the others are still those of `before`, and nothing but the
    /// grid has changed.
    spec fn changed_before(&self, before: BoardState, target: Seq<Seq<Point>>, x: int, y: int) -> bool {
        &&& self.field@.len() == GRID_SIZE
        &&& forall|i: int| 0 <= i < GRID_SIZE ==> (#[trigger] self.field@[i])@.len() == GRID_SIZE
        &&& forall|i: int, j: int|
            0 <= i < GRID_SIZE && 0 <= j < GRID_SIZE ==> (#[trigger] self.field@[i]@[j]) == if i < x
                || (i == x && j < y) {
                target[i][j]
            } else {
                before.field[i][j]
            }
        &&& self.segments@ == before.segments
        &&& self.closed_path == before.closed_path
        &&& self.current_color == before.current_color
    }

    /// Connects every point of `color`.
    fn connect_all(&mut self, color: Color)
        requires
            old(self)@.grid_wf(),
        ensures
            final(self)@ == (BoardState { field: old(self)@.connect_all(color), ..old(self)@ }),
    {
        let ghost before = self@;
        let ghost target = before.connect_all(color);
        proof {
            self.lemma_view_field();
        }
        let mut x: usize = 0;
        while x < GRID_SIZE
            invariant
                x <= GRID_SIZE,
                before.grid_wf(),
                target == before.connect_all(color),
                self.changed_before(before, target, x as int, 0),
            decreases GRID_SIZE - x,
        {
            let mut y: usize = 0;
            while y < GRID_SIZE
                invariant
                    x < GRID_SIZE,
                    y <= GRID_SIZE,
                    before.grid_wf(),
                    target == before.connect_all(color),
                    self.changed_before(before, target, x as int, y as int),
                decreases GRID_SIZE - y,
            {
                if self.field[x][y].color == color {
                    self.field[x][y].connect();
                }
                y += 1;
            }
            x += 1;
        }
        proof {
            assert(self@.field =~~= target);
        }
    }

    /// Disconnects every point of `color` from which no segment starts.
    fn disconnect_all(&mut self, color: Color)
        requires
            old(self)@.grid_wf(),
        ensures
            final(self)@ == (BoardState {
                field: old(self)@.disconnect_all(color, old(self)@.segments),
                ..old(self)@
            }),
    {
        let ghost before = self@;
        let ghost target = before.disconnect_all(color, before.segments);
        proof {
            self.lemma_view_field();
        }
        let mut x: usize = 0;
        while x < GRID_SIZE
            invariant
                x <= GRID_SIZE,
                before.grid_wf(),
                target == before.disconnect_all(color, before.segments),
                self.changed_before(before, target, x as int, 0),
            decreases GRID_SIZE - x,
        {
            let mut y: usize = 0;
            while y < GRID_SIZE
                invariant
                    x < GRID_SIZE,
                    y <= GRID_SIZE,
                    before.grid_wf(),
                    target == before.disconnect_all(color, before.segments),
                    self.changed_before(before, target, x as int, y as int),
                decreases GRID_SIZE - y,
            {
                if self.field[x][y].color == color && !self.starts_segment(self.field[x][y].center) {
                    self.field[x][y].disconnect();
                }
                y += 1;
            }
            x += 1;
        }
        proof {
            assert(self@.field =~~= target);
        }
    }

    /// Disconnects every point.
    fn disconnect_each(&mut self)
        requires
            old(self)@.grid_wf(),
        ensures
            final(self)@ == (BoardState { field: old(self)@.disconnect_each(), ..old(self)@ }),
    {
        let ghost before = self@;
        let ghost target = before.disconnect_each();
        proof {
            self.lemma_view_field();
        }
        let mut x: usize = 0;
        while x < GRID_SIZE
            invariant
                x <= GRID_SIZE,
                before.grid_wf(),
                target == before.disconnect_each(),
                self.changed_before(before, target, x as int, 0),
            decreases GRID_SIZE - x,
        {
            let mut y: usize = 0;
            while y < GRID_SIZE
                invariant
                    x < GRID_SIZE,
                    y <= GRID_SIZE,
                    before.grid_wf(),
                    target == before.disconnect_each(),
                    self.changed_before(before, target, x as int, y as int),
                decreases GRID_SIZE - y,
            {
                self.field[x][y].disconnect();
                y += 1;
            }
            x += 1;
        }
        proof {
            assert(self@.field =~~= target);
        }
    }

    /// Lets every point fall for one tick.
    pub fn update(&mut self)
        requires
            old(self)@.wf(),
        ensures
            final(self)@ == old(self)@.tick(),
            final(self)@.wf(),
    {
        let ghost before = self@;
        let ghost target = before.tick().field;
        proof {
            self.lemma_view_field();
        }
        let mut x: usize = 0;
        while x < GRID_SIZE
            invariant
                x <= GRID_SIZE,
                before.grid_wf(),
                target == before.tick().field,
                self.changed_before(before, target, x as int, 0),
            decreases GRID_SIZE - x,
        {
            let mut y: usize = 0;
            while y < GRID_SIZE
                invariant
                    x < GRID_SIZE,
                    y <= GRID_SIZE,
                    before.grid_wf(),
                    target == before.tick().field,
                    self.changed_before(before, target, x as int, y as int),
                decreases GRID_SIZE - y,
            {
                self.field[x][y].update();
                y += 1;
            }
            x += 1;
        }
        proof {
            assert(self@.field =~~= target);
            lemma_tick_wf(before);
        }
    }

    /// Some segment of the stroke starts at `center`.
    fn starts_segment(&self, center: Coordinates) -> (found: bool)
        ensures
            found == touches(self.segments@, center),
    {
        let mut i: usize = 0;
        while i < self.segments.len()
            invariant
                i <= self.segments@.len(),
                forall|k: int| 0 <= k < i ==> (#[trigger] self.segments@[k]).from != center,
            decreases self.segments@.len() - i,
        {
            if self.segments[i].from == center {
                return true;
            }
            i += 1;
        }
        false
    }

    /// Stepping onto `point` would take the stroke back by one point: the
    /// second segment starts there, or the only one does.
    fn is_previous(&self, point: &Point) -> (previous: bool)
        requires
            self@.segments.len() > 0,
        ensures
            previous == (self@.segments[if self@.segments.len() < 2 {
                0int
            } else {
                1int
            }].from == point.center),
    {
        let second_index: usize = if self.segments.len() < 2 {
            0
        } else {
            1
        };
        let from = self.segments[second_index];

        if from.from == point.center {
            return true;
        }
        false
    }

    /// The two points lie in cells that share an edge.
    fn is_siblings(first: &Point, second: &Point) -> (adjacent: bool)
        requires
            cell_of(first.center) is Some,
            cell_of(second.center) is Some,
        ensures
            adjacent == siblings(first.center, second.center),
    {
        let (x1, y1) = Board::coordinates_to_index(first.center).unwrap();
        let (x2, y2) = Board::coordinates_to_index(second.center).unwrap();

        if x1 == x2 && (y1 == y2 + 1 || y2 == y1 + 1) {
            return true;
        }
        if y1 == y2 && (x1 == x2 + 1 || x2 == x1 + 1) {
            return true;
        }
        false
    }

    /// The centre of the cell in column `x` and row `y`. The cell need not lie
    /// on the grid, but its centre must fit in `i32`.
    pub fn index_to_coordinates(x: usize, y: usize) -> (center: Coordinates)
        requires
            x * TILE_SIZE + TILE_SIZE / 2 + FIELD_OFFSET_LEFT <= i32::MAX,
            y * TILE_SIZE + TILE_SIZE / 2 + FIELD_OFFSET_TOP <= i32::MAX,
        ensures
            center == cell_center(x as int, y as int),
            center.x == x * TILE_SIZE + TILE_SIZE / 2 + FIELD_OFFSET_LEFT,
            center.y == y * TILE_SIZE + TILE_SIZE / 2 + FIELD_OFFSET_TOP,
    {
        let x: i32 = x as i32 * TILE_SIZE + TILE_SIZE / 2 + FIELD_OFFSET_LEFT;
        let y: i32 = y as i32 * TILE_SIZE + TILE_SIZE / 2 + FIELD_OFFSET_TOP;

        Coordinates { x, y }
    }

    /// The cell that holds `coordinates`, as column and row: the position
    /// less the field's offset, divided by the cell size and rounded down.
    /// There is none where either index falls outside the grid.
    pub fn coordinates_to_index(coordinates: Coordinates) -> (index: Option<(usize, usize)>)
        ensures
            index == cell_of(coordinates),
            index is Some <==> 0 <= column_of(coordinates) < GRID_SIZE && 0 <= row_of(coordinates)
                < GRID_SIZE,
            index matches Some((x, y)) ==> x == column_of(coordinates) && y == row_of(coordinates),
    {
        if coordinates.x < FIELD_OFFSET_LEFT || coordinates.y < FIELD_OFFSET_TOP {
            return None;
        }
        let x: i32 = (coordinates.x - FIELD_OFFSET_LEFT) / TILE_SIZE;
        let y: i32 = (coordinates.y - FIELD_OFFSET_TOP) / TILE_SIZE;

        if x >= GRID_SIZE as i32 || y >= GRID_SIZE as i32 {
            return None;
        }
        Some((x as usize, y as usize))
    }
}

} // verus!
