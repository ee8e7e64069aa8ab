//! What holds of the board's rules: the laws of the grid, of the gesture and
//! of the clearing, each proved of the functions that state the rules.

use vstd::prelude::*;
use crate::GRID_SIZE;
use crate::game::point::Point;
use crate::game::state::{
    cell_center, cell_of, is_center, new_points_before, new_points_in, siblings, touches,
    unconnected, Action, BoardState,
};
use crate::game::{Coordinates, Segment};

verus! {

/// Mapping a cell of the grid to its centre and back gives the cell.
pub proof fn lemma_center_round_trip(x: usize, y: usize)
    requires
        x < GRID_SIZE,
        y < GRID_SIZE,
    ensures
        cell_of(cell_center(x as int, y as int)) == Some((x, y)),
        is_center(cell_center(x as int, y as int)),
{
}

/// The unconnected points of the first `y + 1` points of a column are those
/// of the first `y`, followed by the point at `y` unless it is connected.
pub proof fn lemma_unconnected_step(column: Seq<Point>, y: int)
    requires
        0 <= y < column.len(),
    ensures
        unconnected(column.take(y + 1)) == if column[y].connected {
            unconnected(column.take(y))
        } else {
            unconnected(column.take(y)).push(column[y])
        },
{
    reveal(Seq::filter);
    assert(column.take(y + 1).drop_last() =~= column.take(y));
}

/// Every unconnected point of a column is a point of the column that is not
/// connected, and there are no more of them than the column has points.
pub proof fn lemma_unconnected_from_column(column: Seq<Point>, k: int)
    requires
        0 <= k < unconnected(column).len(),
    ensures
        unconnected(column).len() <= column.len(),
        !unconnected(column)[k].connected,
        exists|y: int| 0 <= y < column.len() && column[y] == unconnected(column)[k],
{
    let pred = |p: Point| !p.connected;
    column.lemma_filter_contains_rev(pred, unconnected(column)[k]);
}

/// A clearing replaces no fewer than zero and no more than all points of the
/// columns before `n`.
pub proof fn lemma_new_points_bounds(state: BoardState, n: int)
    requires
        state.grid_wf(),
        0 <= n <= GRID_SIZE,
    ensures
        0 <= new_points_before(state.field, n) <= n * GRID_SIZE,
    decreases n,
{
    if n > 0 {
        lemma_new_points_bounds(state, n - 1);
    }
}

/// A board that was just dealt is well formed.
pub proof fn lemma_dealt_wf(state: BoardState)
    requires
        state.dealt(),
    ensures
        state.wf(),
{
    assert forall|x: int, y: int| 0 <= x < GRID_SIZE && 0 <= y < GRID_SIZE implies {
        &&& (#[trigger] state.field[x][y]).wf()
        &&& state.field[x][y].center == cell_center(x, y)
    } by {}
}

/// Clearing a board with a well-formed grid leaves a well-formed board
/// without a gesture, on which no point is connected.
pub proof fn lemma_cleared_wf(state: BoardState, next: BoardState)
    requires
        state.grid_wf(),
        state.cleared_into(next),
    ensures
        next.wf(),
        next.all_disconnected(),
{
    assert forall|x: int, y: int| 0 <= x < GRID_SIZE && 0 <= y < GRID_SIZE implies {
        &&& (#[trigger] next.field[x][y]).wf()
        &&& next.field[x][y].center == cell_center(x, y)
        &&& !next.field[x][y].connected
    } by {
        let fresh = new_points_in(state.field[x]);
        if y >= fresh {
            lemma_unconnected_from_column(state.field[x], y - fresh);
        }
    }
}

/// A tick keeps a well-formed board well formed: the points fall where they
/// are shown, and stay where they are.
pub proof fn lemma_tick_wf(state: BoardState)
    requires
        state.wf(),
    ensures
        state.tick().wf(),
{
    let next = state.tick();
    assert forall|x: int, y: int| 0 <= x < GRID_SIZE && 0 <= y < GRID_SIZE implies {
        &&& (#[trigger] next.field[x][y]).wf()
        &&& next.field[x][y].center == cell_center(x, y)
    } by {}
}

/// Giving up the gesture on a board with a well-formed grid leaves a
/// well-formed board.
pub proof fn lemma_cancel_wf(state: BoardState)
    requires
        state.grid_wf(),
    ensures
        state.cancel().wf(),
{
    let next = state.cancel();
    assert forall|x: int, y: int| 0 <= x < GRID_SIZE && 0 <= y < GRID_SIZE implies {
        &&& (#[trigger] next.field[x][y]).wf()
        &&& next.field[x][y].center == cell_center(x, y)
    } by {}
}

/// A press and, with no drag in between, the release: unless the press has
/// given the stroke a second segment, this brings no new point and leaves no
/// point connected. On a board without a gesture it leaves the board as it
/// was.
pub proof fn lemma_click_release_cancels(state: BoardState, pos: Coordinates, next: BoardState)
    requires
        state.wf(),
        state.click(pos).segments.len() < 2,
        state.click(pos).released_into(next),
    ensures
        state.click(pos).release_count() == 0,
        next.all_disconnected(),
        next.segments.len() == 0,
        state.segments.len() == 0 ==> next == state,
{
    if state.segments.len() == 0 {
        assert(next.field =~~= state.field);
        assert(next.segments =~= state.segments);
    }
}

/// A drag changes no connected flag and not the number of segments, whatever
/// the colours, unless the pointer is in a cell that shares an edge with the
/// cell of the point that the stroke starts from.
pub proof fn lemma_drag_needs_siblings(state: BoardState, pos: Coordinates)
    requires
        state.wf(),
        state.segments.len() > 0 ==> !siblings(state.segments[0].from, pos),
    ensures
        state.drag(pos).field == state.field,
        state.drag(pos).segments.len() == state.segments.len(),
        state.drag(pos).closed_path == state.closed_path,
        state.drag(pos).current_color == state.current_color,
{
    if state.segments.len() > 0 && cell_of(pos) is Some {
        let (x, y) = cell_of(pos).unwrap();
        lemma_point_at_center(state, x as int, y as int);
    }
}

/// On a well-formed grid, the point under the centre of a cell is the point
/// of that cell.
pub proof fn lemma_point_at_center(state: BoardState, x: int, y: int)
    requires
        state.grid_wf(),
        0 <= x < GRID_SIZE,
        0 <= y < GRID_SIZE,
    ensures
        state.point_at(cell_center(x, y)) == state.field[x][y],
        state.point_at(state.field[x][y].center) == state.field[x][y],
        is_center(state.field[x][y].center),
{
    lemma_center_round_trip(x as usize, y as usize);
}

/// A press on a point of a board without a gesture starts one.
pub proof fn lemma_click_starts_gesture(state: BoardState, pos: Coordinates)
    requires
        state.wf(),
        state.segments.len() == 0,
        cell_of(pos) is Some,
    ensures
        state.click(pos).one_gesture(),
        state.click(pos).segments.len() == 1,
        !state.click(pos).closed_path,
{
    let next = state.click(pos);
    let (cx, cy) = cell_of(pos).unwrap();
    lemma_point_at_center(state, cx as int, cy as int);
    assert forall|x: int, y: int|
        0 <= x < GRID_SIZE && 0 <= y < GRID_SIZE && (#[trigger] next.field[x][y]).connected implies {
        &&& Some(next.field[x][y].color) == next.current_color
        &&& next.closed_path || touches(next.segments, next.field[x][y].center)
    } by {
        assert(next.segments[0].from == next.field[x][y].center);
    }
}

/// A drag keeps the stroke that of one gesture.
pub proof fn lemma_drag_keeps_gesture(state: BoardState, pos: Coordinates)
    requires
        state.one_gesture(),
    ensures
        state.drag(pos).one_gesture(),
{
    let tipped = state.follow(pos);
    lemma_follow_keeps_gesture(state, pos);
    if cell_of(pos) is Some {
        let next = state.point_at(pos);
        let prev = state.point_at(state.segments[0].from);
        let (nx, ny) = cell_of(pos).unwrap();
        lemma_point_at_center(state, nx as int, ny as int);
        match tipped.action(prev, next) {
            Action::Connect => {
                lemma_connect_keeps_gesture(tipped, next.center);
            },
            Action::Disconnect => {
                lemma_disconnect_keeps_gesture(tipped);
            },
            Action::Nothing => {},
        }
    }
}

/// The tip may follow the pointer: the stroke stays that of one gesture.
pub proof fn lemma_follow_keeps_gesture(state: BoardState, pos: Coordinates)
    requires
        state.one_gesture(),
    ensures
        state.follow(pos).one_gesture(),
{
    let next = state.follow(pos);
    assert(next.segments.skip(1) =~= state.segments.skip(1));
    assert forall|x: int, y: int|
        0 <= x < GRID_SIZE && 0 <= y < GRID_SIZE && (#[trigger] next.field[x][y]).connected implies {
        &&& Some(next.field[x][y].color) == next.current_color
        &&& next.closed_path || touches(next.segments, next.field[x][y].center)
    } by {
        if !state.closed_path {
            let i = choose|i: int|
                0 <= i < state.segments.len() && (#[trigger] state.segments[i]).from
                    == state.field[x][y].center;
            assert(next.segments[i].from == next.field[x][y].center);
        }
    }
}

/// The stroke may take a point of the gesture's colour: it stays that of one
/// gesture.
pub proof fn lemma_connect_keeps_gesture(state: BoardState, next: Coordinates)
    requires
        state.one_gesture(),
        is_center(next),
        Some(state.point_at(next).color) == state.current_color,
    ensures
        state.connect(next).one_gesture(),
{
    if !state.closed_path {
        let after = state.connect(next);
        let (nx, ny) = cell_of(next).unwrap();
        if after.closed_path {
            // The point was connected, so a segment starts from it.
            let i = choose|i: int|
                0 <= i < state.segments.len() && (#[trigger] state.segments[i]).from == next;
            assert(after.segments.skip(1)[i].from == next);
        }
        assert forall|i: int| 0 <= i < after.segments.len() implies {
            &&& after.point_at((#[trigger] after.segments[i]).from).connected
            &&& Some(after.point_at(after.segments[i].from).color) == after.current_color
        } by {}
        assert forall|x: int, y: int|
            0 <= x < GRID_SIZE && 0 <= y < GRID_SIZE && (
            #[trigger] after.field[x][y]).connected implies {
            &&& Some(after.field[x][y].color) == after.current_color
            &&& after.closed_path || touches(after.segments, after.field[x][y].center)
        } by {
            if !after.closed_path {
                if x == nx && y == ny {
                    assert(after.segments[0].from == after.field[x][y].center);
                } else {
                    let i = choose|i: int|
                        0 <= i < state.segments.len() && (#[trigger] state.segments[i]).from
                            == state.field[x][y].center;
                    assert(after.segments[i + 1].from == after.field[x][y].center);
                }
            }
        }
    }
}

/// The stroke may step back by one point: it stays that of one gesture.
pub proof fn lemma_disconnect_keeps_gesture(state: BoardState)
    requires
        state.one_gesture(),
    ensures
        state.disconnect(state.segments[0].from).one_gesture(),
{
    let next = state.segments[0].from;
    if state.segments.len() >= 2 {
        let after = state.disconnect(next);
        assert forall|i: int| 0 <= i < after.segments.len() implies {
            &&& after.point_at((#[trigger] after.segments[i]).from).connected
            &&& Some(after.point_at(after.segments[i].from).color) == after.current_color
        } by {}
        assert forall|x: int, y: int|
            0 <= x < GRID_SIZE && 0 <= y < GRID_SIZE && (
            #[trigger] after.field[x][y]).connected implies {
            &&& Some(after.field[x][y].color) == after.current_color
            &&& touches(after.segments, after.field[x][y].center)
        } by {
            lemma_point_at_center(state, x, y);
            if !state.closed_path {
                let i = choose|i: int|
                    0 <= i < state.segments.len() && (#[trigger] state.segments[i]).from
                        == state.field[x][y].center;
                assert(after.segments[i - 1].from == state.field[x][y].center);
            }
        }
    }
}

/// A drag onto an unconnected point that the stroke can take, and a drag back
/// into the cell it came from: all that is left of the two is that the tip has
/// followed the pointer.
pub proof fn lemma_drag_there_and_back(state: BoardState, there: Coordinates, back: Coordinates)
    requires
        state.wf(),
        state.segments.len() > 0,
        !state.closed_path,
        cell_of(there) is Some,
        cell_of(back) == cell_of(state.segments[0].from),
        state.follow(there).action(state.point_at(state.segments[0].from), state.point_at(there))
            == Action::Connect,
        !state.point_at(there).connected,
    ensures
        state.drag(there).segments.len() == state.segments.len() + 1,
        state.drag(there).point_at(there).connected,
        state.drag(there).drag(back) == state.follow(back),
        state.drag(there).drag(back).segments.len() == state.segments.len(),
        state.drag(there).drag(back).field == state.field,
{
    let (px, py) = cell_of(state.segments[0].from).unwrap();
    let (nx, ny) = cell_of(there).unwrap();
    lemma_center_round_trip(nx, ny);
    lemma_center_round_trip(px, py);

    let home = state.drag(there).drag(back);
    assert(home.segments =~= state.follow(back).segments);
    assert(home.field =~~= state.field);
}

/// Connecting the point under `next` and leaving it again at once, on a
/// stroke that has not closed a loop, restores the number of segments, and
/// every connected flag unless the connect closed a loop. After a loop was
/// closed and left, the flags of the points of other colours are restored.
pub proof fn lemma_connect_disconnect(state: BoardState, next: Coordinates)
    requires
        state.grid_wf(),
        !state.closed_path,
    ensures
        state.connect(next).disconnect(next).segments.len() == state.segments.len(),
        state.segments.len() > 0 && cell_of(next) is Some ==> state.connect(next).disconnect(
            next,
        ).segments == state.segments.update(0, Segment { from: state.segments[0].from, to: next }),
        !state.connect(next).disconnect(next).closed_path,
        state.connect(next).disconnect(next).current_color == state.current_color,
        state.segments.len() == 0 || cell_of(next) is None || !state.point_at(next).connected
            ==> state.connect(next).disconnect(next).field == state.field,
        forall|x: int, y: int|
            0 <= x < GRID_SIZE && 0 <= y < GRID_SIZE && cell_of(next) is Some
                && state.field[x][y].color != state.point_at(next).color
                ==> #[trigger] state.connect(next).disconnect(next).field[x][y]
                == state.field[x][y],
{
    if state.segments.len() > 0 && cell_of(next) is Some {
        assert(state.connect(next).disconnect(next).segments =~= state.segments.update(
            0,
            Segment { from: state.segments[0].from, to: next },
        ));
        if !state.point_at(next).connected {
            assert(state.connect(next).disconnect(next).field =~~= state.field);
        }
    }
}

/// Within one gesture, taking a point and leaving it again at once restores
/// every connected flag and the number of segments, also where taking the
/// point closed a loop.
pub proof fn lemma_connect_disconnect_in_gesture(state: BoardState, next: Coordinates)
    requires
        state.one_gesture(),
        !state.closed_path,
        is_center(next),
        Some(state.point_at(next).color) == state.current_color,
    ensures
        state.connect(next).disconnect(next).field == state.field,
        state.connect(next).disconnect(next).segments.len() == state.segments.len(),
        !state.connect(next).disconnect(next).closed_path,
{
    lemma_connect_disconnect(state, next);
    if state.point_at(next).connected {
        let there = state.connect(next);
        let back = there.disconnect(next);
        let color = state.point_at(next).color;
        assert forall|x: int, y: int|
            0 <= x < GRID_SIZE && 0 <= y < GRID_SIZE implies back.field[x][y]
            == state.field[x][y] by {
            let p = state.field[x][y];
            lemma_point_at_center(state, x, y);
            if p.color == color {
                if touches(back.segments, p.center) {
                    let i = choose|i: int|
                        0 <= i < back.segments.len() && (#[trigger] back.segments[i]).from
                            == p.center;
                    assert(state.segments[i].from == p.center);
                } else {
                    if p.connected {
                        let i = choose|i: int|
                            0 <= i < state.segments.len() && (#[trigger] state.segments[i]).from
                                == p.center;
                        assert(back.segments[i].from == p.center);
                    }
                }
            }
        }
        assert(back.field =~~= state.field);
    }
}

/// Clearing conserves every column: the unconnected points and the new ones
/// together fill it, the new ones lie on top, and below them the unconnected
/// points keep their order.
pub proof fn lemma_clearing_conserves(state: BoardState, next: BoardState, x: int)
    requires
        state.grid_wf(),
        state.cleared_into(next),
        0 <= x < GRID_SIZE,
    ensures
        0 <= new_points_in(state.field[x]) <= GRID_SIZE,
        unconnected(state.field[x]).len() + new_points_in(state.field[x]) == GRID_SIZE,
        next.field[x].len() == GRID_SIZE,
        forall|k: int|
            0 <= k < unconnected(state.field[x]).len() ==> {
                &&& (#[trigger] next.field[x][new_points_in(state.field[x]) + k]).color
                    == unconnected(state.field[x])[k].color
                &&& next.field[x][new_points_in(state.field[x]) + k] == unconnected(
                    state.field[x],
                )[k].moved_to(cell_center(x, new_points_in(state.field[x]) + k))
            },
{
}

} // verus!
