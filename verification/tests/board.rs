use dots::game::board::{Board, Snapshot};
use dots::game::color::{idle_stroke, Color, PALETTE_SIZE};
use dots::game::point::Point;
use dots::game::{Coordinates, Segment};
use dots::GRID_SIZE;
use rand::rngs::StdRng;
use rand::{Rng, SeedableRng};

fn center(x: usize, y: usize) -> Coordinates {
    Board::index_to_coordinates(x, y)
}

fn color(snapshot: &Snapshot, x: usize, y: usize) -> Color {
    snapshot.field[x][y].color
}

fn click(board: &mut Board, pos: Coordinates) {
    board.handle_click(pos.x, pos.y);
}

fn drag(board: &mut Board, pos: Coordinates) {
    board.handle_move(pos.x, pos.y);
}

fn connected(snapshot: &Snapshot) -> Vec<(usize, usize)> {
    let mut cells = Vec::new();
    for x in 0..GRID_SIZE {
        for y in 0..GRID_SIZE {
            if snapshot.field[x][y].connected {
                cells.push((x, y));
            }
        }
    }
    cells
}

fn same(a: &Snapshot, b: &Snapshot) -> bool {
    a.field == b.field
        && a.segments == b.segments
        && a.closed_path == b.closed_path
        && a.current_color == b.current_color
}

/// The seed of the first board whose colours `pick` accepts.
fn seed_where(pick: fn(&Snapshot) -> bool) -> u64 {
    for seed in 0..1_000_000u64 {
        let board = Board::new(StdRng::seed_from_u64(seed));
        if pick(&board.snapshot()) {
            return seed;
        }
    }
    panic!("no board found");
}

fn board_where(pick: fn(&Snapshot) -> bool) -> Board {
    Board::new(StdRng::seed_from_u64(seed_where(pick)))
}

/// A generator in the state in which a board made from `seed` holds its own
/// after it was dealt.
fn twin_after_deal(seed: u64) -> StdRng {
    let mut twin = StdRng::seed_from_u64(seed);
    for _ in 0..GRID_SIZE * GRID_SIZE {
        let _: usize = twin.gen_range(0, PALETTE_SIZE);
    }
    twin
}

#[test]
fn new_board_is_dealt_from_the_generator() {
    for seed in 0..20u64 {
        let board = Board::new(StdRng::seed_from_u64(seed));
        let snapshot = board.snapshot();
        let mut twin = StdRng::seed_from_u64(seed);

        assert_eq!(snapshot.field.len(), 5);
        for x in 0..GRID_SIZE {
            assert_eq!(snapshot.field[x].len(), 5);
            for y in 0..GRID_SIZE {
                let offset: usize = twin.gen_range(0, PALETTE_SIZE);
                assert_eq!(snapshot.field[x][y], Point::with_palette_offset(center(x, y), offset));
            }
        }
        assert!(snapshot.segments.is_empty());
        assert!(!snapshot.closed_path);
        assert_eq!(snapshot.current_color, None);
    }
}

#[test]
fn boards_from_different_seeds_differ() {
    let a = Board::new(StdRng::seed_from_u64(1)).snapshot();
    let b = Board::new(StdRng::seed_from_u64(2)).snapshot();
    assert!(a.field != b.field);
}

#[test]
fn click_off_the_grid_does_nothing() {
    let mut board = Board::new(StdRng::seed_from_u64(5));
    let before = board.snapshot();
    click(&mut board, Coordinates { x: 10, y: 10 });
    click(&mut board, Coordinates { x: 49, y: 130 });
    click(&mut board, Coordinates { x: 350, y: 130 });
    click(&mut board, Coordinates { x: -80, y: -130 });
    assert!(same(&board.snapshot(), &before));
}

#[test]
fn click_on_a_point_starts_a_gesture() {
    let mut board = Board::new(StdRng::seed_from_u64(5));
    let before = board.snapshot();
    click(&mut board, Coordinates { x: 215, y: 300 });

    let after = board.snapshot();
    assert_eq!(connected(&after), vec![(2, 3)]);
    assert_eq!(after.current_color, Some(color(&before, 2, 3)));
    assert_eq!(
        after.segments,
        vec![Segment { from: Coordinates { x: 200, y: 310 }, to: Coordinates { x: 215, y: 300 } }]
    );
    assert!(!after.closed_path);
    for x in 0..GRID_SIZE {
        for y in 0..GRID_SIZE {
            let expected = Point { connected: (x, y) == (2, 3), ..before.field[x][y] };
            assert_eq!(after.field[x][y], expected);
        }
    }
}

#[test]
fn click_then_release_gives_the_gesture_up() {
    for seed in 0..10u64 {
        for x in 0..GRID_SIZE {
            for y in 0..GRID_SIZE {
                let mut board = Board::new(StdRng::seed_from_u64(seed));
                let before = board.snapshot();
                click(&mut board, center(x, y));
                assert_eq!(board.handle_raise(), 0);
                let after = board.snapshot();
                assert!(connected(&after).is_empty());
                assert!(same(&after, &before));
            }
        }
    }
}

#[test]
fn release_without_a_gesture_changes_nothing() {
    let mut board = Board::new(StdRng::seed_from_u64(8));
    let before = board.snapshot();
    assert_eq!(board.handle_raise(), 0);
    assert!(same(&board.snapshot(), &before));
    click(&mut board, Coordinates { x: 0, y: 0 });
    assert_eq!(board.handle_raise(), 0);
    assert!(same(&board.snapshot(), &before));
}

#[test]
fn drag_without_a_gesture_does_nothing() {
    let mut board = Board::new(StdRng::seed_from_u64(8));
    let before = board.snapshot();
    drag(&mut board, center(0, 0));
    drag(&mut board, center(1, 0));
    drag(&mut board, Coordinates { x: 3, y: 3 });
    assert!(same(&board.snapshot(), &before));
}

#[test]
fn drag_moves_the_tip_of_the_stroke() {
    let mut board = Board::new(StdRng::seed_from_u64(8));
    click(&mut board, center(1, 1));
    let pressed = board.snapshot();

    drag(&mut board, Coordinates { x: 7, y: 9 });
    let after = board.snapshot();
    assert_eq!(after.segments, vec![Segment { from: center(1, 1), to: Coordinates { x: 7, y: 9 } }]);
    assert_eq!(after.field, pressed.field);

    // Within the cell of the point the stroke starts from, only the tip moves.
    drag(&mut board, Coordinates { x: 150, y: 170 });
    let after = board.snapshot();
    assert_eq!(
        after.segments,
        vec![Segment { from: center(1, 1), to: Coordinates { x: 150, y: 170 } }]
    );
    assert_eq!(after.field, pressed.field);
    assert_eq!(after.current_color, pressed.current_color);
}

#[test]
fn drag_to_a_sibling_of_the_same_color_connects() {
    let mut board = board_where(|s| color(s, 0, 0) == color(s, 1, 0));
    click(&mut board, center(0, 0));
    let pos = Coordinates { x: 150, y: 120 };
    drag(&mut board, pos);

    let after = board.snapshot();
    assert_eq!(connected(&after), vec![(0, 0), (1, 0)]);
    assert_eq!(
        after.segments,
        vec![
            Segment { from: center(1, 0), to: center(1, 0) },
            Segment { from: center(0, 0), to: center(1, 0) },
        ]
    );
    assert!(!after.closed_path);
    assert_eq!(after.current_color, Some(color(&after, 0, 0)));
}

#[test]
fn drag_down_a_column_connects() {
    let mut board = board_where(|s| color(s, 3, 2) == color(s, 3, 3));
    click(&mut board, center(3, 3));
    drag(&mut board, center(3, 2));
    let after = board.snapshot();
    assert_eq!(connected(&after), vec![(3, 2), (3, 3)]);
    assert_eq!(after.segments.len(), 2);
}

#[test]
fn drag_to_a_sibling_of_another_color_does_not_connect() {
    let mut board = board_where(|s| color(s, 0, 0) != color(s, 1, 0));
    click(&mut board, center(0, 0));
    let pressed = board.snapshot();
    drag(&mut board, center(1, 0));

    let after = board.snapshot();
    assert_eq!(after.field, pressed.field);
    assert_eq!(after.segments, vec![Segment { from: center(0, 0), to: center(1, 0) }]);
}

#[test]
fn drag_to_a_distant_point_of_the_same_color_does_not_connect() {
    let mut board = board_where(|s| {
        color(s, 0, 0) == color(s, 2, 0)
            && color(s, 0, 0) == color(s, 0, 3)
            && color(s, 0, 0) == color(s, 4, 4)
    });
    click(&mut board, center(0, 0));
    let pressed = board.snapshot();

    for target in [center(2, 0), center(0, 3), center(4, 4)] {
        drag(&mut board, target);
        let after = board.snapshot();
        assert_eq!(after.field, pressed.field);
        assert_eq!(after.segments.len(), 1);
        assert_eq!(after.segments, vec![Segment { from: center(0, 0), to: target }]);
        assert!(!after.closed_path);
    }
}

#[test]
fn drag_to_a_diagonal_point_of_the_same_color_does_not_connect() {
    let mut board = board_where(|s| color(s, 1, 1) == color(s, 2, 2) && color(s, 1, 1) == color(s, 0, 2));
    click(&mut board, center(1, 1));
    let pressed = board.snapshot();
    drag(&mut board, center(2, 2));
    drag(&mut board, center(0, 2));
    let after = board.snapshot();
    assert_eq!(after.field, pressed.field);
    assert_eq!(after.segments.len(), 1);
}

#[test]
fn drag_back_retracts_the_stroke() {
    let mut board = board_where(|s| color(s, 0, 0) == color(s, 1, 0));
    click(&mut board, center(0, 0));
    let pressed = board.snapshot();
    drag(&mut board, center(1, 0));
    assert_eq!(board.snapshot().segments.len(), 2);
    drag(&mut board, center(0, 0));

    let after = board.snapshot();
    assert_eq!(after.field, pressed.field);
    assert_eq!(connected(&after), vec![(0, 0)]);
    assert_eq!(after.segments, vec![Segment { from: center(0, 0), to: center(0, 0) }]);
    assert!(!after.closed_path);
    assert_eq!(after.current_color, pressed.current_color);

    // With one segment left there is nothing to retract, and the release
    // gives the gesture up.
    assert_eq!(board.handle_raise(), 0);
    assert!(connected(&board.snapshot()).is_empty());
}

#[test]
fn drag_back_retracts_one_point_of_a_longer_stroke() {
    let mut board =
        board_where(|s| color(s, 0, 0) == color(s, 1, 0) && color(s, 0, 0) == color(s, 2, 0));
    click(&mut board, center(0, 0));
    drag(&mut board, center(1, 0));
    let two = board.snapshot();
    drag(&mut board, center(2, 0));
    assert_eq!(connected(&board.snapshot()), vec![(0, 0), (1, 0), (2, 0)]);
    assert_eq!(board.snapshot().segments.len(), 3);

    drag(&mut board, center(1, 0));
    let after = board.snapshot();
    assert_eq!(after.field, two.field);
    assert_eq!(
        after.segments,
        vec![
            Segment { from: center(1, 0), to: center(1, 0) },
            Segment { from: center(0, 0), to: center(1, 0) },
        ]
    );
}

#[test]
fn release_clears_three_connected_points_in_a_row() {
    let pick: fn(&Snapshot) -> bool =
        |s| color(s, 0, 0) == color(s, 1, 0) && color(s, 0, 0) == color(s, 2, 0);
    let seed = seed_where(pick);
    let mut board = Board::new(StdRng::seed_from_u64(seed));
    let mut twin = twin_after_deal(seed);
    let before = board.snapshot();

    click(&mut board, center(0, 0));
    drag(&mut board, center(1, 0));
    drag(&mut board, center(2, 0));
    assert_eq!(board.snapshot().segments.len(), 3);
    assert_eq!(board.handle_raise(), 3);

    let after = board.snapshot();
    assert!(after.segments.is_empty());
    assert!(!after.closed_path);
    assert_eq!(after.current_color, None);
    assert!(connected(&after).is_empty());
    for x in 0..GRID_SIZE {
        for y in 0..GRID_SIZE {
            if x < 3 && y == 0 {
                let offset: usize = twin.gen_range(0, PALETTE_SIZE);
                assert_eq!(after.field[x][y], Point::with_palette_offset(center(x, y), offset));
            } else {
                assert_eq!(after.field[x][y], before.field[x][y]);
            }
        }
    }
}

#[test]
fn release_clears_two_points_when_the_third_has_another_color() {
    let mut board =
        board_where(|s| color(s, 0, 0) == color(s, 1, 0) && color(s, 0, 0) != color(s, 2, 0));
    let before = board.snapshot();

    click(&mut board, center(0, 0));
    drag(&mut board, center(1, 0));
    drag(&mut board, center(2, 0));
    assert_eq!(board.snapshot().segments.len(), 2);
    assert_eq!(board.handle_raise(), 2);

    let after = board.snapshot();
    assert!(after.segments.is_empty());
    for x in 0..GRID_SIZE {
        for y in 0..GRID_SIZE {
            if x < 2 && y == 0 {
                assert_eq!(after.field[x][y].center, center(x, y));
                assert_eq!(after.field[x][y].transition_center.y, center(x, y).y - 400);
                assert!(!after.field[x][y].connected);
            } else {
                assert_eq!(after.field[x][y], before.field[x][y]);
            }
        }
    }
}

#[test]
fn release_lets_the_points_above_fall_in_their_order() {
    let pick: fn(&Snapshot) -> bool = |s| color(s, 2, 2) == color(s, 2, 3);
    let seed = seed_where(pick);
    let mut board = Board::new(StdRng::seed_from_u64(seed));
    let mut twin = twin_after_deal(seed);
    let before = board.snapshot();

    click(&mut board, center(2, 2));
    drag(&mut board, center(2, 3));
    assert_eq!(board.handle_raise(), 2);

    let after = board.snapshot();
    for x in 0..GRID_SIZE {
        if x != 2 {
            assert_eq!(after.field[x], before.field[x]);
        }
    }
    let column = &after.field[2];
    // Two new points on top, in the order in which they were drawn.
    for y in 0..2 {
        let offset: usize = twin.gen_range(0, PALETTE_SIZE);
        assert_eq!(column[y], Point::with_palette_offset(center(2, y), offset));
    }
    // The two points from the top have fallen by two rows; they are still
    // shown where they were.
    for y in 2..4 {
        let old = before.field[2][y - 2];
        assert_eq!(column[y], Point { center: center(2, y), ..old });
        assert_eq!(column[y].transition_center, old.transition_center);
    }
    // The point at the bottom has stayed.
    assert_eq!(column[4], before.field[2][4]);
}

#[test]
fn release_keeps_every_column_full() {
    let mut board = board_where(|s| {
        color(s, 1, 4) == color(s, 1, 3)
            && color(s, 1, 3) == color(s, 2, 3)
            && color(s, 2, 3) == color(s, 2, 2)
    });
    let before = board.snapshot();
    click(&mut board, center(1, 4));
    drag(&mut board, center(1, 3));
    drag(&mut board, center(2, 3));
    drag(&mut board, center(2, 2));
    let marked = connected(&board.snapshot());
    assert_eq!(marked, vec![(1, 3), (1, 4), (2, 2), (2, 3)]);
    assert_eq!(board.handle_raise(), 4);

    let after = board.snapshot();
    for x in 0..GRID_SIZE {
        assert_eq!(after.field[x].len(), GRID_SIZE);
        let survivors: Vec<Point> = (0..GRID_SIZE)
            .filter(|y| !marked.contains(&(x, *y)))
            .map(|y| before.field[x][y])
            .collect();
        let fresh = GRID_SIZE - survivors.len();
        assert_eq!(fresh, if x == 1 || x == 2 { 2 } else { 0 });
        for y in 0..GRID_SIZE {
            assert_eq!(after.field[x][y].center, center(x, y));
            assert!(!after.field[x][y].connected);
            if y >= fresh {
                assert_eq!(after.field[x][y], Point { center: center(x, y), ..survivors[y - fresh] });
            }
        }
    }
}

#[test]
fn stroke_that_returns_to_its_start_closes_a_loop() {
    let mut board = board_where(|s| {
        color(s, 0, 0) == color(s, 1, 0)
            && color(s, 0, 0) == color(s, 1, 1)
            && color(s, 0, 0) == color(s, 0, 1)
    });
    let before = board.snapshot();
    let same_color: Vec<(usize, usize)> = (0..GRID_SIZE)
        .flat_map(|x| (0..GRID_SIZE).map(move |y| (x, y)))
        .filter(|(x, y)| color(&before, *x, *y) == color(&before, 0, 0))
        .collect();

    click(&mut board, center(0, 0));
    drag(&mut board, center(1, 0));
    drag(&mut board, center(1, 1));
    drag(&mut board, center(0, 1));
    let open = board.snapshot();
    assert!(!open.closed_path);
    assert_eq!(connected(&open), vec![(0, 0), (0, 1), (1, 0), (1, 1)]);

    drag(&mut board, center(0, 0));
    let closed = board.snapshot();
    assert!(closed.closed_path);
    assert_one_gesture(&closed);
    assert_eq!(connected(&closed), same_color);
    assert_eq!(
        closed.segments,
        vec![
            Segment { from: center(0, 0), to: center(0, 0) },
            Segment { from: center(0, 1), to: center(0, 0) },
            Segment { from: center(1, 1), to: center(0, 1) },
            Segment { from: center(1, 0), to: center(1, 1) },
            Segment { from: center(0, 0), to: center(1, 0) },
        ]
    );

    // A closed loop takes no further point, and its tip stays on its start.
    drag(&mut board, center(1, 0));
    let locked = board.snapshot();
    assert!(same(&locked, &closed));
    drag(&mut board, Coordinates { x: 1, y: 1 });
    assert!(same(&board.snapshot(), &closed));

    // Stepping back leaves the loop: the points on the stroke stay connected.
    drag(&mut board, center(0, 1));
    let left = board.snapshot();
    assert_one_gesture(&left);
    assert!(!left.closed_path);
    assert_eq!(connected(&left), vec![(0, 0), (0, 1), (1, 0), (1, 1)]);
    assert_eq!(
        left.segments,
        vec![
            Segment { from: center(0, 1), to: center(0, 0) },
            Segment { from: center(1, 1), to: center(0, 1) },
            Segment { from: center(1, 0), to: center(1, 1) },
            Segment { from: center(0, 0), to: center(1, 0) },
        ]
    );
}

#[test]
fn release_of_a_closed_loop_clears_every_point_of_its_color() {
    let mut board = board_where(|s| {
        color(s, 3, 3) == color(s, 4, 3)
            && color(s, 3, 3) == color(s, 4, 4)
            && color(s, 3, 3) == color(s, 3, 4)
    });
    let before = board.snapshot();
    let mut of_color = 0;
    for x in 0..GRID_SIZE {
        for y in 0..GRID_SIZE {
            if color(&before, x, y) == color(&before, 3, 3) {
                of_color += 1;
            }
        }
    }
    click(&mut board, center(3, 3));
    drag(&mut board, center(4, 3));
    drag(&mut board, center(4, 4));
    drag(&mut board, center(3, 4));
    drag(&mut board, center(3, 3));
    assert!(board.snapshot().closed_path);
    assert_eq!(board.handle_raise(), of_color);

    let after = board.snapshot();
    assert!(!after.closed_path);
    assert!(after.segments.is_empty());
    assert_eq!(after.current_color, None);
    assert!(connected(&after).is_empty());
}

#[test]
fn second_click_puts_a_segment_in_front_of_the_stroke() {
    let mut board = board_where(|s| color(s, 0, 0) != color(s, 4, 4));
    let before = board.snapshot();
    click(&mut board, center(0, 0));
    click(&mut board, Coordinates { x: 330, y: 360 });

    let after = board.snapshot();
    assert_eq!(connected(&after), vec![(0, 0), (4, 4)]);
    assert_eq!(after.current_color, Some(color(&before, 4, 4)));
    assert_eq!(
        after.segments,
        vec![
            Segment { from: center(4, 4), to: Coordinates { x: 330, y: 360 } },
            Segment { from: center(0, 0), to: center(0, 0) },
        ]
    );
    assert_eq!(board.handle_raise(), 2);
}

#[test]
fn render_lists_the_stroke_and_every_point() {
    let mut board = board_where(|s| color(s, 0, 0) == color(s, 0, 1));
    let idle = board.render();
    let snapshot = board.snapshot();
    assert_eq!(idle.stroke, idle_stroke());
    assert!(idle.lines.is_empty());
    assert_eq!(idle.sprites.len(), 25);
    for x in 0..GRID_SIZE {
        for y in 0..GRID_SIZE {
            assert_eq!(idle.sprites[x * GRID_SIZE + y], snapshot.field[x][y].render());
        }
    }
    assert_eq!(idle.sprites[0].target.x, 64);
    assert_eq!(idle.sprites[0].target.y, 130 - 400 - 16);
    assert_eq!(idle.sprites[7].target.x, 80 + 60 - 16);
    assert_eq!(idle.sprites[7].target.y, 130 + 2 * 60 - 400 - 16);

    click(&mut board, center(0, 0));
    drag(&mut board, center(0, 1));
    drag(&mut board, Coordinates { x: 5, y: 6 });
    let scene = board.render();
    let snapshot = board.snapshot();
    assert_eq!(scene.stroke, color(&snapshot, 0, 0));
    assert_eq!(
        scene.lines,
        vec![
            Segment { from: center(0, 1), to: Coordinates { x: 5, y: 6 } },
            Segment { from: center(0, 0), to: center(0, 1) },
        ]
    );
    assert_eq!(scene.sprites[0].source.y, 32);
    assert_eq!(scene.sprites[1].source.y, 32);
    assert_eq!(scene.sprites[2].source.y, 0);
}

#[test]
fn update_lets_every_point_fall() {
    let mut board = Board::new(StdRng::seed_from_u64(4));
    click(&mut board, center(2, 2));
    let before = board.snapshot();
    board.update();
    board.update();
    let after = board.snapshot();
    assert_eq!(after.segments, before.segments);
    assert_eq!(after.current_color, before.current_color);
    for x in 0..GRID_SIZE {
        for y in 0..GRID_SIZE {
            let mut point = before.field[x][y];
            point.update();
            point.update();
            assert_eq!(after.field[x][y], point);
            assert_eq!(point.speed, 4);
            assert_eq!(point.transition_center.y, center(x, y).y - 400 + 2);
        }
    }
}

#[test]
fn fallen_point_is_shown_falling_from_where_it_was() {
    let mut board = board_where(|s| color(s, 2, 3) == color(s, 2, 4));
    for _ in 0..30 {
        board.update();
    }
    let rested = board.snapshot();
    assert_eq!(rested.field[2][0].transition_center, center(2, 0));

    click(&mut board, center(2, 3));
    drag(&mut board, center(2, 4));
    assert_eq!(board.handle_raise(), 2);
    let cleared = board.snapshot();
    assert_eq!(cleared.field[2][2].center, center(2, 2));
    assert_eq!(cleared.field[2][2].transition_center, center(2, 0));
    assert_eq!(cleared.field[2][2].color, rested.field[2][0].color);

    // 0 + 2 + ... + 20 = 110 after eleven ticks; the twelfth would pass the
    // ten pixels that are left.
    for _ in 0..11 {
        board.update();
    }
    assert_eq!(board.snapshot().field[2][2].transition_center.y, center(2, 0).y + 110);
    board.update();
    assert_eq!(board.snapshot().field[2][2].transition_center, center(2, 2));
}

/// What holds of a stroke from its press on, whatever the pointer does.
fn assert_one_gesture(snapshot: &Snapshot) {
    assert!(!snapshot.segments.is_empty());
    let color = snapshot.current_color.unwrap();
    let first = if snapshot.closed_path { 1 } else { 0 };
    for (i, segment) in snapshot.segments.iter().enumerate() {
        let (x, y) = Board::coordinates_to_index(segment.from).unwrap();
        assert_eq!(center(x, y), segment.from);
        assert!(snapshot.field[x][y].connected);
        assert_eq!(snapshot.field[x][y].color, color);
        for other in snapshot.segments.iter().skip(i + 1) {
            if i >= first {
                assert!(segment.from != other.from);
            }
        }
    }
    if snapshot.closed_path {
        assert!(snapshot.segments.len() >= 2);
        let start = snapshot.segments[0].from;
        assert!(snapshot.segments.iter().skip(1).any(|segment| segment.from == start));
    }
    for x in 0..GRID_SIZE {
        for y in 0..GRID_SIZE {
            let point = snapshot.field[x][y];
            let on_stroke = snapshot.segments.iter().any(|segment| segment.from == point.center);
            if point.connected {
                assert_eq!(point.color, color);
                assert!(snapshot.closed_path || on_stroke);
            }
            if snapshot.closed_path && point.color == color {
                assert!(point.connected);
            }
        }
    }
}

#[test]
fn wandering_pointer_keeps_the_stroke_that_of_one_gesture() {
    let mut longest = 0;
    for seed in 0..300u64 {
        let mut board = Board::new(StdRng::seed_from_u64(seed));
        let mut pointer = StdRng::seed_from_u64(seed + 1000);
        let dealt = board.snapshot();

        let mut x: usize = pointer.gen_range(0, GRID_SIZE);
        let mut y: usize = pointer.gen_range(0, GRID_SIZE);
        click(&mut board, center(x, y));
        assert_one_gesture(&board.snapshot());

        for _ in 0..60 {
            // One step to a neighbouring cell, or a jump to any position.
            let pos = match pointer.gen_range(0, 6) {
                0 if x > 0 => {
                    x -= 1;
                    center(x, y)
                }
                1 if x + 1 < GRID_SIZE => {
                    x += 1;
                    center(x, y)
                }
                2 if y > 0 => {
                    y -= 1;
                    center(x, y)
                }
                3 if y + 1 < GRID_SIZE => {
                    y += 1;
                    center(x, y)
                }
                _ => {
                    let pos = Coordinates {
                        x: pointer.gen_range(0, 400),
                        y: pointer.gen_range(0, 420),
                    };
                    if let Some((cx, cy)) = Board::coordinates_to_index(pos) {
                        x = cx;
                        y = cy;
                    }
                    pos
                }
            };
            drag(&mut board, pos);
            let snapshot = board.snapshot();
            assert_one_gesture(&snapshot);
            longest = longest.max(snapshot.segments.len());
            // A drag changes nothing of a point but its flag.
            for cx in 0..GRID_SIZE {
                for cy in 0..GRID_SIZE {
                    let point = snapshot.field[cx][cy];
                    assert_eq!(Point { connected: false, ..point }, dealt.field[cx][cy]);
                }
            }
        }
        let marked = connected(&board.snapshot()).len() as i32;
        let segments = board.snapshot().segments.len();
        let count = board.handle_raise();
        assert_eq!(count, if segments < 2 { 0 } else { marked });
        let after = board.snapshot();
        assert!(connected(&after).is_empty());
        assert!(after.segments.is_empty());
        assert!(!after.closed_path);
        assert_eq!(after.current_color, None);
    }
    // The walks have reached strokes of some length.
    assert!(longest >= 4);
}

#[test]
fn drag_to_any_cell_that_is_no_sibling_changes_no_flag() {
    for seed in 0..5u64 {
        for x in 0..GRID_SIZE {
            for y in 0..GRID_SIZE {
                let mut board = Board::new(StdRng::seed_from_u64(seed));
                click(&mut board, center(x, y));
                let pressed = board.snapshot();
                for tx in 0..GRID_SIZE {
                    for ty in 0..GRID_SIZE {
                        let apart = (x as i32 - tx as i32).abs() + (y as i32 - ty as i32).abs();
                        if apart == 1 {
                            continue;
                        }
                        drag(&mut board, center(tx, ty));
                        let after = board.snapshot();
                        assert_eq!(after.field, pressed.field);
                        assert_eq!(after.segments.len(), 1);
                        assert_eq!(after.segments[0].from, center(x, y));
                        assert_eq!(after.segments[0].to, center(tx, ty));
                    }
                }
            }
        }
    }
}

#[test]
fn connect_and_step_back_restore_flags_and_length() {
    let mut tried = 0;
    for seed in 0..40u64 {
        let board = Board::new(StdRng::seed_from_u64(seed));
        let dealt = board.snapshot();
        for x in 0..GRID_SIZE - 1 {
            for y in 0..GRID_SIZE {
                if color(&dealt, x, y) != color(&dealt, x + 1, y) {
                    continue;
                }
                let mut board = Board::new(StdRng::seed_from_u64(seed));
                click(&mut board, center(x, y));
                let pressed = board.snapshot();
                drag(&mut board, center(x + 1, y));
                assert_eq!(board.snapshot().segments.len(), 2);
                assert_eq!(connected(&board.snapshot()), vec![(x, y), (x + 1, y)]);
                drag(&mut board, Coordinates { x: center(x, y).x + 3, y: center(x, y).y - 4 });
                let back = board.snapshot();
                assert_eq!(back.field, pressed.field);
                assert_eq!(back.segments.len(), pressed.segments.len());
                assert_eq!(back.segments[0].from, center(x, y));
                assert_eq!(back.closed_path, pressed.closed_path);
                assert_eq!(back.current_color, pressed.current_color);
                tried += 1;
            }
        }
    }
    assert!(tried > 20);
}

#[test]
fn release_after_a_drag_that_connected_nothing_gives_the_gesture_up() {
    let mut board = board_where(|s| color(s, 0, 0) != color(s, 1, 0));
    let before = board.snapshot();
    click(&mut board, center(0, 0));
    drag(&mut board, center(1, 0));
    drag(&mut board, center(2, 0));
    assert_eq!(board.snapshot().segments.len(), 1);
    assert_eq!(board.handle_raise(), 0);
    assert!(same(&board.snapshot(), &before));
}
