use snake::cell::{Direction, Position, SizeError, Tick, EMPTY, FOOD, WALL};
use snake::engine::GridEngine;

/// The cells of the snake from head to tail, read off the grid.
fn body_of(grid: &Vec<Vec<i64>>) -> Vec<(usize, usize)> {
    let mut found: Vec<(i64, usize, usize)> = Vec::new();
    for (r, row) in grid.iter().enumerate() {
        for (c, v) in row.iter().enumerate() {
            if *v > 0 {
                found.push((*v, r, c));
            }
        }
    }
    found.sort();
    found.iter().map(|(_, r, c)| (*r, *c)).collect()
}

/// Whether the positive cells are 1 to `length`, each once, along a path.
fn encodes_snake(grid: &Vec<Vec<i64>>, length: u32) -> bool {
    let mut values: Vec<i64> = Vec::new();
    for row in grid {
        for v in row {
            if *v > 0 {
                values.push(*v);
            }
        }
    }
    values.sort();
    let wanted: Vec<i64> = (1..=length as i64).collect();
    if values != wanted {
        return false;
    }
    let body = body_of(grid);
    body.windows(2).all(|w| {
        let (a, b) = (w[0], w[1]);
        a.0.abs_diff(b.0) + a.1.abs_diff(b.1) == 1
    })
}

fn walls_are_the_ring(grid: &Vec<Vec<i64>>) -> bool {
    let n = grid.len();
    grid.iter().enumerate().all(|(r, row)| {
        row.len() == n
            && row.iter().enumerate().all(|(c, v)| {
                let ring = r == 0 || r == n - 1 || c == 0 || c == n - 1;
                (*v == WALL) == ring
            })
    })
}

fn food_cells(grid: &Vec<Vec<i64>>) -> Vec<(usize, usize)> {
    let mut found = Vec::new();
    for (r, row) in grid.iter().enumerate() {
        for (c, v) in row.iter().enumerate() {
            if *v == FOOD {
                found.push((r, c));
            }
        }
    }
    found
}

fn bare(length: u16, size: u16) -> GridEngine {
    GridEngine::without_food(length, size).unwrap()
}

#[test]
fn new_of_three_on_ten() {
    let engine = GridEngine::new(3, 10).unwrap();
    let grid = engine.grid();
    assert_eq!(grid.len(), 10);
    assert!(walls_are_the_ring(grid));
    assert_eq!(grid[5][5], 1);
    assert_eq!(grid[5][4], 2);
    assert_eq!(grid[5][3], 3);
    assert_eq!(body_of(grid), vec![(5, 5), (5, 4), (5, 3)]);
    assert_eq!(engine.direction(), Direction::Right);
    assert_eq!(engine.score(), 0);
    assert_eq!(engine.length(), 3);
}

#[test]
fn new_puts_one_food_on_a_free_cell() {
    for _ in 0..200 {
        let engine = GridEngine::new(3, 6).unwrap();
        let bare_grid = bare(3, 6);
        let food = food_cells(engine.grid());
        assert_eq!(food.len(), 1);
        let (r, c) = food[0];
        assert_eq!(bare_grid.grid()[r][c], EMPTY);
        assert!(1 <= r && r <= 4 && 1 <= c && c <= 4);
        assert_eq!(engine.food(), Some(Position::new(r, c)));
    }
}

#[test]
fn new_reaches_every_free_cell() {
    let mut seen = std::collections::BTreeSet::new();
    for _ in 0..400 {
        let engine = GridEngine::new(1, 4).unwrap();
        seen.insert(food_cells(engine.grid())[0]);
    }
    assert_eq!(seen.into_iter().collect::<Vec<_>>(), vec![(1, 1), (1, 2), (2, 2)]);
}

#[test]
fn new_on_the_smallest_grid_has_no_food() {
    let engine = GridEngine::new(1, 3).unwrap();
    assert_eq!(*engine.grid(), vec![vec![-1, -1, -1], vec![-1, 1, -1], vec![-1, -1, -1]]);
    assert_eq!(engine.food(), None);
    assert_eq!(engine.length(), 1);
}

#[test]
fn new_fails_on_a_grid_too_small() {
    assert_eq!(GridEngine::new(3, 4).err(), Some(SizeError { min_size: 5 }));
    assert_eq!(GridEngine::new(1, 2).err(), Some(SizeError { min_size: 3 }));
    assert_eq!(GridEngine::new(1, 0).err(), Some(SizeError { min_size: 3 }));
    assert_eq!(GridEngine::new(65535, 65535).err(), Some(SizeError { min_size: 65537 }));
    assert_eq!(GridEngine::without_food(8, 9).err(), Some(SizeError { min_size: 10 }));
    assert!(GridEngine::new(3, 5).is_ok());
}

#[test]
fn construction_for_all_small_sizes() {
    for size in 0u16..=14 {
        for length in 1u16..=14 {
            let made = GridEngine::new(length, size);
            if size >= length + 2 {
                let engine = made.unwrap();
                assert_eq!(engine.grid().len(), size as usize);
                assert!(walls_are_the_ring(engine.grid()));
                assert!(encodes_snake(engine.grid(), length as u32));
                assert_eq!(engine.length(), length as u32);
                assert_eq!(engine.score(), 0);
                assert_eq!(engine.direction(), Direction::Right);
                let interior = (size as usize - 2) * (size as usize - 2);
                let wanted = if interior > length as usize { 1 } else { 0 };
                assert_eq!(food_cells(engine.grid()).len(), wanted);
            } else {
                assert_eq!(made.err(), Some(SizeError { min_size: length as u32 + 2 }));
            }
        }
    }
}

#[test]
fn the_snake_lies_centred_on_the_middle_row() {
    assert_eq!(body_of(bare(1, 10).grid()), vec![(5, 4)]);
    assert_eq!(body_of(bare(2, 10).grid()), vec![(5, 5), (5, 4)]);
    assert_eq!(body_of(bare(4, 10).grid()), vec![(5, 6), (5, 5), (5, 4), (5, 3)]);
    assert_eq!(body_of(bare(1, 9).grid()), vec![(4, 4)]);
    assert_eq!(body_of(bare(2, 9).grid()), vec![(4, 4), (4, 3)]);
    assert_eq!(
        body_of(bare(8, 10).grid()),
        vec![(5, 8), (5, 7), (5, 6), (5, 5), (5, 4), (5, 3), (5, 2), (5, 1)]
    );
    assert_eq!(body_of(bare(7, 9).grid()), (1..=7).rev().map(|c| (4, c)).collect::<Vec<_>>());
}

#[test]
fn without_food_is_the_grid_before_the_food() {
    let engine = bare(2, 5);
    assert_eq!(
        *engine.grid(),
        vec![
            vec![-1, -1, -1, -1, -1],
            vec![-1, 0, 0, 0, -1],
            vec![-1, 2, 1, 0, -1],
            vec![-1, 0, 0, 0, -1],
            vec![-1, -1, -1, -1, -1],
        ]
    );
    assert_eq!(engine.food(), None);
}

#[test]
fn a_snake_of_one_moves_right() {
    let mut engine = bare(1, 10);
    assert!(engine.advance());
    let grid = engine.grid();
    assert_eq!(body_of(grid), vec![(5, 5)]);
    assert_eq!(grid[5][5], 1);
    assert_eq!(grid[5][4], 0);
    assert_eq!(engine.length(), 1);
    assert_eq!(engine.score(), 0);
}

#[test]
fn each_heading_moves_the_head_one_cell() {
    for (direction, head) in [
        (Direction::Up, (4, 5)),
        (Direction::Down, (6, 5)),
        (Direction::Right, (5, 6)),
    ] {
        let mut engine = bare(3, 10);
        engine.set_direction(direction);
        assert_eq!(engine.step(), Tick::Moved);
        assert_eq!(body_of(engine.grid()), vec![head, (5, 5), (5, 4)]);
        assert_eq!(engine.grid()[5][3], 0);
    }
    let mut engine = bare(1, 10);
    engine.set_direction(Direction::Left);
    assert_eq!(engine.step(), Tick::Moved);
    assert_eq!(body_of(engine.grid()), vec![(5, 3)]);
}

#[test]
fn reversal_of_a_snake_of_two_collides() {
    let mut engine = bare(2, 10);
    engine.set_direction(Direction::Left);
    assert!(!engine.advance());
    assert_eq!(engine.length(), 2);
    assert_eq!(engine.score(), 0);
}

#[test]
fn the_last_heading_before_a_tick_counts() {
    let mut often = bare(3, 10);
    often.set_direction(Direction::Left);
    often.set_direction(Direction::Down);
    often.set_direction(Direction::Up);
    often.set_direction(Direction::Up);
    assert_eq!(often.direction(), Direction::Up);
    let mut once = bare(3, 10);
    once.set_direction(Direction::Up);
    assert_eq!(often.advance(), once.advance());
    assert_eq!(often.grid(), once.grid());
    assert_eq!(often.direction(), Direction::Up);
}

#[test]
fn set_direction_changes_only_the_heading() {
    let mut engine = bare(3, 10);
    let before = engine.grid().clone();
    engine.set_direction(Direction::Down);
    assert_eq!(*engine.grid(), before);
    assert_eq!(engine.length(), 3);
    assert_eq!(engine.score(), 0);
    assert_eq!(engine.direction(), Direction::Down);
}

#[test]
fn eating_grows_the_snake() {
    let mut engine = bare(3, 10);
    assert!(engine.place_food_at(Position::new(5, 6)));
    assert!(engine.advance());
    assert_eq!(engine.length(), 4);
    assert_eq!(engine.score(), 1);
    let grid = engine.grid();
    assert_eq!(body_of(grid), vec![(5, 6), (5, 5), (5, 4), (5, 3)]);
    let food = food_cells(grid);
    assert_eq!(food.len(), 1);
    assert_ne!(food[0], (5, 6));
    assert!(walls_are_the_ring(grid));
}

#[test]
fn step_eats_without_new_food() {
    let mut engine = bare(3, 10);
    assert!(engine.place_food_at(Position::new(5, 6)));
    assert_eq!(engine.step(), Tick::Grew);
    assert_eq!(engine.length(), 4);
    assert_eq!(engine.score(), 1);
    assert_eq!(engine.food(), None);
    assert_eq!(engine.grid()[5][3], 4);
    assert!(engine.place_food_at(Position::new(1, 1)));
    assert_eq!(engine.food(), Some(Position::new(1, 1)));
}

#[test]
fn food_elsewhere_stays_where_it_is() {
    let mut engine = bare(2, 8);
    assert!(engine.place_food_at(Position::new(1, 1)));
    assert!(engine.advance());
    engine.set_direction(Direction::Up);
    assert!(engine.advance());
    assert_eq!(food_cells(engine.grid()), vec![(1, 1)]);
    assert_eq!(engine.length(), 2);
    assert_eq!(engine.score(), 0);
}

#[test]
fn the_last_free_cell_takes_the_food() {
    let mut engine = bare(2, 4);
    assert_eq!(body_of(engine.grid()), vec![(2, 2), (2, 1)]);
    assert!(engine.place_food_at(Position::new(1, 2)));
    engine.set_direction(Direction::Up);
    assert!(engine.advance());
    assert_eq!(
        *engine.grid(),
        vec![
            vec![-1, -1, -1, -1],
            vec![-1, -2, 1, -1],
            vec![-1, 3, 2, -1],
            vec![-1, -1, -1, -1],
        ]
    );
    assert_eq!((engine.length(), engine.score()), (3, 1));
}

#[test]
fn a_meal_that_fills_the_grid_leaves_no_food() {
    let mut engine = bare(2, 4);
    assert!(engine.place_food_at(Position::new(1, 2)));
    engine.set_direction(Direction::Up);
    assert!(engine.advance());
    engine.set_direction(Direction::Left);
    assert!(engine.advance());
    assert_eq!(
        *engine.grid(),
        vec![
            vec![-1, -1, -1, -1],
            vec![-1, 1, 2, -1],
            vec![-1, 4, 3, -1],
            vec![-1, -1, -1, -1],
        ]
    );
    assert_eq!((engine.length(), engine.score()), (4, 2));
    assert_eq!(engine.food(), None);
    assert!(engine.empty_cells().is_empty());
    assert!(!engine.place_food());
    // The cell of the tail counts as taken: the full snake cannot move on.
    engine.set_direction(Direction::Down);
    assert!(!engine.advance());
    assert_eq!((engine.length(), engine.score()), (4, 2));
}

#[test]
fn a_wall_ends_the_game() {
    let mut engine = bare(1, 3);
    assert!(!engine.advance());
    assert_eq!(engine.length(), 1);
    assert_eq!(engine.score(), 0);
    assert_eq!(engine.direction(), Direction::Right);
    assert_eq!(*engine.grid(), vec![vec![-1, -1, -1], vec![-1, 0, -1], vec![-1, -1, -1]]);
}

#[test]
fn running_into_the_wall_after_some_ticks() {
    let mut engine = bare(3, 10);
    assert!(engine.advance());
    assert!(engine.advance());
    assert!(engine.advance());
    assert_eq!(body_of(engine.grid()), vec![(5, 8), (5, 7), (5, 6)]);
    assert_eq!(engine.step(), Tick::Collided);
    assert_eq!(engine.length(), 3);
    assert_eq!(engine.score(), 0);
}

#[test]
fn the_body_ends_the_game() {
    let mut engine = bare(5, 10);
    engine.set_direction(Direction::Up);
    assert!(engine.advance());
    engine.set_direction(Direction::Left);
    assert!(engine.advance());
    engine.set_direction(Direction::Down);
    let food_before = engine.food();
    assert!(!engine.advance());
    assert_eq!(engine.length(), 5);
    assert_eq!(engine.score(), 0);
    assert_eq!(engine.food(), food_before);
    // The grid stays aged: the tail is gone and there is no head.
    let grid = engine.grid();
    assert_eq!(grid[4][5], 2);
    assert_eq!(grid[4][6], 3);
    assert_eq!(grid[5][6], 4);
    assert_eq!(grid[5][5], 5);
    assert_eq!(grid[5][4], 0);
    assert_eq!(body_of(grid).len(), 4);
}

#[test]
fn the_cell_of_the_tail_counts_as_body() {
    let mut engine = bare(4, 10);
    engine.set_direction(Direction::Up);
    assert!(engine.advance());
    engine.set_direction(Direction::Left);
    assert!(engine.advance());
    assert_eq!(body_of(engine.grid()), vec![(4, 5), (4, 6), (5, 6), (5, 5)]);
    engine.set_direction(Direction::Down);
    assert!(!engine.advance());
}

#[test]
fn ticks_keep_the_snake_in_one_piece() {
    let mut engine = bare(4, 12);
    assert_eq!(body_of(engine.grid())[0], (6, 7));
    assert!(engine.place_food_at(Position::new(8, 8)));
    let turns = [
        Direction::Right,
        Direction::Down,
        Direction::Down,
        Direction::Left,
        Direction::Left,
        Direction::Left,
        Direction::Up,
        Direction::Up,
        Direction::Up,
        Direction::Up,
        Direction::Right,
        Direction::Right,
        Direction::Down,
    ];
    let mut meals = 0;
    for direction in turns {
        engine.set_direction(direction);
        match engine.step() {
            Tick::Moved => {}
            Tick::Grew => {
                meals += 1;
                assert_eq!(engine.food(), None);
                let next = if meals == 1 { Position::new(8, 5) } else { Position::new(1, 1) };
                assert!(engine.place_food_at(next));
            }
            Tick::Collided => panic!("the way is free"),
        }
        assert_eq!(engine.length(), 4 + meals);
        assert_eq!(engine.score(), meals);
        assert!(encodes_snake(engine.grid(), engine.length()));
        assert!(walls_are_the_ring(engine.grid()));
        assert_eq!(food_cells(engine.grid()).len(), 1);
    }
    assert_eq!(meals, 2);
    assert_eq!(
        body_of(engine.grid()),
        vec![(5, 7), (4, 7), (4, 6), (4, 5), (5, 5), (6, 5)]
    );
}

#[test]
fn advance_keeps_the_snake_in_one_piece_with_drawn_food() {
    let mut engine = GridEngine::new(2, 8).unwrap();
    let turns = [Direction::Right, Direction::Down, Direction::Left, Direction::Up];
    let mut length = 2;
    for k in 0..40 {
        let direction = turns[k % 4];
        let grows = next_is_food(&engine, direction);
        engine.set_direction(direction);
        if !engine.advance() {
            assert!(!grows);
            assert_eq!(engine.length(), length);
            return;
        }
        if grows {
            length += 1;
        }
        assert_eq!(engine.length(), length);
        assert_eq!(engine.score(), length - 2);
        assert!(encodes_snake(engine.grid(), length));
        assert!(walls_are_the_ring(engine.grid()));
        assert_eq!(food_cells(engine.grid()).len(), 1);
    }
}

#[test]
fn food_is_drawn_evenly() {
    let mut counts = std::collections::BTreeMap::new();
    for _ in 0..3000 {
        let engine = GridEngine::new(1, 4).unwrap();
        *counts.entry(food_cells(engine.grid())[0]).or_insert(0u32) += 1;
    }
    assert_eq!(counts.len(), 3);
    for count in counts.values() {
        assert!(800 <= *count && *count <= 1200);
    }
}

fn next_is_food(engine: &GridEngine, direction: Direction) -> bool {
    let head = body_of(engine.grid())[0];
    let target = match direction {
        Direction::Up => (head.0 - 1, head.1),
        Direction::Down => (head.0 + 1, head.1),
        Direction::Left => (head.0, head.1 - 1),
        Direction::Right => (head.0, head.1 + 1),
    };
    engine.grid()[target.0][target.1] == FOOD
}

#[test]
fn empty_cells_reads_row_by_row() {
    let engine = bare(2, 4);
    assert_eq!(engine.empty_cells(), vec![Position::new(1, 1), Position::new(1, 2)]);
    let engine = bare(1, 3);
    assert!(engine.empty_cells().is_empty());
    let mut engine = bare(1, 5);
    assert!(engine.place_food_at(Position::new(1, 3)));
    let free = engine.empty_cells();
    assert_eq!(
        free,
        vec![
            Position::new(1, 1),
            Position::new(1, 2),
            Position::new(2, 1),
            Position::new(2, 3),
            Position::new(3, 1),
            Position::new(3, 2),
            Position::new(3, 3),
        ]
    );
}

#[test]
fn place_food_at_takes_only_a_free_cell() {
    let mut engine = bare(3, 10);
    assert!(!engine.place_food_at(Position::new(0, 0)));
    assert!(!engine.place_food_at(Position::new(9, 4)));
    assert!(!engine.place_food_at(Position::new(5, 5)));
    assert!(!engine.place_food_at(Position::new(5, 3)));
    assert!(!engine.place_food_at(Position::new(10, 10)));
    assert!(!engine.place_food_at(Position::new(usize::MAX, 1)));
    assert_eq!(engine.food(), None);
    assert!(engine.place_food_at(Position::new(8, 8)));
    assert_eq!(engine.grid()[8][8], FOOD);
    assert_eq!(engine.food(), Some(Position::new(8, 8)));
    assert!(!engine.place_food_at(Position::new(1, 1)));
    assert_eq!(food_cells(engine.grid()), vec![(8, 8)]);
}

#[test]
fn place_food_puts_food_once() {
    let mut engine = bare(3, 10);
    let before = engine.grid().clone();
    assert!(engine.place_food());
    let food = food_cells(engine.grid());
    assert_eq!(food.len(), 1);
    assert_eq!(before[food[0].0][food[0].1], EMPTY);
    let mut changed = 0;
    for r in 0..10 {
        for c in 0..10 {
            if before[r][c] != engine.grid()[r][c] {
                changed += 1;
            }
        }
    }
    assert_eq!(changed, 1);
    assert!(!engine.place_food());
    assert_eq!(food_cells(engine.grid()), food);
}

#[test]
fn position_holds_row_and_column() {
    let p = Position::new(3, 7);
    assert_eq!(p.row, 3);
    assert_eq!(p.col, 7);
    assert_eq!(p, Position { row: 3, col: 7 });
}
