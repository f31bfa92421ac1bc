//! The mathematical model of the engine: a state, the invariant of a live
//! game, and one tick as a function from state to state.

use crate::cell::{adjacent, step_from, Direction, Tick, EMPTY, FOOD, MAX_SIDE, WALL};
use vstd::prelude::*;

verus! {

/// The state of an engine: the grid as rows of cell values, the length of the
/// snake, the score and the heading of the next tick.
pub struct EngineState {
    pub cells: Seq<Seq<int>>,
    pub length: int,
    pub score: int,
    pub direction: Direction,
}

/// Whether row `r` and column `c` lie on a grid of side `n`.
pub open spec fn in_grid(n: int, r: int, c: int) -> bool {
    0 <= r < n && 0 <= c < n
}

/// Whether row `r` and column `c` lie inside the wall ring of a grid of side `n`.
pub open spec fn interior(n: int, r: int, c: int) -> bool {
    1 <= r < n - 1 && 1 <= c < n - 1
}

/// Every row is as long as the grid is high.
pub open spec fn square(cells: Seq<Seq<int>>) -> bool {
    forall|r: int| 0 <= r < cells.len() ==> (#[trigger] cells[r]).len() == cells.len()
}

/// The walls are the outer ring of the grid, and nothing else.
pub open spec fn walls_ok(cells: Seq<Seq<int>>) -> bool {
    forall|r: int, c: int|
        in_grid(cells.len() as int, r, c) ==> (#[trigger] cells[r][c] == WALL
            <==> !interior(cells.len() as int, r, c))
}

/// No cell holds less than the food value.
pub open spec fn values_ok(cells: Seq<Seq<int>>) -> bool {
    forall|r: int, c: int| in_grid(cells.len() as int, r, c) ==> #[trigger] cells[r][c] >= FOOD
}

/// At most one cell holds food.
pub open spec fn food_ok(cells: Seq<Seq<int>>) -> bool {
    forall|r: int, c: int, r2: int, c2: int|
        in_grid(cells.len() as int, r, c) && in_grid(cells.len() as int, r2, c2)
            && #[trigger] cells[r][c] == FOOD && #[trigger] cells[r2][c2] == FOOD
            ==> r == r2 && c == c2
}

/// Some cell holds food.
pub open spec fn has_food(cells: Seq<Seq<int>>) -> bool {
    exists|r: int, c: int| in_grid(cells.len() as int, r, c) && #[trigger] cells[r][c] == FOOD
}

/// The cell at row `r` and column `c` is inside the walls and empty.
pub open spec fn is_free(cells: Seq<Seq<int>>, r: int, c: int) -> bool {
    interior(cells.len() as int, r, c) && cells[r][c] == EMPTY
}

/// Some cell inside the walls is empty.
pub open spec fn has_free(cells: Seq<Seq<int>>) -> bool {
    exists|r: int, c: int| #[trigger] is_free(cells, r, c)
}

/// `body` lists the cells of the snake from head to tail: its `k`-th cell
/// holds `k + 1`, no other cell holds a positive value, and consecutive
/// cells share an edge.
pub open spec fn is_body(cells: Seq<Seq<int>>, length: int, body: Seq<(int, int)>) -> bool {
    &&& body.len() == length
    &&& forall|k: int|
        0 <= k < length ==> interior(cells.len() as int, (#[trigger] body[k]).0, body[k].1)
            && cells[body[k].0][body[k].1] == k + 1
    &&& forall|r: int, c: int|
        in_grid(cells.len() as int, r, c) && #[trigger] cells[r][c] > 0 ==> cells[r][c] <= length
            && body[cells[r][c] - 1] == (r, c)
    &&& forall|j: int, k: int|
        0 <= j && k == j + 1 && k < length ==> adjacent(#[trigger] body[j], #[trigger] body[k])
}

/// The positive cells are the values `1` to `length`, each once, along a path
/// of cells that share edges.
pub open spec fn snake_ok(cells: Seq<Seq<int>>, length: int) -> bool {
    exists|body: Seq<(int, int)>| is_body(cells, length, body)
}

/// The invariant of a live game.
pub open spec fn wf(s: EngineState) -> bool {
    &&& 3 <= s.cells.len() <= MAX_SIDE
    &&& square(s.cells)
    &&& walls_ok(s.cells)
    &&& values_ok(s.cells)
    &&& food_ok(s.cells)
    &&& 1 <= s.length
    &&& 0 <= s.score < s.length
    &&& snake_ok(s.cells, s.length)
}

/// The cell that holds the head.
pub open spec fn head_of(cells: Seq<Seq<int>>) -> (int, int) {
    choose|p: (int, int)| in_grid(cells.len() as int, p.0, p.1) && cells[p.0][p.1] == 1
}

/// A body value one tick later, in a snake of `length` that does not grow:
/// the tail leaves, every other segment is one tick older.
pub open spec fn age(v: int, length: int) -> int {
    if v > 0 {
        if v == length {
            EMPTY as int
        } else {
            v + 1
        }
    } else {
        v
    }
}

/// The grid after every cell has aged and the tail has left.
pub open spec fn aged(cells: Seq<Seq<int>>, length: int) -> Seq<Seq<int>> {
    Seq::new(cells.len(), |r: int| Seq::new(cells[r].len(), |c: int| age(cells[r][c], length)))
}

/// The grid after every body cell has aged and the tail has stayed.
pub open spec fn grown(cells: Seq<Seq<int>>) -> Seq<Seq<int>> {
    Seq::new(
        cells.len(),
        |r: int|
            Seq::new(
                cells[r].len(),
                |c: int|
                    if cells[r][c] > 0 {
                        cells[r][c] + 1
                    } else {
                        cells[r][c]
                    },
            ),
    )
}

/// The grid with `v` written to cell `p`.
pub open spec fn put(cells: Seq<Seq<int>>, p: (int, int), v: int) -> Seq<Seq<int>> {
    cells.update(p.0, cells[p.0].update(p.1, v))
}

/// The cell in front of the head.
pub open spec fn target_of(s: EngineState) -> (int, int) {
    step_from(head_of(s.cells), s.direction)
}

/// What the cell in front of the head holds.
pub open spec fn found(s: EngineState) -> int {
    s.cells[target_of(s).0][target_of(s).1]
}

/// One tick without the placement of new food: the state that follows `s`,
/// and what happened to the snake.
///
/// The cell in front of the head is judged by what it held before the tick.
/// On a collision the grid is left aged, with the tail gone and no head.
pub open spec fn tick(s: EngineState) -> (EngineState, Tick) {
    let target = target_of(s);
    if found(s) == EMPTY {
        (EngineState { cells: put(aged(s.cells, s.length), target, 1), ..s }, Tick::Moved)
    } else if found(s) == FOOD {
        (
            EngineState {
                cells: put(grown(s.cells), target, 1),
                length: s.length + 1,
                score: s.score + 1,
                direction: s.direction,
            },
            Tick::Grew,
        )
    } else {
        (EngineState { cells: aged(s.cells, s.length), ..s }, Tick::Collided)
    }
}

/// The state `s` with the heading `d`.
pub open spec fn with_direction(s: EngineState, d: Direction) -> EngineState {
    EngineState { direction: d, ..s }
}

/// The state `s` with food in row `r` and column `c`.
pub open spec fn with_food(s: EngineState, r: int, c: int) -> EngineState {
    EngineState { cells: put(s.cells, (r, c), FOOD as int), ..s }
}

/// `after` is `before` with food on one of its free cells, or `before` itself
/// where it has no free cell.
pub open spec fn fed(before: EngineState, after: EngineState) -> bool {
    if has_free(before.cells) {
        exists|r: int, c: int|
            is_free(before.cells, r, c) && after == #[trigger] with_food(before, r, c)
    } else {
        after == before
    }
}

/// Whether `after` is what one tick makes of `before`, the new food of a
/// meal included.
pub open spec fn advanced(before: EngineState, after: EngineState) -> bool {
    if tick(before).1 == Tick::Grew {
        fed(tick(before).0, after)
    } else {
        after == tick(before).0
    }
}

/// The first column of the snake that a new engine holds.
pub open spec fn first_column(length: int, n: int) -> int {
    (n - length) / 2
}

/// The value of a cell of a new engine of side `n` with a snake of `length`,
/// before food is placed. The snake lies on the middle row, centred between
/// the walls, one column nearer to the left wall where the margins cannot be
/// equal; its head is its rightmost cell.
pub open spec fn initial_cell(length: int, n: int, r: int, c: int) -> int {
    if !interior(n, r, c) {
        WALL as int
    } else if r == n / 2 && first_column(length, n) <= c < first_column(length, n) + length {
        first_column(length, n) + length - c
    } else {
        EMPTY as int
    }
}

/// The grid of a new engine before food is placed.
pub open spec fn initial_cells(length: int, n: int) -> Seq<Seq<int>> {
    Seq::new(n as nat, |r: int| Seq::new(n as nat, |c: int| initial_cell(length, n, r, c)))
}

/// The state of a new engine before food is placed: heading right, score 0.
pub open spec fn initial_state(length: int, n: int) -> EngineState {
    EngineState {
        cells: initial_cells(length, n),
        length,
        score: 0,
        direction: Direction::Right,
    }
}

} // verus!
