//! Coordinates, headings and the outcome of a tick.

use vstd::prelude::*;

verus! {

/// The value of a wall cell.
pub const WALL: i64 = -1;

/// The value of the cell that holds the food.
pub const FOOD: i64 = -2;

/// The value of an empty cell.
pub const EMPTY: i64 = 0;

/// The largest side that a grid can have.
pub const MAX_SIDE: usize = 65535;

/// A cell of the grid, by row and column.
#[derive(Clone, Copy, Debug, PartialEq, Eq, Structural)]
pub struct Position {
    pub row: usize,
    pub col: usize,
}

impl View for Position {
    type V = (int, int);

    open spec fn view(&self) -> (int, int) {
        (self.row as int, self.col as int)
    }
}

impl Position {
    /// The cell at `row` and `col`.
    pub fn new(row: usize, col: usize) -> (p: Position)
        ensures
            p == (Position { row, col }),
    {
        Position { row, col }
    }
}

/// One of the four headings of the snake.
#[derive(Clone, Copy, Debug, PartialEq, Eq, Structural)]
pub enum Direction {
    Up,
    Down,
    Left,
    Right,
}

/// What one tick did to the snake.
#[derive(Clone, Copy, Debug, PartialEq, Eq, Structural)]
pub enum Tick {
    /// The head entered an empty cell and the tail left its cell.
    Moved,
    /// The head entered the food cell and the snake grew by one.
    Grew,
    /// The head ran into a wall or into the body.
    Collided,
}

/// The error of a construction for which the grid is too small.
#[derive(Clone, Copy, Debug, PartialEq, Eq, Structural)]
pub struct SizeError {
    /// The smallest side that holds the requested snake.
    pub min_size: u32,
}

/// The cell next to `p` in direction `d`.
pub open spec fn step_from(p: (int, int), d: Direction) -> (int, int) {
    match d {
        Direction::Up => (p.0 - 1, p.1),
        Direction::Down => (p.0 + 1, p.1),
        Direction::Left => (p.0, p.1 - 1),
        Direction::Right => (p.0, p.1 + 1),
    }
}

/// Whether `a` and `b` share an edge.
pub open spec fn adjacent(a: (int, int), b: (int, int)) -> bool {
    ||| a.0 == b.0 && (a.1 == b.1 + 1 || a.1 + 1 == b.1)
    ||| a.1 == b.1 && (a.0 == b.0 + 1 || a.0 + 1 == b.0)
}

} // verus!
